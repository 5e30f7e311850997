use netfs_unlker::Fault;
use netfs_unlker::FsModel;
use netfs_unlker::NodeKind;
use netfs_unlker::RepairError;
use netfs_unlker::RepairOutcome;
use netfs_unlker::RunResult;
use netfs_unlker::plan_traversal;
use netfs_unlker::repair_file;
use netfs_unlker::repair_file_with_fault;
use netfs_unlker::repair_files_in_directory;

fn file(fs: &mut FsModel, parent: usize, name: &str, content: &[u8], locked: bool) -> usize {
    fs.add_child(
        parent,
        NodeKind::RegularFile,
        Some(name.to_string()),
        locked,
        content.to_vec(),
    )
}

#[test]
fn unlocked_file_repair_is_noop() {
    let mut fs = FsModel::new();
    let b = file(&mut fs, 0, "b.txt", b"Y", false);
    let r = repair_file(&mut fs, b);
    assert_eq!(r, Ok(RepairOutcome::SkippedNotLocked));
    assert_eq!(fs.nodes[b].content, b"Y".to_vec());
    assert!(!fs.nodes[b].locked);
    assert_eq!(fs.workspaces, 0);
    assert!(fs.staged.is_none());
    assert!(fs.pending.is_none());
}

#[test]
fn locked_file_repair_preserves_bytes_and_unlocks() {
    let mut fs = FsModel::new();
    let a = file(&mut fs, 0, "a.txt", b"hello world", true);
    let r = repair_file(&mut fs, a);
    assert_eq!(r, Ok(RepairOutcome::Repaired));
    assert_eq!(fs.nodes[a].content, b"hello world".to_vec());
    assert!(!fs.nodes[a].locked);
}

#[test]
fn crash_before_rename_leaves_original_untouched() {
    let mut fs = FsModel::new();
    let a = file(&mut fs, 0, "a.txt", b"X", true);
    let r = repair_file_with_fault(&mut fs, a, Some(Fault::CrashBeforeRename));
    assert_eq!(r, RunResult::Interrupted);
    assert_eq!(fs.nodes[a].content, b"X".to_vec());
    assert!(fs.nodes[a].locked);
}

#[test]
fn crash_after_rename_leaves_full_replacement() {
    let mut fs = FsModel::new();
    let a = file(&mut fs, 0, "a.txt", b"X", true);
    let r = repair_file_with_fault(&mut fs, a, Some(Fault::CrashAfterRename));
    assert_eq!(r, RunResult::Interrupted);
    assert_eq!(fs.nodes[a].content, b"X".to_vec());
    assert!(!fs.nodes[a].locked);
}

#[test]
fn workspace_gone_after_every_failing_attempt() {
    for fault in [
        Fault::CopyToWorkspace,
        Fault::ClearLockHint,
        Fault::CopyBack,
        Fault::Rename,
    ] {
        let mut fs = FsModel::new();
        let a = file(&mut fs, 0, "a.txt", b"X", true);
        let r = repair_file_with_fault(&mut fs, a, Some(fault));
        assert!(matches!(r, RunResult::Failed(_)));
        assert_eq!(fs.workspaces, 0);
        assert!(fs.staged.is_none());
        assert_eq!(fs.nodes[a].content, b"X".to_vec());
    }
}

#[test]
fn workspace_gone_after_successful_attempt() {
    let mut fs = FsModel::new();
    let a = file(&mut fs, 0, "a.txt", b"X", true);
    let r = repair_file(&mut fs, a);
    assert_eq!(r, Ok(RepairOutcome::Repaired));
    assert_eq!(fs.workspaces, 0);
    assert!(fs.staged.is_none());
    assert!(fs.pending.is_none());
}

#[test]
fn failed_rename_leaves_replacement_beside_target() {
    let mut fs = FsModel::new();
    let a = file(&mut fs, 0, "a.txt", b"X", true);
    let r = repair_file_with_fault(&mut fs, a, Some(Fault::Rename));
    assert!(matches!(r, RunResult::Failed(RepairError::Io(_))));
    assert_eq!(fs.workspaces, 0);
    assert!(fs.staged.is_none());
    assert_eq!(fs.pending, Some(b"X".to_vec()));
    assert_eq!(fs.nodes[a].content, b"X".to_vec());
    assert!(fs.nodes[a].locked);
}

#[test]
fn recursive_traversal_visits_every_file_exactly_once() {
    let mut fs = FsModel::new();
    let f1 = file(&mut fs, 0, "f1", b"1", false);
    let d1 = fs.add_child(0, NodeKind::Directory, Some("d1".to_string()), false, Vec::new());
    let f2 = file(&mut fs, d1, "f2", b"2", true);
    let d2 = fs.add_child(d1, NodeKind::Directory, Some("d2".to_string()), false, Vec::new());
    let f3 = file(&mut fs, d2, "f3", b"3", true);
    let s = fs.add_child(d2, NodeKind::Special, Some("sock".to_string()), false, Vec::new());
    let plan = plan_traversal(&fs, 0, true).unwrap();
    assert_eq!(plan.listed, vec![0, d1, d2]);
    assert_eq!(plan.repairs, vec![f1, f2, f3, s]);
    for target in [f1, f2, f3] {
        let occurrences: usize = plan.repairs.iter().filter(|x| **x == target).count();
        assert_eq!(occurrences, 1);
    }
}

#[test]
fn non_recursive_traversal_visits_only_direct_children() {
    let mut fs = FsModel::new();
    let f1 = file(&mut fs, 0, "f1", b"1", false);
    let d1 = fs.add_child(0, NodeKind::Directory, Some("d1".to_string()), false, Vec::new());
    let f2 = file(&mut fs, d1, "f2", b"2", true);
    let plan = plan_traversal(&fs, 0, false).unwrap();
    assert_eq!(plan.listed, vec![0]);
    assert_eq!(plan.repairs, vec![f1, d1]);
    assert!(!plan.repairs.contains(&f2));
}

#[test]
fn directory_scenario_locked_and_unlocked_neighbours() {
    let mut fs = FsModel::new();
    let a = file(&mut fs, 0, "a.txt", b"X", true);
    let b = file(&mut fs, 0, "b.txt", b"Y", false);
    let r = repair_files_in_directory(&mut fs, 0, false);
    assert!(r.is_ok());
    assert_eq!(fs.nodes[a].content, b"X".to_vec());
    assert!(!fs.nodes[a].locked);
    assert_eq!(fs.nodes[b].content, b"Y".to_vec());
    assert!(!fs.nodes[b].locked);
    assert_eq!(fs.workspaces, 0);
    assert!(fs.staged.is_none());
}

#[test]
fn missing_directory_reports_not_found() {
    let mut fs = FsModel::new();
    let a = file(&mut fs, 0, "a.txt", b"X", true);
    let missing = fs.nodes.len() + 7;
    let r = repair_files_in_directory(&mut fs, missing, false);
    assert!(matches!(r, Err(RepairError::NotFound)));
    assert_eq!(fs.nodes[a].content, b"X".to_vec());
    assert!(fs.nodes[a].locked);
    assert_eq!(fs.workspaces, 0);
}

#[test]
fn file_as_directory_root_reports_not_found() {
    let mut fs = FsModel::new();
    let a = file(&mut fs, 0, "a.txt", b"X", true);
    let r = repair_files_in_directory(&mut fs, a, true);
    assert!(matches!(r, Err(RepairError::NotFound)));
    assert!(fs.nodes[a].locked);
}

#[test]
fn special_file_is_skipped_without_side_effects() {
    let mut fs = FsModel::new();
    let s = fs.add_child(0, NodeKind::Special, Some("fifo".to_string()), true, Vec::new());
    let r = repair_file(&mut fs, s);
    assert_eq!(r, Ok(RepairOutcome::SkippedNotRegular));
    assert!(fs.nodes[s].locked);
    assert_eq!(fs.workspaces, 0);
}

#[test]
fn directory_target_is_skipped() {
    let mut fs = FsModel::new();
    let d = fs.add_child(0, NodeKind::Directory, Some("d".to_string()), false, Vec::new());
    let r = repair_file(&mut fs, d);
    assert_eq!(r, Ok(RepairOutcome::SkippedNotRegular));
}

#[test]
fn missing_target_reports_not_found() {
    let mut fs = FsModel::new();
    let a = file(&mut fs, 0, "a.txt", b"X", true);
    let missing = fs.nodes.len() + 3;
    let r = repair_file(&mut fs, missing);
    assert_eq!(r, Err(RepairError::NotFound));
    assert_eq!(fs.nodes[a].content, b"X".to_vec());
    assert!(fs.nodes[a].locked);
    assert_eq!(fs.workspaces, 0);
    assert!(fs.staged.is_none());
}

#[test]
fn unrepresentable_name_reports_name_encoding() {
    let mut fs = FsModel::new();
    let a = fs.add_child(0, NodeKind::RegularFile, None, true, b"X".to_vec());
    let r = repair_file(&mut fs, a);
    assert_eq!(r, Err(RepairError::NameEncoding));
    assert!(fs.nodes[a].locked);
    assert_eq!(fs.workspaces, 0);
}

#[test]
fn rootless_file_reports_invalid_argument() {
    let mut fs = FsModel::new_with_root_file(Some("a.txt".to_string()), b"X".to_vec(), true);
    let r = repair_file(&mut fs, 0);
    assert_eq!(r, Err(RepairError::InvalidArgument));
    assert!(fs.nodes[0].locked);
    assert_eq!(fs.workspaces, 0);
}

#[test]
fn refused_unlock_proxy_reports_would_block() {
    let mut fs = FsModel::new();
    let a = file(&mut fs, 0, "a.txt", b"X", true);
    let r = repair_file_with_fault(&mut fs, a, Some(Fault::ClearLockHint));
    assert_eq!(r, RunResult::Failed(RepairError::WouldBlock));
}

#[test]
fn traversal_abort_stops_at_first_error() {
    let mut fs = FsModel::new();
    let a = file(&mut fs, 0, "a.txt", b"X", true);
    let bad = fs.add_child(0, NodeKind::RegularFile, None, true, b"Z".to_vec());
    let c = file(&mut fs, 0, "c.txt", b"W", true);
    let r = repair_files_in_directory(&mut fs, 0, false);
    assert!(matches!(r, Err(RepairError::NameEncoding)));
    assert!(!fs.nodes[a].locked);
    assert!(fs.nodes[bad].locked);
    assert!(fs.nodes[c].locked);
    assert_eq!(fs.workspaces, 0);
}

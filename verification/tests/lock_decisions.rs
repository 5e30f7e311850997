use netfs_unlker::FlockRequest;
use netfs_unlker::RepairError;
use netfs_unlker::flock_request;
use netfs_unlker::is_file_locked;
use netfs_unlker::lock_directive_result;
use netfs_unlker::lock_error;
use netfs_unlker::query_request;
use netfs_unlker::tmp_file_name;
use netfs_unlker::unlock_request;
use netfs_unlker::EACCES;
use netfs_unlker::EINVAL;
use netfs_unlker::F_GETLK;
use netfs_unlker::F_RDLCK;
use netfs_unlker::F_SETLK;
use netfs_unlker::F_SETLKW;
use netfs_unlker::F_UNLCK;
use netfs_unlker::F_WRLCK;
use netfs_unlker::LOCK_EX;
use netfs_unlker::LOCK_NB;
use netfs_unlker::LOCK_SH;
use netfs_unlker::LOCK_UN;

#[test]
fn release_request_waits_and_unlocks() {
    let r = unlock_request(1234);
    assert_eq!(
        r,
        FlockRequest { cmd: F_SETLKW, lock_type: F_UNLCK, start: 0, len: 1234 }
    );
}

#[test]
fn query_request_probes_shared_over_whole_length() {
    let r = query_request(77);
    assert_eq!(
        r,
        FlockRequest { cmd: F_GETLK, lock_type: F_RDLCK, start: 0, len: 77 }
    );
}

#[test]
fn blocking_shared_request() {
    let r = flock_request(LOCK_SH, 10).unwrap();
    assert_eq!(r, FlockRequest { cmd: F_SETLKW, lock_type: F_RDLCK, start: 0, len: 10 });
}

#[test]
fn nonblocking_exclusive_request() {
    let r = flock_request(LOCK_EX | LOCK_NB, 10).unwrap();
    assert_eq!(r, FlockRequest { cmd: F_SETLK, lock_type: F_WRLCK, start: 0, len: 10 });
}

#[test]
fn unlock_flag_request() {
    let r = flock_request(LOCK_UN, 5).unwrap();
    assert_eq!(r, FlockRequest { cmd: F_SETLKW, lock_type: F_UNLCK, start: 0, len: 5 });
}

#[test]
fn unknown_operation_is_invalid() {
    let r = flock_request(LOCK_SH | LOCK_EX, 5);
    assert_eq!(r, Err(RepairError::Io(EINVAL)));
}

#[test]
fn query_failure_with_permission_denied_counts_as_locked() {
    assert!(is_file_locked(-1, EACCES, F_RDLCK));
}

#[test]
fn query_failure_otherwise_counts_as_unlocked() {
    assert!(!is_file_locked(-1, 9, F_WRLCK));
}

#[test]
fn query_success_reads_conflict_from_answer() {
    assert!(!is_file_locked(0, 0, F_UNLCK));
    assert!(is_file_locked(0, 0, F_WRLCK));
    assert!(is_file_locked(0, 0, F_RDLCK));
}

#[test]
fn directive_success() {
    assert_eq!(lock_directive_result(0, 0), Ok(()));
}

#[test]
fn directive_permission_denied_becomes_would_block() {
    assert_eq!(lock_directive_result(-1, EACCES), Err(RepairError::WouldBlock));
    assert_eq!(lock_error(), RepairError::WouldBlock);
}

#[test]
fn directive_other_failure_keeps_raw_code() {
    assert_eq!(lock_directive_result(-1, 9), Err(RepairError::Io(9)));
}

#[test]
fn artifact_name_wraps_original() {
    let r = tmp_file_name(Some("data.txt")).unwrap();
    assert_eq!(r, ".tmp.data.txt.neo4j".to_string());
}

#[test]
fn artifact_name_of_empty_name() {
    let r = tmp_file_name(Some("")).unwrap();
    assert_eq!(r, ".tmp..neo4j".to_string());
}

#[test]
fn unrepresentable_name_is_refused() {
    assert_eq!(tmp_file_name(None), Err(RepairError::NameEncoding));
}

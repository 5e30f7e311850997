//! The per-file repair sequence: copy, unlock-proxy, copy-back, atomic
//! rename.
//!
//! One file is driven through the sequence against the filesystem model.
//! The contract carries the guarantees that make the sequence safe: the
//! target's bytes are never changed — the single externally visible
//! mutation of the target path is the final rename, which installs a
//! byte-identical replacement — the ephemeral workspace is torn down on
//! every exit, soft conditions (not a regular file, not locked) are
//! successful no-ops, and after a full repair the target reports unlocked.
//!
//! To state what an interrupted run leaves behind, the sequence accepts an
//! injected [`Fault`]: a step that fails with an error, or a process death
//! just before or just after the final rename.

use vstd::prelude::*;
use crate::errors::RepairError;
use crate::errors::lock_error;
use crate::fcntl::EIO;
use crate::fs_model::FsModel;
use crate::fs_model::NodeKind;
use crate::fs_model::StagedArtifact;
use crate::naming::tmp_file_name;

verus! {

/// An injected failure: one step of the sequence refuses, or the process
/// dies at a stated point.
#[derive(Clone, Copy, Debug, PartialEq, Eq, Structural)]
pub enum Fault {
    /// The copy into the workspace fails with an I/O error.
    CopyToWorkspace,
    /// The unlock proxy on the staged copy is refused with a
    /// permission-denied condition.
    ClearLockHint,
    /// The copy back beside the target fails with an I/O error.
    CopyBack,
    /// The final rename fails with an I/O error.
    Rename,
    /// The process dies just before the final rename.
    CrashBeforeRename,
    /// The process dies just after the final rename.
    CrashAfterRename,
}

/// The successful outcomes of one repair attempt.
#[derive(Clone, Copy, Debug, PartialEq, Eq, Structural)]
pub enum RepairOutcome {
    /// The target was locked and has been replaced by an unlocked,
    /// byte-identical copy.
    Repaired,
    /// The target exists but is not a regular file: logged and skipped,
    /// with no side effect.
    SkippedNotRegular,
    /// The target is not locked: nothing to repair.
    SkippedNotLocked,
}

/// How one run of the sequence ended.
#[derive(Clone, Copy, Debug, PartialEq, Eq, Structural)]
pub enum RunResult {
    /// The run completed with the given outcome.
    Done(RepairOutcome),
    /// A step failed; the error aborted this file's repair.
    Failed(RepairError),
    /// The process died at the injected point; nothing was torn down.
    Interrupted,
}

/// The tree is unchanged except, at most, the lock state of node `t`:
/// same entries, and at `t` the same kind, name, bytes, children and
/// parent.
pub open spec fn same_tree_except_lock(pre: FsModel, post: FsModel, t: int) -> bool {
    &&& post.nodes.len() == pre.nodes.len()
    &&& forall|i: int|
        0 <= i < pre.nodes.len() && i != t ==> #[trigger] post.nodes[i] == pre.nodes[i]
    &&& 0 <= t < pre.nodes.len() ==> {
        &&& post.nodes[t].kind == pre.nodes[t].kind
        &&& post.nodes[t].name == pre.nodes[t].name
        &&& post.nodes[t].content@ == pre.nodes[t].content@
        &&& post.nodes[t].children == pre.nodes[t].children
        &&& post.nodes[t].parent == pre.nodes[t].parent
    }
}

/// Well-formedness only looks at kinds, children and parents, so a change
/// that keeps those (a cleared lock, replaced bytes) keeps the tree
/// well-formed.
proof fn lemma_wf_preserved(pre: FsModel, post: FsModel)
    requires
        pre.wf(),
        post.nodes.len() == pre.nodes.len(),
        forall|i: int|
            0 <= i < pre.nodes.len() ==> {
                &&& (#[trigger] post.nodes[i]).children == pre.nodes[i].children
                &&& post.nodes[i].parent == pre.nodes[i].parent
                &&& post.nodes[i].kind == pre.nodes[i].kind
            },
    ensures
        post.wf(),
{
    assert forall|i: int, a: int|
        0 <= i < post.nodes.len() && 0 <= a < post.nodes[i].children.len() implies {
        &&& i < #[trigger] post.child(i, a)
        &&& post.child(i, a) < post.nodes.len()
        &&& post.nodes[post.child(i, a)].parent == Some(i as usize)
    } by {
        assert(post.child(i, a) == pre.child(i, a));
    }
    assert forall|i: int, a: int, b: int|
        0 <= i < post.nodes.len() && 0 <= a && a < b && b
            < post.nodes[i].children.len() implies #[trigger] post.child(i, a)
        < #[trigger] post.child(i, b) by {
        assert(post.child(i, a) == pre.child(i, a));
        assert(post.child(i, b) == pre.child(i, b));
    }
    assert forall|c: int|
        0 <= c < post.nodes.len() implies ((#[trigger] post.nodes[c].parent) matches Some(p) ==> {
        &&& (p as int) < c
        &&& exists|a: int|
            0 <= a < post.nodes[p as int].children.len() && post.child(p as int, a) == c
    }) by {
        if post.nodes[c].parent is Some {
            let p = post.nodes[c].parent->0 as int;
            assert(post.nodes[c].parent == pre.nodes[c].parent);
            let a = choose|a: int|
                0 <= a < pre.nodes[p].children.len() && pre.child(p, a) == c;
            assert(post.child(p, a) == pre.child(p, a));
            assert(0 <= a < post.nodes[p].children.len());
        }
    }
}

/// Copies a byte buffer verbatim.
fn copy_bytes(src: &Vec<u8>) -> (r: Vec<u8>)
    ensures
        r@ == src@,
{
    let mut r: Vec<u8> = Vec::new();
    let mut i: usize = 0;
    while i < src.len()
        invariant
            i <= src.len(),
            r@ == src@.take(i as int),
        decreases src.len() - i,
    {
        r.push(src[i]);
        proof {
            assert(r@ =~= src@.take(i as int + 1));
        }
        i = i + 1;
    }
    proof {
        assert(r@ =~= src@);
    }
    r
}

/// Drives one file through the repair sequence, with an optional injected
/// fault.
///
/// Whatever happens, the target's bytes after the run equal its bytes
/// before it — the replacement installed by the rename is byte-identical —
/// and no other entry changes at all.  Every run that returns (rather than
/// modeling a process death) has torn the ephemeral workspace down.  The
/// result is pinned for every combination of target state and fault: a
/// target that names nothing is refused as not found, an existing entry
/// that is not a regular file is a soft skip, and each error and crash
/// residue comes out of its stated condition.
pub fn repair_file_with_fault(fs: &mut FsModel, target: usize, fault: Option<Fault>) -> (r:
    RunResult)
    requires
        old(fs).wf(),
        old(fs).quiescent(),
    ensures
        final(fs).wf(),
        same_tree_except_lock(*old(fs), *final(fs), target as int),
        target < old(fs).nodes.len() ==> (final(fs).nodes[target as int].locked
            ==> old(fs).nodes[target as int].locked),
        (r == RunResult::Failed(RepairError::NotFound)) <==> !(target < old(fs).nodes.len()),
        !(target < old(fs).nodes.len()) ==> *final(fs) == *old(fs),
        (r == RunResult::Done(RepairOutcome::SkippedNotRegular)) <==> (target
            < old(fs).nodes.len() && !(old(fs).nodes[target as int].kind is RegularFile)),
        (r == RunResult::Done(RepairOutcome::SkippedNotRegular)) ==> *final(fs) == *old(fs),
        (r == RunResult::Done(RepairOutcome::SkippedNotLocked)) <==> (target < old(fs).nodes.len() && old(fs).nodes[target as int].kind is RegularFile && !old(fs).nodes[target as int].locked),
        (r == RunResult::Done(RepairOutcome::SkippedNotLocked)) ==> *final(fs) == *old(fs),
        !(r is Interrupted) ==> final(fs).workspaces == 0 && final(fs).staged is None,
        r is Done ==> final(fs).quiescent(),
        (r == RunResult::Done(RepairOutcome::Repaired)) ==> !final(fs).nodes[target as int].locked && final(fs).quiescent(),
        fault is None ==> !(r is Interrupted),
        (target < old(fs).nodes.len() && old(fs).nodes[target as int].kind is RegularFile && old(fs).nodes[target as int].locked) ==> ({
            let n = old(fs).nodes[target as int];
            &&& n.name is None ==> r == RunResult::Failed(RepairError::NameEncoding) && final(fs).quiescent() && final(fs).nodes == old(fs).nodes
            &&& n.name is Some && n.parent is None ==> r == RunResult::Failed(
                RepairError::InvalidArgument,
            ) && final(fs).quiescent() && final(fs).nodes == old(fs).nodes
            &&& n.name is Some && n.parent is Some ==> ({
                match fault {
                    None => r == RunResult::Done(RepairOutcome::Repaired),
                    Some(Fault::CopyToWorkspace) => r == RunResult::Failed(RepairError::Io(EIO))
                        && final(fs).quiescent() && final(fs).nodes == old(fs).nodes,
                    Some(Fault::ClearLockHint) => r == RunResult::Failed(RepairError::WouldBlock)
                        && final(fs).quiescent() && final(fs).nodes == old(fs).nodes,
                    Some(Fault::CopyBack) => r == RunResult::Failed(RepairError::Io(EIO)) && final(fs).quiescent() && final(fs).nodes == old(fs).nodes,
                    Some(Fault::Rename) => r == RunResult::Failed(RepairError::Io(EIO)) && final(fs).workspaces == 0 && final(fs).staged is None && final(fs).nodes == old(fs).nodes && (final(fs).pending matches Some(p) && p@ == n.content@),
                    Some(Fault::CrashBeforeRename) => r == RunResult::Interrupted && final(fs).nodes == old(fs).nodes && final(fs).workspaces == 1 && (final(fs).staged matches Some(a) && a.bytes@ == n.content@ && a.hint_cleared) && (final(fs).pending matches Some(p) && p@ == n.content@),
                    Some(Fault::CrashAfterRename) => r == RunResult::Interrupted && !final(fs).nodes[target as int].locked && final(fs).workspaces == 1 && final(fs).pending is None,
                }
            })
        }),
{
    // Step 1: open the target.  A path that names nothing is surfaced as
    // not found; an existing entry that is not a regular file is a soft
    // skip.  Neither has a side effect.
    if !(target < fs.nodes.len()) {
        return RunResult::Failed(RepairError::NotFound);
    }
    if !(matches!(fs.nodes[target].kind, NodeKind::RegularFile)) {
        return RunResult::Done(RepairOutcome::SkippedNotRegular);
    }
    // Step 2: query the lock state; an unlocked file is a no-op.
    if !fs.nodes[target].locked {
        return RunResult::Done(RepairOutcome::SkippedNotLocked);
    }
    // Step 3: create the ephemeral workspace.
    fs.workspaces = fs.workspaces + 1;
    // Step 4: build the temporary-artifact name from the file's name.
    let named = match &fs.nodes[target].name {
        Some(s) => tmp_file_name(Some(s.as_str())),
        None => tmp_file_name(None),
    };
    let artifact_name = match named {
        Ok(n) => n,
        Err(e) => {
            fs.workspaces = fs.workspaces - 1;
            proof {
                lemma_wf_preserved(*old(fs), *fs);
            }
            return RunResult::Failed(e);
        },
    };
    // Step 5: the replacement must have a parent directory to land in.
    if fs.nodes[target].parent.is_none() {
        fs.workspaces = fs.workspaces - 1;
        proof {
            lemma_wf_preserved(*old(fs), *fs);
        }
        return RunResult::Failed(RepairError::InvalidArgument);
    }
    // Step 6: copy the target's bytes verbatim into the workspace.
    if matches!(fault, Some(Fault::CopyToWorkspace)) {
        fs.workspaces = fs.workspaces - 1;
        proof {
            lemma_wf_preserved(*old(fs), *fs);
        }
        return RunResult::Failed(RepairError::Io(EIO));
    }
    let staged_bytes = copy_bytes(&fs.nodes[target].content);
    // Step 7: unlock proxy — clear the lock-table entry of this process's
    // handle on the copy.  It does not reach the remote lock holder.
    if matches!(fault, Some(Fault::ClearLockHint)) {
        fs.workspaces = fs.workspaces - 1;
        proof {
            lemma_wf_preserved(*old(fs), *fs);
        }
        return RunResult::Failed(lock_error());
    }
    let staged = StagedArtifact { name: artifact_name, bytes: staged_bytes, hint_cleared: true };
    // Step 8: copy the staged bytes beside the target, on the same
    // filesystem, so the final rename can be atomic.
    if matches!(fault, Some(Fault::CopyBack)) {
        fs.workspaces = fs.workspaces - 1;
        proof {
            lemma_wf_preserved(*old(fs), *fs);
        }
        return RunResult::Failed(RepairError::Io(EIO));
    }
    let pending = copy_bytes(&staged.bytes);
    if matches!(fault, Some(Fault::CrashBeforeRename)) {
        fs.staged = Some(staged);
        fs.pending = Some(pending);
        proof {
            lemma_wf_preserved(*old(fs), *fs);
        }
        return RunResult::Interrupted;
    }
    if matches!(fault, Some(Fault::Rename)) {
        fs.pending = Some(pending);
        fs.workspaces = fs.workspaces - 1;
        proof {
            lemma_wf_preserved(*old(fs), *fs);
        }
        return RunResult::Failed(RepairError::Io(EIO));
    }
    // Step 9: the atomic rename — the single externally visible mutation
    // of the target path.  The replacement has the original's bytes and
    // no lock-table entry.
    fs.nodes[target].content = pending;
    fs.nodes[target].locked = false;
    proof {
        lemma_wf_preserved(*old(fs), *fs);
    }
    if matches!(fault, Some(Fault::CrashAfterRename)) {
        fs.staged = Some(staged);
        proof {
            lemma_wf_preserved(*old(fs), *fs);
        }
        return RunResult::Interrupted;
    }
    // Step 10: tear the ephemeral workspace down.
    fs.workspaces = fs.workspaces - 1;
    proof {
        lemma_wf_preserved(*old(fs), *fs);
    }
    RunResult::Done(RepairOutcome::Repaired)
}

/// Repairs a single file: the fault-free run of the repair sequence.
///
/// A target that names nothing is refused as not found.  An existing
/// target that is not a regular file, or is not locked, is a successful
/// no-op that leaves the model untouched.  A locked regular file whose
/// name is representable and which has a parent directory is repaired:
/// its bytes are unchanged and it is no longer locked.  Beside the
/// missing target, the only errors are the two edge conditions: an
/// unrepresentable name, and a missing parent directory.
pub fn repair_file(fs: &mut FsModel, target: usize) -> (r: Result<RepairOutcome, RepairError>)
    requires
        old(fs).wf(),
        old(fs).quiescent(),
    ensures
        final(fs).wf(),
        final(fs).quiescent(),
        same_tree_except_lock(*old(fs), *final(fs), target as int),
        target < old(fs).nodes.len() ==> (final(fs).nodes[target as int].locked
            ==> old(fs).nodes[target as int].locked),
        (r == Err::<RepairOutcome, RepairError>(RepairError::NotFound)) <==> !(target < old(fs).nodes.len()),
        !(target < old(fs).nodes.len()) ==> *final(fs) == *old(fs),
        (r == Ok::<RepairOutcome, RepairError>(RepairOutcome::SkippedNotRegular)) <==> (target
            < old(fs).nodes.len() && !(old(fs).nodes[target as int].kind is RegularFile)),
        (r == Ok::<RepairOutcome, RepairError>(RepairOutcome::SkippedNotRegular)) ==> *final(fs)
            == *old(fs),
        (r == Ok::<RepairOutcome, RepairError>(RepairOutcome::SkippedNotLocked)) <==> (target < old(fs).nodes.len() && old(fs).nodes[target as int].kind is RegularFile && !old(fs).nodes[target as int].locked),
        (r == Ok::<RepairOutcome, RepairError>(RepairOutcome::SkippedNotLocked)) ==> *final(fs)
            == *old(fs),
        (target < old(fs).nodes.len() && old(fs).nodes[target as int].kind is RegularFile && old(fs).nodes[target as int].locked) ==> ({
            let n = old(fs).nodes[target as int];
            &&& n.name is None ==> r == Err::<RepairOutcome, RepairError>(
                RepairError::NameEncoding,
            )
            &&& n.name is Some && n.parent is None ==> r == Err::<RepairOutcome, RepairError>(
                RepairError::InvalidArgument,
            )
            &&& n.name is Some && n.parent is Some ==> r == Ok::<RepairOutcome, RepairError>(
                RepairOutcome::Repaired,
            ) && !final(fs).nodes[target as int].locked
        }),
        r is Err <==> (!(target < old(fs).nodes.len()) || (old(fs).nodes[target as int].kind is RegularFile && old(fs).nodes[target as int].locked && (old(fs).nodes[target as int].name is None || old(fs).nodes[target as int].parent is None))),
        r is Err ==> final(fs).nodes == old(fs).nodes,
{
    let run = repair_file_with_fault(fs, target, None);
    match run {
        RunResult::Done(o) => Ok(o),
        RunResult::Failed(e) => Err(e),
        RunResult::Interrupted => {
            proof {
                assert(false);
            }
            Err(RepairError::Io(EIO))
        },
    }
}

} // verus!

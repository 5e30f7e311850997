//! The lock interrogator's decision layer.
//!
//! Whole-file advisory locks are queried and released through the
//! platform's record-locking call.  The functions here are the pure halves
//! of that interface: they build the request that the call takes, and they
//! interpret the raw outcome that the call hands back.  The call itself is
//! performed by the unverified front-end, which feeds its return value and
//! error code to the interpretation functions below.

use vstd::prelude::*;
use crate::errors::RepairError;
use crate::errors::lock_error;

verus! {

/// Record-lock command: query which lock would block a probe.
pub const F_GETLK: i32 = 5;

/// Record-lock command: place or clear a lock, failing instead of waiting.
pub const F_SETLK: i32 = 6;

/// Record-lock command: place or clear a lock, waiting until possible.
pub const F_SETLKW: i32 = 7;

/// Lock type: shared (read) lock.
pub const F_RDLCK: i16 = 0;

/// Lock type: exclusive (write) lock.
pub const F_WRLCK: i16 = 1;

/// Lock type: no lock; also the answer a query writes back when nothing
/// conflicts.
pub const F_UNLCK: i16 = 2;

/// Operation: acquire a shared lock.
pub const LOCK_SH: i32 = 1;

/// Operation: acquire an exclusive lock.
pub const LOCK_EX: i32 = 2;

/// Operation modifier: do not wait for the lock.
pub const LOCK_NB: i32 = 4;

/// Operation: release the lock.
pub const LOCK_UN: i32 = 8;

/// Error code for a permission-denied condition.
pub const EACCES: i32 = 13;

/// Error code for an invalid argument.
pub const EINVAL: i32 = 22;

/// Error code for a generic I/O failure.
pub const EIO: i32 = 5;

/// A prepared record-lock request: the command and the fields of the lock
/// description that the platform call takes.  The region always starts at
/// the beginning of the file and covers `[0, len)`, with `len` the file's
/// byte length at the moment the request is built.  This is a fixed,
/// documented limitation: the region is not "to end of file", so if the
/// file grows after a lock was taken, a request built from a recomputed
/// length may miss part of the locked region.
#[derive(Clone, Copy, Debug, PartialEq, Eq, Structural)]
pub struct FlockRequest {
    /// The command to issue (`F_GETLK`, `F_SETLK` or `F_SETLKW`).
    pub cmd: i32,
    /// The lock type of the request.
    pub lock_type: i16,
    /// First byte of the locked region.
    pub start: i64,
    /// Length of the locked region in bytes.
    pub len: i64,
}

/// Builds the request for a lock operation over the first `size` bytes of a
/// file.  A blocking operation (no `LOCK_NB` bit) uses the waiting command;
/// a non-blocking one uses the failing command with the modifier masked
/// off.  An operation that is none of shared, exclusive or release is
/// refused as an invalid argument.
pub fn flock_request(flag: i32, size: i64) -> (r: Result<FlockRequest, RepairError>)
    ensures
        ({
            let cmd = if flag & LOCK_NB == 0 { F_SETLKW } else { F_SETLK };
            let operation = if flag & LOCK_NB == 0 { flag } else { flag & !LOCK_NB };
            if operation == LOCK_SH {
                r == Ok::<FlockRequest, RepairError>(FlockRequest { cmd, lock_type: F_RDLCK, start: 0, len: size })
            } else if operation == LOCK_EX {
                r == Ok::<FlockRequest, RepairError>(FlockRequest { cmd, lock_type: F_WRLCK, start: 0, len: size })
            } else if operation == LOCK_UN {
                r == Ok::<FlockRequest, RepairError>(FlockRequest { cmd, lock_type: F_UNLCK, start: 0, len: size })
            } else {
                r == Err::<FlockRequest, RepairError>(RepairError::Io(EINVAL))
            }
        }),
{
    let nonblocking = flag & LOCK_NB != 0;
    let cmd: i32 = if nonblocking { F_SETLK } else { F_SETLKW };
    let operation: i32 = if nonblocking { flag & !LOCK_NB } else { flag };
    let lock_type: i16 = if operation == LOCK_SH {
        F_RDLCK
    } else if operation == LOCK_EX {
        F_WRLCK
    } else if operation == LOCK_UN {
        F_UNLCK
    } else {
        return Err(RepairError::Io(EINVAL));
    };
    Ok(FlockRequest { cmd, lock_type, start: 0, len: size })
}

/// Builds the non-destructive query used to decide whether a file is
/// locked: a shared-lock probe over the first `size` bytes.
pub fn query_request(size: i64) -> (r: FlockRequest)
    ensures
        r == (FlockRequest { cmd: F_GETLK, lock_type: F_RDLCK, start: 0, len: size }),
{
    FlockRequest { cmd: F_GETLK, lock_type: F_RDLCK, start: 0, len: size }
}

/// Builds the release directive over the first `size` bytes of a file.
pub fn unlock_request(size: i64) -> (r: FlockRequest)
    ensures
        r == (FlockRequest { cmd: F_SETLKW, lock_type: F_UNLCK, start: 0, len: size }),
{
    assert(LOCK_UN & LOCK_NB == 0) by (bit_vector);
    let r = flock_request(LOCK_UN, size);
    match r {
        Ok(req) => req,
        Err(_) => {
            proof {
                assert(false);
            }
            FlockRequest { cmd: F_SETLKW, lock_type: F_UNLCK, start: 0, len: size }
        },
    }
}

/// Interprets the outcome of the lock query: `ret` is the call's return
/// value, `errno` its error code when it failed, and `lock_type` the lock
/// type the call wrote back into the request on success (`F_UNLCK` when no
/// conflicting lock exists).  A conflicting lock held by another process
/// reports locked; a permission-denied failure is treated as locked rather
/// than surfaced; every other failure is treated, best effort, as not
/// locked.
pub fn is_file_locked(ret: i32, errno: i32, lock_type: i16) -> (r: bool)
    ensures
        r == (if ret == -1 {
            errno == EACCES
        } else {
            lock_type != F_UNLCK
        }),
{
    if ret == -1 {
        errno == EACCES
    } else {
        lock_type != F_UNLCK
    }
}

/// Interprets the outcome of a lock directive (place or release): success
/// when the call did not fail; a permission-denied failure is mapped to
/// the dedicated would-block error; any other failure keeps its raw code.
pub fn lock_directive_result(ret: i32, errno: i32) -> (r: Result<(), RepairError>)
    ensures
        ret != -1 ==> r == Ok::<(), RepairError>(()),
        ret == -1 && errno == EACCES ==> r == Err::<(), RepairError>(RepairError::WouldBlock),
        ret == -1 && errno != EACCES ==> r == Err::<(), RepairError>(RepairError::Io(errno)),
{
    if ret != -1 {
        Ok(())
    } else if errno == EACCES {
        Err(lock_error())
    } else {
        Err(RepairError::Io(errno))
    }
}

} // verus!

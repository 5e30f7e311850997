//! Repair of files left in a stuck whole-file advisory-lock state after a
//! remote storage client has disconnected.
//!
//! The crate verifies the decision core of the repair tool: how an OS
//! record-lock request is built and its outcome interpreted, how the
//! temporary-artifact name is formed, how one file is driven through the
//! copy / unlock-proxy / copy-back / atomic-rename sequence, and how a
//! directory tree is traversed.  The filesystem itself is represented by an
//! explicit in-memory model ([`fs_model::FsModel`]), so that the repair
//! sequence's guarantees — content preservation, atomicity of the final
//! rename, teardown of the ephemeral workspace — are stated and proved as
//! contracts.  The thin binary front-end performs the actual system calls,
//! feeding their raw results to the verified decision functions.

mod errors;
mod fcntl;
mod fs_model;
mod naming;
mod repair;
mod traverse;

pub use errors::RepairError;
pub use errors::lock_error;
pub use fcntl::EACCES;
pub use fcntl::EINVAL;
pub use fcntl::EIO;
pub use fcntl::F_GETLK;
pub use fcntl::F_RDLCK;
pub use fcntl::F_SETLK;
pub use fcntl::F_SETLKW;
pub use fcntl::F_UNLCK;
pub use fcntl::F_WRLCK;
pub use fcntl::FlockRequest;
pub use fcntl::LOCK_EX;
pub use fcntl::LOCK_NB;
pub use fcntl::LOCK_SH;
pub use fcntl::LOCK_UN;
pub use fcntl::flock_request;
pub use fcntl::is_file_locked;
pub use fcntl::lock_directive_result;
pub use fcntl::query_request;
pub use fcntl::unlock_request;
pub use fs_model::FsModel;
pub use fs_model::Node;
pub use fs_model::NodeKind;
pub use fs_model::StagedArtifact;
pub use naming::tmp_file_name;
pub use repair::Fault;
pub use repair::RepairOutcome;
pub use repair::RunResult;
pub use repair::repair_file;
pub use repair::repair_file_with_fault;
pub use repair::same_tree_except_lock;
pub use traverse::TraversalPlan;
pub use traverse::aborted_run;
pub use traverse::unrepairable;
pub use traverse::lemma_recursive_plan_covers_subtree;
pub use traverse::placed;
pub use traverse::plan_ok;
pub use traverse::plan_traversal;
pub use traverse::repair_files_in_directory;

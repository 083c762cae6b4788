//! Scans directory trees for version-controlled repositories and reports the
//! ones whose current branch holds commits that were never published to the
//! configured upstream.
//!
//! The crate has two halves: a status classifier, which decides for one
//! repository whether it is `Clean`, `HasUnpushed` or `MissingHead`, and the
//! traversal rules of the tree walker that finds repositories under a root
//! directory.

mod git;
pub mod status;
pub mod walk;

pub use status::check_repo_status;
pub use status::ClassificationError;
pub use status::RefDecision;
pub use status::RefObservation;
pub use status::RepoStatus;

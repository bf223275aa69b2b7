//! Mine a git repository one stratum at a time: commits, their authors and
//! co-authors, the branches that contain them and the files they touch.

pub mod actor;
pub mod coauthor;
pub mod commit;
pub mod error;
pub mod git;
pub mod mfile;
pub mod repository;
pub mod ssh_url;
pub mod text;
pub mod url;

pub use actor::{Actor, MinedActor, UtcTime};
pub use coauthor::iter_co_authors;
pub use commit::{BranchCandidate, BranchCandidateView, Commit, DiffStats, MinedCommit, MockActor};
pub use error::{Error, GitError};
pub use mfile::{FileDelta, LineStats, ModifiedFile};
pub use repository::{
    clone_protocol, parse_oid, protocol_for, resolve_destination, CloneProtocol, Local, Remote,
};
pub use url::GitUrl;

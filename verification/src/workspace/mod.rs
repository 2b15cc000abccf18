//! Workspace persistence: start profiles, layout snapshots and the rules
//! for storing them.
use vstd::prelude::*;

pub mod debounce;
pub mod error;
pub mod layout;
pub mod profile;
pub mod start_config;
pub mod storage;

pub use error::{WorkspaceError, WorkspaceErrorView, WorkspaceWarning};
pub use layout::{
    profile_id_set, LayoutOrientation, LayoutPane, LayoutSnapshot, LayoutSplit, LayoutTab,
    LayoutTerminal,
};
pub use profile::{ProfileId, StartProfile};
pub use start_config::{validate_path, StartConfig, StartConfigView};

verus! {

/// The schema version of the stored files, kept in their top-level field
/// `schema_version`. A file of another version is set aside.
pub const SCHEMA_VERSION: u32 = 1;

} // verus!

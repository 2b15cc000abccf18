//! Verified core of the IV terminal emulator: the split-pane tree, the tab
//! collection, the workspace data model (start profiles, start
//! configurations, layout snapshots and their storage rules), the terminal
//! process lifecycle and the settings defaults.
pub mod pane;
pub mod session;
pub mod settings;
pub mod tab;
pub mod terminal;
pub mod text;
pub mod workspace;

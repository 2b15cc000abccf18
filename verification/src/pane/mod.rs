//! Binary tree of split panes.
pub mod ids;
pub mod laws;
pub mod model;
pub mod navigation;
pub mod node;
pub mod ratio;
pub mod tree;

pub use ids::{Direction, Orientation, PaneId, SplitId};
pub use model::PaneModel;
pub use node::PaneNode;
pub use tree::{PaneTree, PaneTreeView};
pub use model::default_title;

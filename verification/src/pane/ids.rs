use vstd::prelude::*;

verus! {

/// Identity of a terminal pane inside one pane tree.
#[derive(Debug, Clone, Copy, PartialEq, Eq, Hash, Structural)]
pub struct PaneId(pub u64);

impl PaneId {
    /// The raw number behind this id.
    pub open spec fn value(self) -> u64 {
        self.0
    }

    pub fn new(id: u64) -> (r: Self)
        ensures
            r.value() == id,
    {
        PaneId(id)
    }

    pub fn as_u64(self) -> (r: u64)
        ensures
            r == self.value(),
    {
        self.0
    }
}

/// Identity of a split node inside one pane tree.
#[derive(Debug, Clone, Copy, PartialEq, Eq, Hash, Structural)]
pub struct SplitId(pub u64);

impl SplitId {
    pub open spec fn value(self) -> u64 {
        self.0
    }

    pub fn new(id: u64) -> (r: Self)
        ensures
            r.value() == id,
    {
        SplitId(id)
    }

    pub fn as_u64(self) -> (r: u64)
        ensures
            r == self.value(),
    {
        self.0
    }
}

/// How a split divides its space: `Horizontal` puts the children side by
/// side (first left, second right), `Vertical` stacks them (first on top).
#[derive(Debug, Clone, Copy, PartialEq, Eq, Structural)]
pub enum Orientation {
    Horizontal,
    Vertical,
}

/// Direction of a focus move.
#[derive(Debug, Clone, Copy, PartialEq, Eq, Structural)]
pub enum Direction {
    Up,
    Down,
    Left,
    Right,
}

} // verus!

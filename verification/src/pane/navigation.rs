//! Direction-based focus navigation.
use vstd::prelude::*;

use super::ids::{Direction, Orientation, PaneId};
use super::model::lemma_neighbor_in_tree;
use super::node::PaneNode;

verus! {

/// The neighbouring pane of `from_id` in `direction`, if there is one.
pub fn find_neighbor(root: &PaneNode, from_id: PaneId, direction: Direction) -> (r: Option<
    PaneId,
>)
    ensures
        r == root@.neighbor(from_id, direction),
{
    find_neighbor_impl(root, from_id, direction).0
}

/// Returns the neighbour found inside `node` and whether `node` holds
/// `from_id`.
fn find_neighbor_impl(node: &PaneNode, from_id: PaneId, direction: Direction) -> (r: (
    Option<PaneId>,
    bool,
))
    ensures
        r.0 == node@.neighbor(from_id, direction),
        r.1 == node@.has_pane(from_id),
    decreases node,
{
    match node {
        PaneNode::Terminal { id, .. } => {
            if *id == from_id {
                (None, true)
            } else {
                (None, false)
            }
        },
        PaneNode::Split { orientation, first, second, .. } => {
            proof {
                lemma_neighbor_in_tree(first@, from_id, direction);
                lemma_neighbor_in_tree(second@, from_id, direction);
            }
            let (result_first, found_in_first) = find_neighbor_impl(first, from_id, direction);
            if result_first.is_some() {
                return (result_first, true);
            }
            let (result_second, found_in_second) = find_neighbor_impl(second, from_id, direction);
            if result_second.is_some() {
                return (result_second, true);
            }
            match (*orientation, direction) {
                (Orientation::Horizontal, Direction::Left) if found_in_second => {
                    (Some(rightmost_leaf(first)), true)
                },
                (Orientation::Horizontal, Direction::Right) if found_in_first => {
                    (Some(leftmost_leaf(second)), true)
                },
                (Orientation::Vertical, Direction::Up) if found_in_second => {
                    (Some(bottommost_leaf(first)), true)
                },
                (Orientation::Vertical, Direction::Down) if found_in_first => {
                    (Some(topmost_leaf(second)), true)
                },
                _ => (None, found_in_first || found_in_second),
            }
        },
    }
}

/// The right-most pane of the subtree.
pub fn rightmost_leaf(node: &PaneNode) -> (r: PaneId)
    ensures
        r == node@.last_leaf(),
    decreases node,
{
    match node {
        PaneNode::Terminal { id, .. } => *id,
        PaneNode::Split { second, .. } => rightmost_leaf(second),
    }
}

/// The left-most pane of the subtree.
pub fn leftmost_leaf(node: &PaneNode) -> (r: PaneId)
    ensures
        r == node@.first_leaf(),
    decreases node,
{
    match node {
        PaneNode::Terminal { id, .. } => *id,
        PaneNode::Split { first, .. } => leftmost_leaf(first),
    }
}

/// The top-most pane of the subtree.
pub fn topmost_leaf(node: &PaneNode) -> (r: PaneId)
    ensures
        r == node@.first_leaf(),
    decreases node,
{
    match node {
        PaneNode::Terminal { id, .. } => *id,
        PaneNode::Split { first, .. } => topmost_leaf(first),
    }
}

/// The bottom-most pane of the subtree.
pub fn bottommost_leaf(node: &PaneNode) -> (r: PaneId)
    ensures
        r == node@.last_leaf(),
    decreases node,
{
    match node {
        PaneNode::Terminal { id, .. } => *id,
        PaneNode::Split { second, .. } => bottommost_leaf(second),
    }
}

} // verus!

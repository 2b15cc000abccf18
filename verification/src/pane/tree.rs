//! The pane tree of one tab.
use vstd::prelude::*;

use super::ids::{Direction, Orientation, PaneId, SplitId};
use super::model::{
    default_title, lemma_close_leaf, lemma_close_leaf_panes, lemma_close_leaf_splits,
    lemma_max_pane_bound, lemma_max_split_bound, lemma_neighbor_in_tree, lemma_pane_ids_len, lemma_split_leaf, lemma_split_leaf_panes,
    lemma_split_leaf_splits, lemma_title_of_some, lemma_with_ratio, lemma_with_ratio_ids,
    lemma_with_title, lemma_with_title_ids, PaneModel,
};
use super::laws::{law_valid_tree_keeps_invariant, pane_invariant};
use super::navigation;
use super::node::{self, PaneNode};
use super::ratio::{clamp_ratio, clamped_ratio, is_finite_ratio, ratio_is_finite};

verus! {

/// What a pane tree is: its nodes, the focused pane and the next free ids.
pub struct PaneTreeView {
    pub root: PaneModel,
    pub active: PaneId,
    pub next_pane: u64,
    pub next_split: u64,
}

impl PaneTreeView {
    /// The invariant of every pane tree: ids are unique, every ratio is
    /// supported, the focused pane exists, and the next ids are larger than
    /// every id in use.
    pub open spec fn well_formed(self) -> bool {
        &&& self.root.ids_unique()
        &&& self.root.ratios_supported()
        &&& self.root.has_pane(self.active)
        &&& forall|p: PaneId| #[trigger] self.root.has_pane(p) ==> p.0 < self.next_pane
        &&& forall|s: SplitId| #[trigger] self.root.has_split(s) ==> s.0 < self.next_split
    }

    /// There is room for one more pane and split id.
    pub open spec fn can_split(self) -> bool {
        self.next_pane < u64::MAX && self.next_split < u64::MAX
    }
}

/// A binary tree of split panes. Always contains at least one terminal
/// pane, and the focused pane is one of them.
#[derive(Debug)]
pub struct PaneTree {
    root: PaneNode,
    active_id: PaneId,
    next_id: u64,
    next_split_id: u64,
}

impl View for PaneTree {
    type V = PaneTreeView;

    closed spec fn view(&self) -> PaneTreeView {
        PaneTreeView {
            root: self.root@,
            active: self.active_id,
            next_pane: self.next_id,
            next_split: self.next_split_id,
        }
    }
}

impl Clone for PaneTree {
    fn clone(&self) -> (r: Self)
        ensures
            r@ == self@,
    {
        proof {
            use_type_invariant(self);
        }
        PaneTree {
            root: node::clone_node(&self.root),
            active_id: self.active_id,
            next_id: self.next_id,
            next_split_id: self.next_split_id,
        }
    }
}

impl PaneTree {
    #[verifier::type_invariant]
    closed spec fn inv(self) -> bool {
        self@.well_formed()
    }

    /// A tree with a single pane, id 0, titled "IV".
    pub fn new() -> (r: Self)
        ensures
            r@ == initial_tree(),
            pane_invariant(r@),
    {
        let id = PaneId::new(0);
        let title = "IV".to_owned();
        proof {
            reveal_strlit("IV");
            assert(title@ =~= default_title());
        }
        let r = PaneTree {
            root: PaneNode::Terminal { id, title },
            active_id: id,
            next_id: 1,
            next_split_id: 0,
        };
        proof {
            law_valid_tree_keeps_invariant(r@);
        }
        r
    }

    /// Restores a tree from persisted nodes. Duplicate ids, non-finite
    /// ratios and ratios outside the supported range are rejected, and so
    /// is a tree whose largest id leaves no room for a next one. The first
    /// pane becomes active; new ids continue after the largest ones.
    pub fn from_root(root: PaneNode) -> (r: Option<Self>)
        ensures
            r matches Some(t) ==> Some(t@) == restored_tree(root@),
            r is None ==> restored_tree(root@) is None,
            r matches Some(t) ==> pane_invariant(t@),
    {
        let mut pane_ids: Vec<PaneId> = Vec::new();
        let mut split_ids: Vec<SplitId> = Vec::new();
        if !node::validate_restored_node(&root, &mut pane_ids, &mut split_ids) {
            return None;
        }
        let active_id = node::find_first_leaf(&root);
        let max_pane = node::max_pane_id(&root);
        if max_pane == u64::MAX {
            return None;
        }
        let next_id = max_pane + 1;
        let next_split_id = match node::max_split_id(&root) {
            Some(id) => {
                if id == u64::MAX {
                    return None;
                }
                id + 1
            },
            None => 0,
        };
        proof {
            assert forall|p: PaneId| #[trigger] root@.has_pane(p) implies p.0 < next_id by {
                lemma_max_pane_bound(root@, p);
            }
            assert forall|s: SplitId| #[trigger] root@.has_split(s) implies s.0 < next_split_id by {
                lemma_max_split_bound(root@, s);
            }
            super::model::lemma_extreme_leaves(root@);
        }
        let r = PaneTree { root, active_id, next_id, next_split_id };
        proof {
            law_valid_tree_keeps_invariant(r@);
        }
        Some(r)
    }

    pub fn active_id(&self) -> (r: PaneId)
        ensures
            r == self@.active,
    {
        self.active_id
    }

    /// Focuses the pane if the tree holds it; returns whether it did.
    pub fn set_active(&mut self, id: PaneId) -> (r: bool)
        ensures
            r == old(self)@.root.has_pane(id),
            final(self)@ == (if r {
                PaneTreeView { active: id, ..old(self)@ }
            } else {
                old(self)@
            }),
            pane_invariant(final(self)@),
    {
        proof {
            use_type_invariant(&*self);
            law_valid_tree_keeps_invariant(self@);
        }
        if self.contains(id) {
            self.active_id = id;
            proof {
                use_type_invariant(&*self);
                law_valid_tree_keeps_invariant(self@);
            }
            true
        } else {
            false
        }
    }

    pub fn contains(&self, id: PaneId) -> (r: bool)
        ensures
            r == self@.root.has_pane(id),
    {
        node::contains(&self.root, id)
    }

    /// The title of the pane, if the tree holds it.
    pub fn title(&self, id: PaneId) -> (r: Option<&str>)
        ensures
            r is Some <==> self@.root.has_pane(id),
            r matches Some(t) ==> t@ == self@.root.title_of(id).unwrap(),
    {
        proof {
            lemma_title_of_some(self@.root, id);
        }
        node::title_in(&self.root, id)
    }

    /// Number of terminal panes.
    pub fn leaf_count(&self) -> (r: usize)
        ensures
            r == self@.root.leaf_count(),
    {
        node::count_leaves(&self.root)
    }

    /// True if the tree is a single pane with no splits.
    pub fn is_single(&self) -> (r: bool)
        ensures
            r == self@.root.is_leaf(),
    {
        self.root.is_terminal()
    }

    /// The root node, for building widgets.
    pub fn root(&self) -> (r: &PaneNode)
        ensures
            r@ == self@.root,
    {
        &self.root
    }

    /// Whether [`split_active`](Self::split_active) has ids left to hand out.
    pub fn can_split(&self) -> (r: bool)
        ensures
            r == self@.can_split(),
    {
        self.next_id < u64::MAX && self.next_split_id < u64::MAX
    }

    /// Splits the active pane: it becomes the first child of a new split and
    /// a new pane, the second child, becomes active. Returns the new pane.
    pub fn split_active(&mut self, orientation: Orientation) -> (r: PaneId)
        requires
            old(self)@.can_split(),
        ensures
            r == PaneId(old(self)@.next_pane),
            final(self)@ == split_tree(old(self)@, orientation),
            pane_invariant(final(self)@),
    {
        proof {
            use_type_invariant(&*self);
        }
        let mut taken = PaneTree::new();
        std::mem::swap(&mut taken, self);
        proof {
            use_type_invariant(&taken);
        }
        let PaneTree { mut root, active_id, next_id, next_split_id } = taken;
        let new_id = PaneId::new(next_id);
        let split_id = SplitId::new(next_split_id);
        let ghost before = root@;
        node::split_node(&mut root, active_id, split_id, orientation, new_id);
        proof {
            lemma_split_leaf(before, active_id, split_id, orientation, new_id);
            assert forall|p: PaneId| #[trigger] root@.has_pane(p) implies p.0 < next_id + 1 by {
                lemma_split_leaf_panes(before, active_id, split_id, orientation, new_id, p);
            }
            assert forall|s: SplitId| #[trigger] root@.has_split(s) implies s.0 < next_split_id
                + 1 by {
                lemma_split_leaf_splits(before, active_id, split_id, orientation, new_id, s);
            }
            lemma_split_leaf_panes(before, active_id, split_id, orientation, new_id, new_id);
        }
        *self = PaneTree {
            root,
            active_id: new_id,
            next_id: next_id + 1,
            next_split_id: next_split_id + 1,
        };
        proof {
            use_type_invariant(&*self);
            law_valid_tree_keeps_invariant(self@);
        }
        new_id
    }

    /// Closes the active pane; see [`close`](Self::close).
    pub fn close_active(&mut self) -> (r: Option<PaneId>)
        ensures
            r == close_result(old(self)@, old(self)@.active),
            final(self)@ == closed_tree(old(self)@, old(self)@.active),
            pane_invariant(final(self)@),
    {
        let id = self.active_id;
        self.close(id)
    }

    /// Closes a pane. A single pane is never closed (`None`, the caller
    /// closes the tab), nor is a pane the tree does not hold. Otherwise the
    /// split that holds the pane is replaced by its other child; closing the
    /// active pane focuses the first pane of that child, closing another
    /// pane keeps the focus. Returns the pane focused afterwards.
    pub fn close(&mut self, id: PaneId) -> (r: Option<PaneId>)
        ensures
            r == close_result(old(self)@, id),
            final(self)@ == closed_tree(old(self)@, id),
            pane_invariant(final(self)@),
    {
        proof {
            use_type_invariant(&*self);
            law_valid_tree_keeps_invariant(self@);
        }
        if self.is_single() || !self.contains(id) {
            return None;
        }
        let mut taken = PaneTree::new();
        std::mem::swap(&mut taken, self);
        proof {
            use_type_invariant(&taken);
        }
        let PaneTree { root, active_id, next_id, next_split_id } = taken;
        let ghost before = root@;
        let previous_active = active_id;
        let (new_root, new_active) = node::close_node(root, id);
        let active_id = if id == previous_active {
            new_active
        } else {
            previous_active
        };
        proof {
            lemma_close_leaf(before, id);
            lemma_close_leaf_panes(before, id, previous_active);
            assert forall|p: PaneId| #[trigger] new_root@.has_pane(p) implies p.0 < next_id by {
                lemma_close_leaf_panes(before, id, p);
            }
            assert forall|s: SplitId| #[trigger] new_root@.has_split(s) implies s.0
                < next_split_id by {
                lemma_close_leaf_splits(before, id, s);
            }
        }
        *self = PaneTree { root: new_root, active_id, next_id, next_split_id };
        proof {
            use_type_invariant(&*self);
            law_valid_tree_keeps_invariant(self@);
        }
        Some(active_id)
    }

    /// Moves the focus in the direction; returns whether it moved.
    pub fn move_focus(&mut self, direction: Direction) -> (r: bool)
        ensures
            r == old(self)@.root.neighbor(old(self)@.active, direction) is Some,
            final(self)@ == moved_tree(old(self)@, direction),
            pane_invariant(final(self)@),
    {
        proof {
            use_type_invariant(&*self);
            law_valid_tree_keeps_invariant(self@);
            lemma_neighbor_in_tree(self@.root, self.active_id, direction);
        }
        match navigation::find_neighbor(&self.root, self.active_id, direction) {
            Some(new_id) => {
                self.active_id = new_id;
                proof {
                    use_type_invariant(&*self);
                    law_valid_tree_keeps_invariant(self@);
                }
                true
            },
            None => false,
        }
    }

    /// Gives the pane the title (nothing happens if the tree lacks it).
    pub fn set_title(&mut self, id: PaneId, title: String)
        ensures
            final(self)@ == titled_tree(old(self)@, id, title@),
            pane_invariant(final(self)@),
    {
        proof {
            use_type_invariant(&*self);
        }
        let mut taken = PaneTree::new();
        std::mem::swap(&mut taken, self);
        proof {
            use_type_invariant(&taken);
        }
        let PaneTree { mut root, active_id, next_id, next_split_id } = taken;
        let ghost before = root@;
        node::set_title_in(&mut root, id, title);
        proof {
            lemma_with_title(before, id, title@);
            assert forall|p: PaneId| #[trigger] root@.has_pane(p) == before.has_pane(p) by {
                lemma_with_title_ids(before, id, title@, p, SplitId(0));
            }
            assert forall|s: SplitId| #[trigger] root@.has_split(s) == before.has_split(s) by {
                lemma_with_title_ids(before, id, title@, id, s);
            }
        }
        *self = PaneTree { root, active_id, next_id, next_split_id };
        proof {
            use_type_invariant(&*self);
            law_valid_tree_keeps_invariant(self@);
        }
    }

    /// All pane ids, left to right.
    pub fn pane_ids(&self) -> (r: Vec<PaneId>)
        ensures
            r@ == self@.root.pane_ids(),
    {
        let mut ids = Vec::new();
        node::collect_ids(&self.root, &mut ids);
        ids
    }

    /// Sets a split ratio, clamped into the supported range. Non-finite
    /// ratios are rejected. Returns whether the split was found and set.
    pub fn set_split_ratio(&mut self, id: SplitId, ratio: u64) -> (r: bool)
        ensures
            r == (ratio_is_finite(ratio) && old(self)@.root.has_split(id)),
            final(self)@ == resized_tree(old(self)@, id, ratio),
            pane_invariant(final(self)@),
    {
        proof {
            use_type_invariant(&*self);
            law_valid_tree_keeps_invariant(self@);
        }
        if !is_finite_ratio(ratio) {
            return false;
        }
        let clamped = clamp_ratio(ratio);
        let mut taken = PaneTree::new();
        std::mem::swap(&mut taken, self);
        proof {
            use_type_invariant(&taken);
        }
        let PaneTree { mut root, active_id, next_id, next_split_id } = taken;
        let ghost before = root@;
        let found = node::set_split_ratio_in(&mut root, id, clamped);
        proof {
            lemma_with_ratio(before, id, clamped);
            assert forall|p: PaneId| #[trigger] root@.has_pane(p) == before.has_pane(p) by {
                lemma_with_ratio_ids(before, id, clamped, p, id);
            }
            assert forall|s: SplitId| #[trigger] root@.has_split(s) == before.has_split(s) by {
                lemma_with_ratio_ids(before, id, clamped, PaneId(0), s);
            }
        }
        *self = PaneTree { root, active_id, next_id, next_split_id };
        proof {
            use_type_invariant(&*self);
            law_valid_tree_keeps_invariant(self@);
        }
        found
    }
}

/// The tree of a new tab: one pane, id 0, with the default title.
pub open spec fn initial_tree() -> PaneTreeView {
    PaneTreeView {
        root: PaneModel::Leaf { id: PaneId(0), title: default_title() },
        active: PaneId(0),
        next_pane: 1,
        next_split: 0,
    }
}

/// The tree restored from persisted nodes, if they are acceptable (see
/// [`PaneTree::from_root`]).
pub open spec fn restored_tree(root: PaneModel) -> Option<PaneTreeView> {
    if root.ids_unique() && root.ratios_supported() && root.max_pane() < u64::MAX && (
    root.max_split() matches Some(m) ==> m < u64::MAX) {
        Some(
            PaneTreeView {
                root,
                active: root.first_leaf(),
                next_pane: (root.max_pane() + 1) as u64,
                next_split: match root.max_split() {
                    Some(m) => (m + 1) as u64,
                    None => 0,
                },
            },
        )
    } else {
        None
    }
}

/// The tree after splitting the active pane (see [`PaneTree::split_active`]).
pub open spec fn split_tree(t: PaneTreeView, orientation: Orientation) -> PaneTreeView {
    PaneTreeView {
        root: t.root.split_leaf(t.active, SplitId(t.next_split), orientation, PaneId(t.next_pane)),
        active: PaneId(t.next_pane),
        next_pane: (t.next_pane + 1) as u64,
        next_split: (t.next_split + 1) as u64,
    }
}

/// The tree after a focus move (see [`PaneTree::move_focus`]).
pub open spec fn moved_tree(t: PaneTreeView, direction: Direction) -> PaneTreeView {
    match t.root.neighbor(t.active, direction) {
        Some(p) => PaneTreeView { active: p, ..t },
        None => t,
    }
}

/// The tree after retitling a pane (see [`PaneTree::set_title`]).
pub open spec fn titled_tree(t: PaneTreeView, id: PaneId, title: Seq<char>) -> PaneTreeView {
    PaneTreeView { root: t.root.with_title(id, title), ..t }
}

/// The tree after setting a split ratio (see [`PaneTree::set_split_ratio`]).
pub open spec fn resized_tree(t: PaneTreeView, id: SplitId, ratio: u64) -> PaneTreeView {
    if ratio_is_finite(ratio) {
        PaneTreeView { root: t.root.with_ratio(id, clamped_ratio(ratio)), ..t }
    } else {
        t
    }
}

/// What closing `id` returns (see [`PaneTree::close`]).
pub open spec fn close_result(t: PaneTreeView, id: PaneId) -> Option<PaneId> {
    if t.root.is_leaf() || !t.root.has_pane(id) {
        None
    } else if id == t.active {
        Some(t.root.close_leaf(id).1)
    } else {
        Some(t.active)
    }
}

/// The tree after closing `id` (see [`PaneTree::close`]).
pub open spec fn closed_tree(t: PaneTreeView, id: PaneId) -> PaneTreeView {
    if t.root.is_leaf() || !t.root.has_pane(id) {
        t
    } else {
        PaneTreeView {
            root: t.root.close_leaf(id).0,
            active: close_result(t, id).unwrap(),
            ..t
        }
    }
}

} // verus!

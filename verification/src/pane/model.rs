//! Mathematical model of a pane tree.
//!
//! A [`PaneModel`] is what a pane node denotes: the same binary tree with
//! titles taken as character sequences. Every operation on the tree is
//! stated here as a function on models.
use vstd::prelude::*;

use super::ids::{Direction, Orientation, PaneId, SplitId};
use super::ratio::{ratio_in_range, ratio_is_finite, HALF_RATIO};

verus! {

#[allow(inconsistent_fields)]
pub enum PaneModel {
    Leaf { id: PaneId, title: Seq<char> },
    Split {
        id: SplitId,
        orientation: Orientation,
        ratio: u64,
        first: Box<PaneModel>,
        second: Box<PaneModel>,
    },
}

/// The title that a freshly created pane carries.
pub open spec fn default_title() -> Seq<char> {
    seq!['I', 'V']
}

impl PaneModel {
    pub open spec fn is_leaf(self) -> bool {
        self is Leaf
    }

    /// The tree holds a terminal pane with this id.
    pub open spec fn has_pane(self, id: PaneId) -> bool
        decreases self,
    {
        match self {
            PaneModel::Leaf { id: leaf, .. } => leaf == id,
            PaneModel::Split { first, second, .. } => first.has_pane(id) || second.has_pane(id),
        }
    }

    /// The tree holds a split with this id.
    pub open spec fn has_split(self, id: SplitId) -> bool
        decreases self,
    {
        match self {
            PaneModel::Leaf { .. } => false,
            PaneModel::Split { id: split, first, second, .. } => split == id || first.has_split(id)
                || second.has_split(id),
        }
    }

    /// The pane ids from left to right (first child before second).
    pub open spec fn pane_ids(self) -> Seq<PaneId>
        decreases self,
    {
        match self {
            PaneModel::Leaf { id, .. } => seq![id],
            PaneModel::Split { first, second, .. } => first.pane_ids() + second.pane_ids(),
        }
    }

    /// The split ids in pre-order (a split before its children).
    pub open spec fn split_ids(self) -> Seq<SplitId>
        decreases self,
    {
        match self {
            PaneModel::Leaf { .. } => Seq::empty(),
            PaneModel::Split { id, first, second, .. } => seq![id] + first.split_ids()
                + second.split_ids(),
        }
    }

    pub open spec fn leaf_count(self) -> nat
        decreases self,
    {
        match self {
            PaneModel::Leaf { .. } => 1,
            PaneModel::Split { first, second, .. } => first.leaf_count() + second.leaf_count(),
        }
    }

    /// The left-most (and top-most) pane.
    pub open spec fn first_leaf(self) -> PaneId
        decreases self,
    {
        match self {
            PaneModel::Leaf { id, .. } => id,
            PaneModel::Split { first, .. } => first.first_leaf(),
        }
    }

    /// The right-most (and bottom-most) pane.
    pub open spec fn last_leaf(self) -> PaneId
        decreases self,
    {
        match self {
            PaneModel::Leaf { id, .. } => id,
            PaneModel::Split { second, .. } => second.last_leaf(),
        }
    }

    /// No pane id and no split id occurs twice.
    pub open spec fn ids_unique(self) -> bool
        decreases self,
    {
        match self {
            PaneModel::Leaf { .. } => true,
            PaneModel::Split { id, first, second, .. } => {
                &&& first.ids_unique()
                &&& second.ids_unique()
                &&& !first.has_split(id)
                &&& !second.has_split(id)
                &&& forall|p: PaneId| first.has_pane(p) ==> !second.has_pane(p)
                &&& forall|s: SplitId| first.has_split(s) ==> !second.has_split(s)
            },
        }
    }

    /// Every split ratio is finite and within the supported range.
    pub open spec fn ratios_supported(self) -> bool
        decreases self,
    {
        match self {
            PaneModel::Leaf { .. } => true,
            PaneModel::Split { ratio, first, second, .. } => ratio_is_finite(ratio)
                && ratio_in_range(ratio) && first.ratios_supported() && second.ratios_supported(),
        }
    }

    /// The subtree can be restored next to panes and splits that already
    /// carry the given ids: its own ids are unique and none of them is
    /// taken, and every ratio is supported.
    pub open spec fn restorable(self, panes: Seq<PaneId>, splits: Seq<SplitId>) -> bool {
        &&& self.ids_unique()
        &&& self.ratios_supported()
        &&& forall|p: PaneId| self.has_pane(p) ==> !panes.contains(p)
        &&& forall|s: SplitId| self.has_split(s) ==> !splits.contains(s)
    }

    /// The largest pane id.
    pub open spec fn max_pane(self) -> u64
        decreases self,
    {
        match self {
            PaneModel::Leaf { id, .. } => id.0,
            PaneModel::Split { first, second, .. } => {
                let a = first.max_pane();
                let b = second.max_pane();
                if a < b {
                    b
                } else {
                    a
                }
            },
        }
    }

    /// The largest split id, if the tree has a split.
    pub open spec fn max_split(self) -> Option<u64>
        decreases self,
    {
        match self {
            PaneModel::Leaf { .. } => None,
            PaneModel::Split { id, first, second, .. } => {
                let a = larger(Some(id.0), first.max_split());
                Some(larger(a, second.max_split()).unwrap())
            },
        }
    }

    /// The title of the first pane (left to right) with this id.
    pub open spec fn title_of(self, id: PaneId) -> Option<Seq<char>>
        decreases self,
    {
        match self {
            PaneModel::Leaf { id: leaf, title } => if leaf == id {
                Some(title)
            } else {
                None
            },
            PaneModel::Split { first, second, .. } => match first.title_of(id) {
                Some(t) => Some(t),
                None => second.title_of(id),
            },
        }
    }

    /// Every pane with this id gets the title.
    pub open spec fn with_title(self, id: PaneId, title: Seq<char>) -> PaneModel
        decreases self,
    {
        match self {
            PaneModel::Leaf { id: leaf, title: old } => if leaf == id {
                PaneModel::Leaf { id: leaf, title }
            } else {
                self
            },
            PaneModel::Split { id: split, orientation, ratio, first, second } => PaneModel::Split {
                id: split,
                orientation,
                ratio,
                first: Box::new(first.with_title(id, title)),
                second: Box::new(second.with_title(id, title)),
            },
        }
    }

    /// The first split (pre-order) with this id gets the ratio.
    pub open spec fn with_ratio(self, id: SplitId, ratio: u64) -> PaneModel
        decreases self,
    {
        match self {
            PaneModel::Leaf { .. } => self,
            PaneModel::Split { id: split, orientation, ratio: old, first, second } => if split
                == id {
                PaneModel::Split { id: split, orientation, ratio, first, second }
            } else if first.has_split(id) {
                PaneModel::Split {
                    id: split,
                    orientation,
                    ratio: old,
                    first: Box::new(first.with_ratio(id, ratio)),
                    second,
                }
            } else {
                PaneModel::Split {
                    id: split,
                    orientation,
                    ratio: old,
                    first,
                    second: Box::new(second.with_ratio(id, ratio)),
                }
            },
        }
    }

    /// The pane `target` becomes a split (with id `split`, ratio one half)
    /// whose first child is the pane and whose second child is a new pane
    /// `new_pane` with the default title. The first matching pane (left to
    /// right) is split; without one the tree is unchanged.
    pub open spec fn split_leaf(
        self,
        target: PaneId,
        split: SplitId,
        orientation: Orientation,
        new_pane: PaneId,
    ) -> PaneModel
        decreases self,
    {
        match self {
            PaneModel::Leaf { id, .. } => if id == target {
                PaneModel::Split {
                    id: split,
                    orientation,
                    ratio: HALF_RATIO,
                    first: Box::new(self),
                    second: Box::new(PaneModel::Leaf { id: new_pane, title: default_title() }),
                }
            } else {
                self
            },
            PaneModel::Split { id, orientation: o, ratio, first, second } => if first.has_pane(
                target,
            ) {
                PaneModel::Split {
                    id,
                    orientation: o,
                    ratio,
                    first: Box::new(first.split_leaf(target, split, orientation, new_pane)),
                    second,
                }
            } else if second.has_pane(target) {
                PaneModel::Split {
                    id,
                    orientation: o,
                    ratio,
                    first,
                    second: Box::new(second.split_leaf(target, split, orientation, new_pane)),
                }
            } else {
                self
            },
        }
    }

    /// Removes the pane `target`: the split that holds it directly is
    /// replaced by its other child. Also gives the pane that takes over the
    /// focus: the first pane of that other child (`u64::MAX` when nothing
    /// was removed). A lone pane that is the target leaves a placeholder
    /// pane with id `u64::MAX` and an empty title; trees never close their
    /// last pane, so they never see it.
    pub open spec fn close_leaf(self, target: PaneId) -> (PaneModel, PaneId)
        decreases self,
    {
        match self {
            PaneModel::Leaf { id, .. } => if id == target {
                (PaneModel::Leaf { id: PaneId(u64::MAX), title: Seq::empty() }, PaneId(u64::MAX))
            } else {
                (self, PaneId(u64::MAX))
            },
            PaneModel::Split { id, orientation, ratio, first, second } => if first.has_pane(target)
                && first.is_leaf() {
                (*second, second.first_leaf())
            } else if second.has_pane(target) && second.is_leaf() {
                (*first, first.first_leaf())
            } else if first.has_pane(target) {
                let (closed, active) = first.close_leaf(target);
                (
                    PaneModel::Split {
                        id,
                        orientation,
                        ratio,
                        first: Box::new(closed),
                        second,
                    },
                    active,
                )
            } else if second.has_pane(target) {
                let (closed, active) = second.close_leaf(target);
                (
                    PaneModel::Split {
                        id,
                        orientation,
                        ratio,
                        first,
                        second: Box::new(closed),
                    },
                    active,
                )
            } else {
                (self, PaneId(u64::MAX))
            },
        }
    }

    /// The pane reached by moving the focus from `from` in `direction`:
    /// the innermost split around `from` that can be crossed in that
    /// direction decides; crossing into its first child lands on that
    /// child's last pane, crossing into its second child on its first pane.
    pub open spec fn neighbor(self, from: PaneId, direction: Direction) -> Option<PaneId>
        decreases self,
    {
        match self {
            PaneModel::Leaf { .. } => None,
            PaneModel::Split { orientation, first, second, .. } => {
                let in_first = first.neighbor(from, direction);
                let in_second = second.neighbor(from, direction);
                if in_first is Some {
                    in_first
                } else if in_second is Some {
                    in_second
                } else if orientation == Orientation::Horizontal && direction == Direction::Left
                    && second.has_pane(from) {
                    Some(first.last_leaf())
                } else if orientation == Orientation::Horizontal && direction == Direction::Right
                    && first.has_pane(from) {
                    Some(second.first_leaf())
                } else if orientation == Orientation::Vertical && direction == Direction::Up
                    && second.has_pane(from) {
                    Some(first.last_leaf())
                } else if orientation == Orientation::Vertical && direction == Direction::Down
                    && first.has_pane(from) {
                    Some(second.first_leaf())
                } else {
                    None
                }
            },
        }
    }
}

/// The larger of two optional ids (`None` below everything).
pub open spec fn larger(a: Option<u64>, b: Option<u64>) -> Option<u64> {
    match (a, b) {
        (None, _) => b,
        (_, None) => a,
        (Some(x), Some(y)) => if x < y {
            Some(y)
        } else {
            Some(x)
        },
    }
}

/// There are as many pane ids as panes.
pub proof fn lemma_pane_ids_len(m: PaneModel)
    ensures
        m.pane_ids().len() == m.leaf_count(),
    decreases m,
{
    match m {
        PaneModel::Leaf { .. } => {},
        PaneModel::Split { first, second, .. } => {
            lemma_pane_ids_len(*first);
            lemma_pane_ids_len(*second);
        },
    }
}

/// A pane is in the tree exactly when its id is among the pane ids.
pub proof fn lemma_pane_ids_contains(m: PaneModel, id: PaneId)
    ensures
        m.pane_ids().contains(id) == m.has_pane(id),
    decreases m,
{
    match m {
        PaneModel::Leaf { id: leaf, .. } => {
            assert(m.pane_ids()[0] == leaf);
        },
        PaneModel::Split { first, second, .. } => {
            lemma_pane_ids_contains(*first, id);
            lemma_pane_ids_contains(*second, id);
            lemma_concat_contains(first.pane_ids(), second.pane_ids(), id);
        },
    }
}

/// A split is in the tree exactly when its id is among the split ids.
pub proof fn lemma_split_ids_contains(m: PaneModel, id: SplitId)
    ensures
        m.split_ids().contains(id) == m.has_split(id),
    decreases m,
{
    match m {
        PaneModel::Leaf { .. } => {},
        PaneModel::Split { id: split, first, second, .. } => {
            lemma_split_ids_contains(*first, id);
            lemma_split_ids_contains(*second, id);
            lemma_concat_contains(first.split_ids(), second.split_ids(), id);
            lemma_concat_contains(seq![split], first.split_ids() + second.split_ids(), id);
            assert(seq![split] + first.split_ids() + second.split_ids() == seq![split] + (
            first.split_ids() + second.split_ids()));
            assert(seq![split][0] == split);
        },
    }
}

pub proof fn lemma_concat_contains<A>(a: Seq<A>, b: Seq<A>, x: A)
    ensures
        (a + b).contains(x) == (a.contains(x) || b.contains(x)),
{
    if a.contains(x) {
        let i = choose|i: int| 0 <= i < a.len() && a[i] == x;
        assert((a + b)[i] == x);
    }
    if b.contains(x) {
        let i = choose|i: int| 0 <= i < b.len() && b[i] == x;
        assert((a + b)[a.len() + i] == x);
    }
    if (a + b).contains(x) {
        let i = choose|i: int| 0 <= i < (a + b).len() && (a + b)[i] == x;
        if i < a.len() {
            assert(a[i] == x);
        } else {
            assert(b[i - a.len()] == x);
        }
    }
}

/// Setting the ratio of a split that is not there changes nothing.
pub proof fn lemma_with_ratio_absent(m: PaneModel, id: SplitId, ratio: u64)
    requires
        !m.has_split(id),
    ensures
        m.with_ratio(id, ratio) == m,
    decreases m,
{
    match m {
        PaneModel::Leaf { .. } => {},
        PaneModel::Split { second, .. } => {
            lemma_with_ratio_absent(*second, id, ratio);
        },
    }
}

/// How restorability of a split follows from that of its children, with
/// the ids of the first child recorded before the second is checked.
pub proof fn lemma_restorable_split(m: PaneModel, panes: Seq<PaneId>, splits: Seq<SplitId>)
    requires
        m is Split,
    ensures
        ({
            let first = *m->first;
            let second = *m->second;
            let splits1 = splits.push(m->Split_id);
            m.restorable(panes, splits) <==> {
                &&& !splits.contains(m->Split_id)
                &&& ratio_is_finite(m->ratio) && ratio_in_range(m->ratio)
                &&& first.restorable(panes, splits1)
                &&& second.restorable(panes + first.pane_ids(), splits1 + first.split_ids())
            }
        }),
{
    let first = *m->first;
    let second = *m->second;
    let id = m->Split_id;
    let splits1 = splits.push(id);
    assert forall|p: PaneId| #![auto] (panes + first.pane_ids()).contains(p) == (panes.contains(p)
        || first.has_pane(p)) by {
        lemma_concat_contains(panes, first.pane_ids(), p);
        lemma_pane_ids_contains(first, p);
    }
    assert forall|s: SplitId| #![auto] (splits1 + first.split_ids()).contains(s) == (
    splits.contains(s) || s == id || first.has_split(s)) by {
        lemma_concat_contains(splits1, first.split_ids(), s);
        lemma_concat_contains(splits, seq![id], s);
        assert(splits1 == splits + seq![id]);
        assert(seq![id][0] == id);
        lemma_split_ids_contains(first, s);
    }
    assert forall|s: SplitId| #![auto] splits1.contains(s) == (splits.contains(s) || s == id) by {
        lemma_concat_contains(splits, seq![id], s);
        assert(splits1 == splits + seq![id]);
        assert(seq![id][0] == id);
    }
}

/// The first and the last pane belong to the tree.
pub proof fn lemma_extreme_leaves(m: PaneModel)
    ensures
        m.has_pane(m.first_leaf()),
        m.has_pane(m.last_leaf()),
    decreases m,
{
    match m {
        PaneModel::Leaf { .. } => {},
        PaneModel::Split { first, second, .. } => {
            lemma_extreme_leaves(*first);
            lemma_extreme_leaves(*second);
        },
    }
}

/// A neighbour exists only for a pane of the tree, and it is a pane of the
/// tree; with unique ids it is another pane than the one the move started
/// from.
pub proof fn lemma_neighbor_in_tree(m: PaneModel, from: PaneId, direction: Direction)
    ensures
        m.neighbor(from, direction) is Some ==> m.has_pane(from),
        m.neighbor(from, direction) is Some ==> m.has_pane(m.neighbor(from, direction).unwrap()),
        m.ids_unique() && m.neighbor(from, direction) is Some ==> m.neighbor(from, direction).unwrap()
            != from,
    decreases m,
{
    match m {
        PaneModel::Leaf { .. } => {},
        PaneModel::Split { first, second, .. } => {
            lemma_neighbor_in_tree(*first, from, direction);
            lemma_neighbor_in_tree(*second, from, direction);
            lemma_extreme_leaves(*first);
            lemma_extreme_leaves(*second);
        },
    }
}

/// The freshly created pane of a split.
pub proof fn lemma_fresh_leaf(new_pane: PaneId)
    ensures
        ({
            let leaf = PaneModel::Leaf { id: new_pane, title: default_title() };
            &&& leaf.ids_unique()
            &&& leaf.ratios_supported()
            &&& forall|p: PaneId| #[trigger] leaf.has_pane(p) == (p == new_pane)
            &&& forall|s: SplitId| !#[trigger] leaf.has_split(s)
            &&& leaf.leaf_count() == 1
        }),
{
}

/// Splitting a pane adds the new pane and nothing else.
pub proof fn lemma_split_leaf_panes(
    m: PaneModel,
    target: PaneId,
    split: SplitId,
    orientation: Orientation,
    new_pane: PaneId,
    p: PaneId,
)
    requires
        m.has_pane(target),
    ensures
        m.split_leaf(target, split, orientation, new_pane).has_pane(p) == (m.has_pane(p) || p
            == new_pane),
    decreases m,
{
    lemma_fresh_leaf(new_pane);
    match m {
        PaneModel::Leaf { .. } => {
            let r = m.split_leaf(target, split, orientation, new_pane);
            let leaf = PaneModel::Leaf { id: new_pane, title: default_title() };
            assert(*r->first == m);
            assert(*r->second == leaf);
            assert(r.has_pane(p) == (m.has_pane(p) || leaf.has_pane(p)));
        },
        PaneModel::Split { first, second, .. } => {
            if first.has_pane(target) {
                lemma_split_leaf_panes(*first, target, split, orientation, new_pane, p);
            } else {
                lemma_split_leaf_panes(*second, target, split, orientation, new_pane, p);
            }
        },
    }
}

/// Splitting a pane adds the new split and nothing else.
pub proof fn lemma_split_leaf_splits(
    m: PaneModel,
    target: PaneId,
    split: SplitId,
    orientation: Orientation,
    new_pane: PaneId,
    s: SplitId,
)
    requires
        m.has_pane(target),
    ensures
        m.split_leaf(target, split, orientation, new_pane).has_split(s) == (m.has_split(s) || s
            == split),
    decreases m,
{
    lemma_fresh_leaf(new_pane);
    match m {
        PaneModel::Leaf { .. } => {
            let r = m.split_leaf(target, split, orientation, new_pane);
            let leaf = PaneModel::Leaf { id: new_pane, title: default_title() };
            assert(*r->first == m);
            assert(*r->second == leaf);
            assert(r.has_split(s) == (r->Split_id == s || m.has_split(s) || leaf.has_split(s)));
        },
        PaneModel::Split { first, second, .. } => {
            if first.has_pane(target) {
                lemma_split_leaf_splits(*first, target, split, orientation, new_pane, s);
            } else {
                lemma_split_leaf_splits(*second, target, split, orientation, new_pane, s);
            }
        },
    }
}

/// What splitting a pane does to the ids, the ratios and the pane count.
pub proof fn lemma_split_leaf(
    m: PaneModel,
    target: PaneId,
    split: SplitId,
    orientation: Orientation,
    new_pane: PaneId,
)
    requires
        m.ids_unique(),
        m.has_pane(target),
        !m.has_pane(new_pane),
        !m.has_split(split),
    ensures
        ({
            let r = m.split_leaf(target, split, orientation, new_pane);
            &&& r.ids_unique()
            &&& m.ratios_supported() ==> r.ratios_supported()
            &&& r.leaf_count() == m.leaf_count() + 1
        }),
    decreases m,
{
    assert(ratio_is_finite(HALF_RATIO) && ratio_in_range(HALF_RATIO));
    lemma_fresh_leaf(new_pane);
    match m {
        PaneModel::Leaf { .. } => {
            let r = m.split_leaf(target, split, orientation, new_pane);
            let leaf = PaneModel::Leaf { id: new_pane, title: default_title() };
            assert(*r->first == m);
            assert(*r->second == leaf);
            assert(forall|p: PaneId| m.has_pane(p) ==> !leaf.has_pane(p));
        },
        PaneModel::Split { first, second, .. } => {
            if first.has_pane(target) {
                lemma_split_leaf(*first, target, split, orientation, new_pane);
                let f = first.split_leaf(target, split, orientation, new_pane);
                assert forall|p: PaneId| f.has_pane(p) implies !second.has_pane(p) by {
                    lemma_split_leaf_panes(*first, target, split, orientation, new_pane, p);
                }
                assert forall|s: SplitId| f.has_split(s) implies !second.has_split(s) by {
                    lemma_split_leaf_splits(*first, target, split, orientation, new_pane, s);
                }
                lemma_split_leaf_splits(*first, target, split, orientation, new_pane, m->Split_id);
            } else {
                lemma_split_leaf(*second, target, split, orientation, new_pane);
                let g = second.split_leaf(target, split, orientation, new_pane);
                assert forall|p: PaneId| first.has_pane(p) implies !g.has_pane(p) by {
                    lemma_split_leaf_panes(*second, target, split, orientation, new_pane, p);
                }
                assert forall|s: SplitId| first.has_split(s) implies !g.has_split(s) by {
                    lemma_split_leaf_splits(*second, target, split, orientation, new_pane, s);
                }
                lemma_split_leaf_splits(*second, target, split, orientation, new_pane, m->Split_id);
            }
        },
    }
}

/// Closing a pane removes exactly that pane (ids unique).
pub proof fn lemma_close_leaf_panes(m: PaneModel, target: PaneId, p: PaneId)
    requires
        m is Split,
        m.ids_unique(),
        m.has_pane(target),
    ensures
        m.close_leaf(target).0.has_pane(p) == (m.has_pane(p) && p != target),
    decreases m,
{
    match m {
        PaneModel::Leaf { .. } => {},
        PaneModel::Split { first, second, .. } => {
            if first.has_pane(target) && first.is_leaf() {
                assert(first.has_pane(p) == (p == target));
                assert(second.has_pane(p) ==> p != target);
            } else if second.has_pane(target) && second.is_leaf() {
                assert(second.has_pane(p) == (p == target));
                assert(first.has_pane(p) ==> p != target);
            } else if first.has_pane(target) {
                lemma_close_leaf_panes(*first, target, p);
                assert(second.has_pane(p) ==> p != target);
            } else {
                lemma_close_leaf_panes(*second, target, p);
                assert(first.has_pane(p) ==> p != target);
            }
        },
    }
}

/// Closing a pane adds no split.
pub proof fn lemma_close_leaf_splits(m: PaneModel, target: PaneId, s: SplitId)
    ensures
        m.close_leaf(target).0.has_split(s) ==> m.has_split(s),
    decreases m,
{
    match m {
        PaneModel::Leaf { .. } => {},
        PaneModel::Split { first, second, .. } => {
            lemma_close_leaf_splits(*first, target, s);
            lemma_close_leaf_splits(*second, target, s);
        },
    }
}

/// What closing a pane of a split tree does: the ids stay unique, the
/// ratios stay supported, one pane fewer remains, and the pane that takes
/// over the focus is in the result.
pub proof fn lemma_close_leaf(m: PaneModel, target: PaneId)
    requires
        m is Split,
        m.ids_unique(),
        m.has_pane(target),
    ensures
        ({
            let (r, active) = m.close_leaf(target);
            &&& r.ids_unique()
            &&& m.ratios_supported() ==> r.ratios_supported()
            &&& r.has_pane(active)
            &&& r.leaf_count() + 1 == m.leaf_count()
        }),
    decreases m,
{
    match m {
        PaneModel::Leaf { .. } => {},
        PaneModel::Split { first, second, .. } => {
            lemma_extreme_leaves(*first);
            lemma_extreme_leaves(*second);
            if first.has_pane(target) && first.is_leaf() {
                assert(first.leaf_count() == 1);
            } else if second.has_pane(target) && second.is_leaf() {
                assert(second.leaf_count() == 1);
            } else if first.has_pane(target) {
                lemma_close_leaf(*first, target);
                let f = first.close_leaf(target).0;
                assert forall|p: PaneId| f.has_pane(p) implies !second.has_pane(p) by {
                    lemma_close_leaf_panes(*first, target, p);
                }
                assert forall|s: SplitId| f.has_split(s) implies !second.has_split(s) by {
                    lemma_close_leaf_splits(*first, target, s);
                }
                lemma_close_leaf_splits(*first, target, m->Split_id);
            } else {
                lemma_close_leaf(*second, target);
                let g = second.close_leaf(target).0;
                assert forall|p: PaneId| first.has_pane(p) implies !g.has_pane(p) by {
                    lemma_close_leaf_panes(*second, target, p);
                }
                assert forall|s: SplitId| first.has_split(s) implies !g.has_split(s) by {
                    lemma_close_leaf_splits(*second, target, s);
                }
                lemma_close_leaf_splits(*second, target, m->Split_id);
            }
        },
    }
}

/// Retitling keeps the panes and the splits.
pub proof fn lemma_with_title_ids(m: PaneModel, id: PaneId, title: Seq<char>, p: PaneId, s: SplitId)
    ensures
        m.with_title(id, title).has_pane(p) == m.has_pane(p),
        m.with_title(id, title).has_split(s) == m.has_split(s),
    decreases m,
{
    match m {
        PaneModel::Leaf { .. } => {},
        PaneModel::Split { first, second, .. } => {
            lemma_with_title_ids(*first, id, title, p, s);
            lemma_with_title_ids(*second, id, title, p, s);
        },
    }
}

/// Retitling keeps the shape, the ids and the ratios.
pub proof fn lemma_with_title(m: PaneModel, id: PaneId, title: Seq<char>)
    ensures
        ({
            let r = m.with_title(id, title);
            &&& r.ids_unique() == m.ids_unique()
            &&& r.ratios_supported() == m.ratios_supported()
            &&& r.pane_ids() == m.pane_ids()
            &&& r.split_ids() == m.split_ids()
            &&& r.first_leaf() == m.first_leaf()
            &&& r.leaf_count() == m.leaf_count()
        }),
    decreases m,
{
    match m {
        PaneModel::Leaf { .. } => {},
        PaneModel::Split { first, second, .. } => {
            lemma_with_title(*first, id, title);
            lemma_with_title(*second, id, title);
            let f = first.with_title(id, title);
            let g = second.with_title(id, title);
            assert forall|p: PaneId| #![auto] f.has_pane(p) == first.has_pane(p) && g.has_pane(p)
                == second.has_pane(p) by {
                lemma_with_title_ids(*first, id, title, p, m->Split_id);
                lemma_with_title_ids(*second, id, title, p, m->Split_id);
            }
            assert forall|s: SplitId| #![auto] f.has_split(s) == first.has_split(s) && g.has_split(s)
                == second.has_split(s) by {
                lemma_with_title_ids(*first, id, title, id, s);
                lemma_with_title_ids(*second, id, title, id, s);
            }
        },
    }
}

/// A retitled pane reads back the new title; every other pane keeps its own.
pub proof fn lemma_with_title_read(m: PaneModel, id: PaneId, title: Seq<char>, p: PaneId)
    ensures
        m.with_title(id, title).title_of(p) == (if p == id {
            if m.has_pane(id) {
                Some(title)
            } else {
                None
            }
        } else {
            m.title_of(p)
        }),
    decreases m,
{
    match m {
        PaneModel::Leaf { .. } => {},
        PaneModel::Split { first, second, .. } => {
            lemma_with_title_read(*first, id, title, p);
            lemma_with_title_read(*second, id, title, p);
            lemma_title_of_some(*first, p);
        },
    }
}

/// A pane has a title exactly when it is in the tree.
pub proof fn lemma_title_of_some(m: PaneModel, p: PaneId)
    ensures
        m.title_of(p) is Some == m.has_pane(p),
    decreases m,
{
    match m {
        PaneModel::Leaf { .. } => {},
        PaneModel::Split { first, second, .. } => {
            lemma_title_of_some(*first, p);
            lemma_title_of_some(*second, p);
        },
    }
}

/// Setting a ratio keeps the panes and the splits.
pub proof fn lemma_with_ratio_ids(m: PaneModel, id: SplitId, ratio: u64, p: PaneId, s: SplitId)
    ensures
        m.with_ratio(id, ratio).has_pane(p) == m.has_pane(p),
        m.with_ratio(id, ratio).has_split(s) == m.has_split(s),
    decreases m,
{
    match m {
        PaneModel::Leaf { .. } => {},
        PaneModel::Split { first, second, .. } => {
            lemma_with_ratio_ids(*first, id, ratio, p, s);
            lemma_with_ratio_ids(*second, id, ratio, p, s);
        },
    }
}

/// Setting a split ratio keeps the shape and the ids; the ratios stay
/// supported when the new one is.
pub proof fn lemma_with_ratio(m: PaneModel, id: SplitId, ratio: u64)
    ensures
        ({
            let r = m.with_ratio(id, ratio);
            &&& r.ids_unique() == m.ids_unique()
            &&& m.ratios_supported() && ratio_is_finite(ratio) && ratio_in_range(ratio)
                ==> r.ratios_supported()
            &&& r.pane_ids() == m.pane_ids()
            &&& r.first_leaf() == m.first_leaf()
            &&& r.leaf_count() == m.leaf_count()
        }),
    decreases m,
{
    match m {
        PaneModel::Leaf { .. } => {},
        PaneModel::Split { first, second, .. } => {
            lemma_with_ratio(*first, id, ratio);
            lemma_with_ratio(*second, id, ratio);
            let f = first.with_ratio(id, ratio);
            let g = second.with_ratio(id, ratio);
            assert forall|p: PaneId| #![auto] f.has_pane(p) == first.has_pane(p) && g.has_pane(p)
                == second.has_pane(p) by {
                lemma_with_ratio_ids(*first, id, ratio, p, id);
                lemma_with_ratio_ids(*second, id, ratio, p, id);
            }
            assert forall|s: SplitId| #![auto] f.has_split(s) == first.has_split(s) && g.has_split(s)
                == second.has_split(s) by {
                lemma_with_ratio_ids(*first, id, ratio, PaneId(0), s);
                lemma_with_ratio_ids(*second, id, ratio, PaneId(0), s);
            }
        },
    }
}

/// The largest pane id bounds every pane id.
pub proof fn lemma_max_pane_bound(m: PaneModel, p: PaneId)
    ensures
        m.has_pane(p) ==> p.0 <= m.max_pane(),
    decreases m,
{
    match m {
        PaneModel::Leaf { .. } => {},
        PaneModel::Split { first, second, .. } => {
            lemma_max_pane_bound(*first, p);
            lemma_max_pane_bound(*second, p);
        },
    }
}

/// The largest split id bounds every split id.
pub proof fn lemma_max_split_bound(m: PaneModel, s: SplitId)
    ensures
        m.has_split(s) ==> (m.max_split() matches Some(x) && s.0 <= x),
    decreases m,
{
    match m {
        PaneModel::Leaf { .. } => {},
        PaneModel::Split { first, second, .. } => {
            lemma_max_split_bound(*first, s);
            lemma_max_split_bound(*second, s);
        },
    }
}

/// The largest pane id is the id of a pane.
pub proof fn lemma_max_pane_member(m: PaneModel)
    ensures
        m.has_pane(PaneId(m.max_pane())),
    decreases m,
{
    match m {
        PaneModel::Leaf { .. } => {},
        PaneModel::Split { first, second, .. } => {
            lemma_max_pane_member(*first);
            lemma_max_pane_member(*second);
        },
    }
}

/// The largest split id, when there is one, is the id of a split.
pub proof fn lemma_max_split_member(m: PaneModel)
    ensures
        m.max_split() matches Some(x) ==> m.has_split(SplitId(x)),
        m.max_split() is None == m.is_leaf(),
    decreases m,
{
    match m {
        PaneModel::Leaf { .. } => {},
        PaneModel::Split { first, second, .. } => {
            lemma_max_split_member(*first);
            lemma_max_split_member(*second);
        },
    }
}

} // verus!

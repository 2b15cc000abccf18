//! Laws of the pane tree.
use vstd::prelude::*;

use super::ids::{Direction, Orientation, PaneId, SplitId};
use super::model::{
    lemma_close_leaf, lemma_close_leaf_panes, lemma_concat_contains, lemma_close_leaf_splits, lemma_extreme_leaves,
    lemma_max_pane_bound, lemma_max_pane_member, lemma_max_split_bound, lemma_max_split_member,
    lemma_neighbor_in_tree, lemma_pane_ids_contains, lemma_pane_ids_len, lemma_split_leaf,
    lemma_split_ids_contains, lemma_split_leaf_panes, lemma_split_leaf_splits, lemma_with_ratio,
    lemma_with_ratio_ids, lemma_with_title, lemma_with_title_ids, lemma_with_title_read,
    PaneModel,
};
use super::tree::{
    close_result, closed_tree, initial_tree, moved_tree, resized_tree, restored_tree, split_tree,
    titled_tree, PaneTreeView,
};

verus! {

/// Splitting keeps the tree valid and adds exactly one pane, a fresh one
/// that takes the focus; the number of panes grows by one.
pub proof fn law_split_adds_fresh_pane(t: PaneTreeView, orientation: Orientation)
    requires
        t.well_formed(),
        t.can_split(),
    ensures
        ({
            let r = split_tree(t, orientation);
            &&& r.well_formed()
            &&& r.active == PaneId(t.next_pane)
            &&& !t.root.has_pane(r.active)
            &&& forall|p: PaneId| #[trigger] r.root.has_pane(p) == (t.root.has_pane(p) || p
                == r.active)
            &&& r.root.leaf_count() == t.root.leaf_count() + 1
        }),
{
    let r = split_tree(t, orientation);
    let new_pane = PaneId(t.next_pane);
    let split = SplitId(t.next_split);
    lemma_split_leaf(t.root, t.active, split, orientation, new_pane);
    assert forall|p: PaneId| #[trigger] r.root.has_pane(p) == (t.root.has_pane(p) || p
        == new_pane) by {
        lemma_split_leaf_panes(t.root, t.active, split, orientation, new_pane, p);
    }
    assert forall|s: SplitId| #[trigger] r.root.has_split(s) implies s.0 < r.next_split by {
        lemma_split_leaf_splits(t.root, t.active, split, orientation, new_pane, s);
    }
}

/// Closing a pane of a split tree keeps it valid and removes exactly that
/// pane; the focus stays where it was unless the focused pane closed, and
/// the call reports the pane focused afterwards.
pub proof fn law_close_removes_pane(t: PaneTreeView, id: PaneId)
    requires
        t.well_formed(),
        !t.root.is_leaf(),
        t.root.has_pane(id),
    ensures
        ({
            let r = closed_tree(t, id);
            &&& r.well_formed()
            &&& close_result(t, id) == Some(r.active)
            &&& forall|p: PaneId| #[trigger] r.root.has_pane(p) == (t.root.has_pane(p) && p != id)
            &&& r.root.leaf_count() + 1 == t.root.leaf_count()
            &&& id != t.active ==> r.active == t.active
        }),
{
    let r = closed_tree(t, id);
    lemma_close_leaf(t.root, id);
    lemma_close_leaf_panes(t.root, id, t.active);
    assert forall|p: PaneId| #[trigger] r.root.has_pane(p) == (t.root.has_pane(p) && p != id) by {
        lemma_close_leaf_panes(t.root, id, p);
    }
    assert forall|s: SplitId| #[trigger] r.root.has_split(s) implies s.0 < r.next_split by {
        lemma_close_leaf_splits(t.root, id, s);
    }
}

/// A single pane, or a pane the tree does not hold, is never closed: the
/// call reports nothing and the tree stays as it is.
pub proof fn law_close_refused(t: PaneTreeView, id: PaneId)
    requires
        t.root.is_leaf() || !t.root.has_pane(id),
    ensures
        close_result(t, id) is None,
        closed_tree(t, id) == t,
{
}

/// Closing the pane that a split has just created undoes the split: the
/// nodes and the focus are those from before (only the id counters moved
/// on).
pub proof fn law_close_undoes_split(t: PaneTreeView, orientation: Orientation)
    requires
        t.well_formed(),
        t.can_split(),
    ensures
        ({
            let s = split_tree(t, orientation);
            &&& close_result(s, s.active) == Some(t.active)
            &&& closed_tree(s, s.active) == PaneTreeView {
                next_pane: s.next_pane,
                next_split: s.next_split,
                ..t
            }
        }),
{
    let new_pane = PaneId(t.next_pane);
    let split = SplitId(t.next_split);
    lemma_close_after_split(t.root, t.active, split, orientation, new_pane);
    lemma_split_leaf_panes(t.root, t.active, split, orientation, new_pane, new_pane);
}

proof fn lemma_close_after_split(
    m: PaneModel,
    target: PaneId,
    split: SplitId,
    orientation: Orientation,
    new_pane: PaneId,
)
    requires
        m.has_pane(target),
        !m.has_pane(new_pane),
    ensures
        m.split_leaf(target, split, orientation, new_pane).close_leaf(new_pane) == (m, target),
        !m.split_leaf(target, split, orientation, new_pane).is_leaf(),
    decreases m,
{
    match m {
        PaneModel::Leaf { .. } => {
            let s = m.split_leaf(target, split, orientation, new_pane);
            assert(!s->first.has_pane(new_pane));
            assert(s->second.has_pane(new_pane));
        },
        PaneModel::Split { first, second, .. } => {
            if first.has_pane(target) {
                lemma_close_after_split(*first, target, split, orientation, new_pane);
                lemma_split_leaf_panes(*first, target, split, orientation, new_pane, new_pane);
            } else {
                lemma_close_after_split(*second, target, split, orientation, new_pane);
                lemma_split_leaf_panes(*second, target, split, orientation, new_pane, new_pane);
            }
        },
    }
}

/// Moving the focus keeps the tree valid; when the focus moves, it lands
/// on another pane of the tree.
pub proof fn law_focus_move_lands_in_tree(t: PaneTreeView, direction: Direction)
    requires
        t.well_formed(),
    ensures
        moved_tree(t, direction).well_formed(),
        moved_tree(t, direction).root == t.root,
        t.root.neighbor(t.active, direction) is Some ==> moved_tree(t, direction).active != t.active,
{
    lemma_neighbor_in_tree(t.root, t.active, direction);
}

/// A single pane has no neighbour in any direction.
pub proof fn law_single_pane_has_no_neighbor(t: PaneTreeView, direction: Direction)
    requires
        t.root.is_leaf(),
    ensures
        moved_tree(t, direction) == t,
{
}

/// A retitled pane reads back the new title, every other pane keeps its
/// own, and the tree stays valid.
pub proof fn law_title_read_after_write(
    t: PaneTreeView,
    id: PaneId,
    title: Seq<char>,
    other: PaneId,
)
    requires
        t.well_formed(),
    ensures
        titled_tree(t, id, title).well_formed(),
        t.root.has_pane(id) ==> titled_tree(t, id, title).root.title_of(id) == Some(title),
        !t.root.has_pane(id) ==> titled_tree(t, id, title) == t,
        other != id ==> titled_tree(t, id, title).root.title_of(other) == t.root.title_of(other),
{
    let r = titled_tree(t, id, title);
    lemma_with_title(t.root, id, title);
    lemma_with_title_read(t.root, id, title, id);
    lemma_with_title_read(t.root, id, title, other);
    assert forall|p: PaneId| #[trigger] r.root.has_pane(p) == t.root.has_pane(p) by {
        lemma_with_title_ids(t.root, id, title, p, SplitId(0));
    }
    assert forall|s: SplitId| #[trigger] r.root.has_split(s) == t.root.has_split(s) by {
        lemma_with_title_ids(t.root, id, title, id, s);
    }
    if !t.root.has_pane(id) {
        lemma_with_title_absent(t.root, id, title);
    }
}

proof fn lemma_with_title_absent(m: PaneModel, id: PaneId, title: Seq<char>)
    requires
        !m.has_pane(id),
    ensures
        m.with_title(id, title) == m,
    decreases m,
{
    match m {
        PaneModel::Leaf { .. } => {},
        PaneModel::Split { first, second, .. } => {
            lemma_with_title_absent(*first, id, title);
            lemma_with_title_absent(*second, id, title);
        },
    }
}

/// Resizing a split keeps the tree valid and its panes in place.
pub proof fn law_resize_keeps_tree_valid(t: PaneTreeView, id: SplitId, ratio: u64)
    requires
        t.well_formed(),
    ensures
        resized_tree(t, id, ratio).well_formed(),
        resized_tree(t, id, ratio).root.pane_ids() == t.root.pane_ids(),
        resized_tree(t, id, ratio).active == t.active,
{
    let r = resized_tree(t, id, ratio);
    let c = super::ratio::clamped_ratio(ratio);
    lemma_with_ratio(t.root, id, c);
    assert forall|p: PaneId| #[trigger] r.root.has_pane(p) == t.root.has_pane(p) by {
        lemma_with_ratio_ids(t.root, id, c, p, id);
    }
    assert forall|s: SplitId| #[trigger] r.root.has_split(s) == t.root.has_split(s) by {
        lemma_with_ratio_ids(t.root, id, c, PaneId(0), s);
    }
}

/// Every restored tree is valid.
pub proof fn law_restored_tree_is_valid(root: PaneModel)
    ensures
        restored_tree(root) matches Some(t) ==> t.well_formed(),
{
    if restored_tree(root) is Some {
        let t = restored_tree(root).unwrap();
        lemma_extreme_leaves(root);
        assert forall|p: PaneId| #[trigger] root.has_pane(p) implies p.0 < t.next_pane by {
            lemma_max_pane_bound(root, p);
        }
        assert forall|s: SplitId| #[trigger] root.has_split(s) implies s.0 < t.next_split by {
            lemma_max_split_bound(root, s);
        }
    }
}

/// The nodes of a valid tree are always accepted again when restored: the
/// same nodes come back, the first pane is focused, and new ids continue
/// no later than before.
pub proof fn law_valid_tree_restores(t: PaneTreeView)
    requires
        t.well_formed(),
    ensures
        restored_tree(t.root) is Some,
        restored_tree(t.root).unwrap().root == t.root,
        restored_tree(t.root).unwrap().active == t.root.first_leaf(),
        restored_tree(t.root).unwrap().next_pane <= t.next_pane,
        restored_tree(t.root).unwrap().next_split <= t.next_split,
{
    lemma_max_pane_member(t.root);
    lemma_max_split_member(t.root);
}

/// The pane ids of a valid tree are distinct and name exactly its panes.
pub proof fn law_pane_ids_distinct(t: PaneTreeView)
    requires
        t.well_formed(),
    ensures
        t.root.pane_ids().no_duplicates(),
        t.root.pane_ids().len() == t.root.leaf_count(),
        forall|p: PaneId| #[trigger] t.root.pane_ids().contains(p) == t.root.has_pane(p),
{
    lemma_pane_ids_no_duplicates(t.root);
    lemma_pane_ids_len(t.root);
    assert forall|p: PaneId| #[trigger] t.root.pane_ids().contains(p) == t.root.has_pane(p) by {
        lemma_pane_ids_contains(t.root, p);
    }
}

proof fn lemma_pane_ids_no_duplicates(m: PaneModel)
    requires
        m.ids_unique(),
    ensures
        m.pane_ids().no_duplicates(),
    decreases m,
{
    match m {
        PaneModel::Leaf { .. } => {},
        PaneModel::Split { first, second, .. } => {
            lemma_pane_ids_no_duplicates(*first);
            lemma_pane_ids_no_duplicates(*second);
            let a = first.pane_ids();
            let b = second.pane_ids();
            assert forall|i: int, j: int| 0 <= i < (a + b).len() && 0 <= j < (a + b).len() && i
                != j implies (a + b)[i] != (a + b)[j] by {
                if i < a.len() && j >= a.len() {
                    lemma_pane_ids_contains(*first, a[i]);
                    lemma_pane_ids_contains(*second, b[j - a.len()]);
                    assert(a.contains(a[i]));
                    assert(b.contains(b[j - a.len()]));
                } else if j < a.len() && i >= a.len() {
                    lemma_pane_ids_contains(*first, a[j]);
                    lemma_pane_ids_contains(*second, b[i - a.len()]);
                    assert(a.contains(a[j]));
                    assert(b.contains(b[i - a.len()]));
                }
            }
        },
    }
}

/// What every pane tree keeps: at least one pane, the focused pane among
/// its panes, no pane id and no split id twice, and every split ratio
/// finite and inside the supported range.
pub open spec fn pane_invariant(t: PaneTreeView) -> bool {
    &&& t.root.leaf_count() >= 1
    &&& t.root.pane_ids().contains(t.active)
    &&& t.root.pane_ids().no_duplicates()
    &&& t.root.split_ids().no_duplicates()
    &&& t.root.ratios_supported()
}

/// A valid tree keeps the pane invariant.
pub proof fn law_valid_tree_keeps_invariant(t: PaneTreeView)
    requires
        t.well_formed(),
    ensures
        pane_invariant(t),
{
    lemma_pane_ids_no_duplicates(t.root);
    lemma_split_ids_no_duplicates(t.root);
    lemma_pane_ids_contains(t.root, t.active);
    lemma_leaf_count_positive(t.root);
}

/// The pane invariant holds of a new tree and of every restored tree, and
/// every operation keeps it: focusing a pane of the tree, splitting (where
/// ids are left), closing any pane, moving the focus, retitling and
/// resizing.
pub proof fn law_operations_keep_invariant(
    t: PaneTreeView,
    id: PaneId,
    split: SplitId,
    orientation: Orientation,
    direction: Direction,
    title: Seq<char>,
    ratio: u64,
    root: PaneModel,
)
    requires
        t.well_formed(),
    ensures
        pane_invariant(initial_tree()),
        restored_tree(root) matches Some(r) ==> pane_invariant(r),
        pane_invariant(t),
        t.root.has_pane(id) ==> pane_invariant(PaneTreeView { active: id, ..t }),
        t.can_split() ==> pane_invariant(split_tree(t, orientation)),
        pane_invariant(closed_tree(t, id)),
        pane_invariant(moved_tree(t, direction)),
        pane_invariant(titled_tree(t, id, title)),
        pane_invariant(resized_tree(t, split, ratio)),
{
    let init = initial_tree();
    assert(init.root.split_ids() =~= Seq::<SplitId>::empty());
    assert(init.root.pane_ids() =~= seq![PaneId(0)]);
    assert(init.root.pane_ids()[0] == init.active);
    law_restored_tree_is_valid(root);
    if restored_tree(root) is Some {
        law_valid_tree_keeps_invariant(restored_tree(root).unwrap());
    }
    law_valid_tree_keeps_invariant(t);
    if t.root.has_pane(id) {
        law_valid_tree_keeps_invariant(PaneTreeView { active: id, ..t });
    }
    if t.can_split() {
        law_split_adds_fresh_pane(t, orientation);
        law_valid_tree_keeps_invariant(split_tree(t, orientation));
    }
    if !t.root.is_leaf() && t.root.has_pane(id) {
        law_close_removes_pane(t, id);
    }
    law_valid_tree_keeps_invariant(closed_tree(t, id));
    law_focus_move_lands_in_tree(t, direction);
    law_valid_tree_keeps_invariant(moved_tree(t, direction));
    law_title_read_after_write(t, id, title, id);
    law_valid_tree_keeps_invariant(titled_tree(t, id, title));
    law_resize_keeps_tree_valid(t, split, ratio);
    law_valid_tree_keeps_invariant(resized_tree(t, split, ratio));
}

proof fn lemma_leaf_count_positive(m: PaneModel)
    ensures
        m.leaf_count() >= 1,
    decreases m,
{
    if let PaneModel::Split { first, second, .. } = m {
        lemma_leaf_count_positive(*first);
    }
}

proof fn lemma_split_ids_no_duplicates(m: PaneModel)
    requires
        m.ids_unique(),
    ensures
        m.split_ids().no_duplicates(),
    decreases m,
{
    match m {
        PaneModel::Leaf { .. } => {},
        PaneModel::Split { id, first, second, .. } => {
            lemma_split_ids_no_duplicates(*first);
            lemma_split_ids_no_duplicates(*second);
            let a = first.split_ids();
            let b = second.split_ids();
            let c = a + b;
            assert forall|i: int, j: int| 0 <= i < c.len() && 0 <= j < c.len() && i != j implies c[i]
                != c[j] by {
                if i < a.len() && j >= a.len() {
                    lemma_split_ids_contains(*first, a[i]);
                    lemma_split_ids_contains(*second, b[j - a.len()]);
                    assert(a.contains(a[i]));
                    assert(b.contains(b[j - a.len()]));
                } else if j < a.len() && i >= a.len() {
                    lemma_split_ids_contains(*first, a[j]);
                    lemma_split_ids_contains(*second, b[i - a.len()]);
                    assert(a.contains(a[j]));
                    assert(b.contains(b[i - a.len()]));
                }
            }
            let d = seq![id] + c;
            assert(m.split_ids() == d);
            assert forall|i: int, j: int| 0 <= i < d.len() && 0 <= j < d.len() && i != j implies d[i]
                != d[j] by {
                if i == 0 || j == 0 {
                    let k = if i == 0 { j } else { i };
                    let x = c[k - 1];
                    assert(c.contains(x));
                    lemma_split_ids_contains(*first, x);
                    lemma_split_ids_contains(*second, x);
                    lemma_concat_contains(a, b, x);
                } else {
                    assert(d[i] == c[i - 1]);
                    assert(d[j] == c[j - 1]);
                }
            }
        },
    }
}

/// The first pane of a tree is the first of its pane ids, the last pane
/// the last of them.
proof fn lemma_ends_of_pane_ids(m: PaneModel)
    ensures
        m.pane_ids().len() >= 1,
        m.pane_ids()[0] == m.first_leaf(),
        m.pane_ids().last() == m.last_leaf(),
    decreases m,
{
    if let PaneModel::Split { first, second, .. } = m {
        lemma_ends_of_pane_ids(*first);
        lemma_ends_of_pane_ids(*second);
    }
}

/// How a focus move passes a split, for a pane `from` of the split. When
/// the child that holds `from` has a neighbour inside, that one is taken.
/// Otherwise the move crosses the divider only towards the other child (a
/// horizontal split left from its second child or right from its first, a
/// vertical split up from its second child or down from its first), and
/// lands on the pane of the other child next to the divider: the last of
/// its panes (left to right, top to bottom) when it crosses into the first
/// child, the first when it crosses into the second child. Any other move
/// finds nothing at this split, and a pane outside the split has no
/// neighbour there.
pub proof fn law_focus_move_across_split(m: PaneModel, from: PaneId, direction: Direction)
    requires
        m.ids_unique(),
        m is Split,
    ensures
        ({
            let first = *m->first;
            let second = *m->second;
            let o = m->orientation;
            let left_or_up = (o == Orientation::Horizontal && direction == Direction::Left) || (o
                == Orientation::Vertical && direction == Direction::Up);
            let right_or_down = (o == Orientation::Horizontal && direction == Direction::Right) || (o
                == Orientation::Vertical && direction == Direction::Down);
            &&& !m.has_pane(from) ==> m.neighbor(from, direction) is None
            &&& first.has_pane(from) && first.neighbor(from, direction) is Some ==> m.neighbor(
                from,
                direction,
            ) == first.neighbor(from, direction)
            &&& second.has_pane(from) && second.neighbor(from, direction) is Some ==> m.neighbor(
                from,
                direction,
            ) == second.neighbor(from, direction)
            &&& first.has_pane(from) && first.neighbor(from, direction) is None ==> m.neighbor(
                from,
                direction,
            ) == if right_or_down {
                Some(second.pane_ids()[0])
            } else {
                None
            }
            &&& second.has_pane(from) && second.neighbor(from, direction) is None ==> m.neighbor(
                from,
                direction,
            ) == if left_or_up {
                Some(first.pane_ids().last())
            } else {
                None
            }
        }),
{
    let first = *m->first;
    let second = *m->second;
    lemma_neighbor_in_tree(first, from, direction);
    lemma_neighbor_in_tree(second, from, direction);
    lemma_ends_of_pane_ids(first);
    lemma_ends_of_pane_ids(second);
}

/// Every split of the tree has this orientation: the panes form one row
/// (horizontal) or one column (vertical).
pub open spec fn all_splits_along(m: PaneModel, orientation: Orientation) -> bool
    decreases m,
{
    match m {
        PaneModel::Leaf { .. } => true,
        PaneModel::Split { orientation: o, first, second, .. } => o == orientation
            && all_splits_along(*first, orientation) && all_splits_along(*second, orientation),
    }
}

/// The direction towards the start of a row (left) or column (up).
pub open spec fn backward(orientation: Orientation) -> Direction {
    match orientation {
        Orientation::Horizontal => Direction::Left,
        Orientation::Vertical => Direction::Up,
    }
}

/// The direction towards the end of a row (right) or column (down).
pub open spec fn forward(orientation: Orientation) -> Direction {
    match orientation {
        Orientation::Horizontal => Direction::Right,
        Orientation::Vertical => Direction::Down,
    }
}

/// In a single row (or column) of panes, a focus move goes to the adjacent
/// pane: from the `i`-th pane (left to right, top to bottom) backwards to
/// the one before it and forwards to the one after it, and nowhere past
/// either end; in columns `a | b | c`, left from `c` is `b`.
pub proof fn law_focus_moves_to_adjacent_pane(m: PaneModel, orientation: Orientation, i: int)
    requires
        m.ids_unique(),
        all_splits_along(m, orientation),
        0 <= i < m.pane_ids().len(),
    ensures
        m.neighbor(m.pane_ids()[i], backward(orientation)) == if i > 0 {
            Some(m.pane_ids()[i - 1])
        } else {
            None
        },
        m.neighbor(m.pane_ids()[i], forward(orientation)) == if i + 1 < m.pane_ids().len() {
            Some(m.pane_ids()[i + 1])
        } else {
            None
        },
    decreases m,
{
    if let PaneModel::Split { first, second, .. } = m {
        let a = first.pane_ids();
        let b = second.pane_ids();
        let ids = m.pane_ids();
        let from = ids[i];
        lemma_ends_of_pane_ids(*first);
        lemma_ends_of_pane_ids(*second);
        law_focus_move_across_split(m, from, backward(orientation));
        law_focus_move_across_split(m, from, forward(orientation));
        if i < a.len() {
            assert(from == a[i]);
            assert(a.contains(from));
            lemma_pane_ids_contains(*first, from);
            law_focus_moves_to_adjacent_pane(*first, orientation, i);
            if i > 0 {
                assert(ids[i - 1] == a[i - 1]);
            }
            if i + 1 < a.len() {
                assert(ids[i + 1] == a[i + 1]);
            } else {
                assert(ids[i + 1] == b[0]);
            }
        } else {
            let j = i - a.len();
            assert(from == b[j]);
            assert(b.contains(from));
            lemma_pane_ids_contains(*second, from);
            lemma_pane_ids_contains(*first, from);
            law_focus_moves_to_adjacent_pane(*second, orientation, j);
            if j > 0 {
                assert(ids[i - 1] == b[j - 1]);
            } else {
                assert(ids[i - 1] == a.last());
            }
            if j + 1 < b.len() {
                assert(ids[i + 1] == b[j + 1]);
            }
        }
    }
}

/// The subtree next to the pane `target`: the other child of the split
/// that holds the pane directly (none for a lone pane or a pane the tree
/// lacks).
pub open spec fn sibling_of(m: PaneModel, target: PaneId) -> Option<PaneModel>
    decreases m,
{
    match m {
        PaneModel::Leaf { .. } => None,
        PaneModel::Split { first, second, .. } => if first.is_leaf() && first.has_pane(target) {
            Some(*second)
        } else if second.is_leaf() && second.has_pane(target) {
            Some(*first)
        } else if first.has_pane(target) {
            sibling_of(*first, target)
        } else {
            sibling_of(*second, target)
        },
    }
}

/// Closing a pane of a split tree removes exactly that pane from the order
/// of the panes (left to right), every other pane keeping its place, and
/// hands the focus to the first pane of the subtree next to the closed
/// pane, which takes the place of their split.
pub proof fn law_close_keeps_pane_order(m: PaneModel, target: PaneId, k: int)
    requires
        m.ids_unique(),
        m is Split,
        0 <= k < m.pane_ids().len(),
        m.pane_ids()[k] == target,
    ensures
        m.close_leaf(target).0.pane_ids() == m.pane_ids().remove(k),
        sibling_of(m, target) is Some,
        m.close_leaf(target).1 == sibling_of(m, target).unwrap().pane_ids()[0],
    decreases m,
{
    if let PaneModel::Split { first, second, .. } = m {
        let a = first.pane_ids();
        let b = second.pane_ids();
        if k < a.len() {
            assert(a[k] == target);
            assert(a.contains(target));
            lemma_pane_ids_contains(*first, target);
            lemma_pane_ids_contains(*second, target);
            if first.is_leaf() {
                assert(m.pane_ids().remove(k) =~= b);
                lemma_ends_of_pane_ids(*second);
            } else {
                law_close_keeps_pane_order(*first, target, k);
                assert(m.pane_ids().remove(k) =~= a.remove(k) + b);
            }
        } else {
            let j = k - a.len();
            assert(b[j] == target);
            assert(b.contains(target));
            lemma_pane_ids_contains(*first, target);
            lemma_pane_ids_contains(*second, target);
            if second.is_leaf() {
                assert(m.pane_ids().remove(k) =~= a);
                lemma_ends_of_pane_ids(*first);
            } else {
                law_close_keeps_pane_order(*second, target, j);
                assert(m.pane_ids().remove(k) =~= a + b.remove(j));
            }
        }
    }
}

/// Closing the focused pane of a tree with more than one pane focuses the
/// first pane of the subtree that was next to it; the panes keep their
/// order without the closed one.
pub proof fn law_close_focuses_sibling(t: PaneTreeView, k: int)
    requires
        t.well_formed(),
        !t.root.is_leaf(),
        0 <= k < t.root.pane_ids().len(),
        t.root.pane_ids()[k] == t.active,
    ensures
        close_result(t, t.active) == Some(sibling_of(t.root, t.active).unwrap().pane_ids()[0]),
        closed_tree(t, t.active).root.pane_ids() == t.root.pane_ids().remove(k),
        closed_tree(t, t.active).active == sibling_of(t.root, t.active).unwrap().pane_ids()[0],
{
    law_close_keeps_pane_order(t.root, t.active, k);
}

} // verus!

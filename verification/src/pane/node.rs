//! Pane nodes and the recursive operations on them.
use vstd::prelude::*;

use super::ids::{Direction, Orientation, PaneId, SplitId};
use super::model::{
    default_title, larger, lemma_pane_ids_len, lemma_restorable_split, lemma_with_ratio_absent,
    PaneModel,
};
use super::ratio::{is_supported_ratio, HALF_RATIO};

verus! {

/// A node of the pane tree: a terminal pane or a split of two subtrees.
#[derive(Debug)]
#[allow(inconsistent_fields)]
pub enum PaneNode {
    Terminal { id: PaneId, title: String },
    Split {
        id: SplitId,
        orientation: Orientation,
        /// Position of the divider as a binary64 encoding (see `ratio`).
        ratio: u64,
        first: Box<PaneNode>,
        second: Box<PaneNode>,
    },
}

impl PaneNode {
    /// The model of this subtree.
    pub open spec fn model(self) -> PaneModel
        decreases self,
    {
        match self {
            PaneNode::Terminal { id, title } => PaneModel::Leaf { id, title: title@ },
            PaneNode::Split { id, orientation, ratio, first, second } => PaneModel::Split {
                id,
                orientation,
                ratio,
                first: Box::new(first.model()),
                second: Box::new(second.model()),
            },
        }
    }

    pub fn is_terminal(&self) -> (r: bool)
        ensures
            r == self@.is_leaf(),
    {
        match self {
            PaneNode::Terminal { .. } => true,
            PaneNode::Split { .. } => false,
        }
    }
}

/// A copy of the subtree.
pub fn clone_node(node: &PaneNode) -> (r: PaneNode)
    ensures
        r@ == node@,
    decreases node,
{
    match node {
        PaneNode::Terminal { id, title } => PaneNode::Terminal { id: *id, title: title.clone() },
        PaneNode::Split { id, orientation, ratio, first, second } => PaneNode::Split {
            id: *id,
            orientation: *orientation,
            ratio: *ratio,
            first: Box::new(clone_node(first)),
            second: Box::new(clone_node(second)),
        },
    }
}

impl Clone for PaneNode {
    fn clone(&self) -> (r: Self)
        ensures
            r@ == self@,
    {
        clone_node(self)
    }
}

impl View for PaneNode {
    type V = PaneModel;

    open spec fn view(&self) -> PaneModel {
        self.model()
    }
}

/// Whether the subtree holds the pane.
pub fn contains(node: &PaneNode, id: PaneId) -> (r: bool)
    ensures
        r == node@.has_pane(id),
    decreases node,
{
    match node {
        PaneNode::Terminal { id: node_id, .. } => *node_id == id,
        PaneNode::Split { first, second, .. } => contains(first, id) || contains(second, id),
    }
}

/// The left-most pane of the subtree.
pub fn find_first_leaf(node: &PaneNode) -> (r: PaneId)
    ensures
        r == node@.first_leaf(),
    decreases node,
{
    match node {
        PaneNode::Terminal { id, .. } => *id,
        PaneNode::Split { first, .. } => find_first_leaf(first),
    }
}

/// Appends the pane ids of the subtree, left to right.
pub fn collect_ids(node: &PaneNode, out: &mut Vec<PaneId>)
    ensures
        final(out)@ == old(out)@ + node@.pane_ids(),
    decreases node,
{
    match node {
        PaneNode::Terminal { id, .. } => {
            out.push(*id);
            assert(final(out)@ == old(out)@ + node@.pane_ids());
        },
        PaneNode::Split { first, second, .. } => {
            collect_ids(first, out);
            collect_ids(second, out);
            assert(final(out)@ == old(out)@ + node@.pane_ids());
        },
    }
}

/// The number of terminal panes in the subtree.
pub fn count_leaves(node: &PaneNode) -> (r: usize)
    ensures
        r == node@.leaf_count(),
{
    let mut ids = Vec::new();
    collect_ids(node, &mut ids);
    proof {
        lemma_pane_ids_len(node@);
    }
    ids.len()
}

/// The title of the first pane (left to right) with this id.
pub fn title_in<'a>(node: &'a PaneNode, id: PaneId) -> (r: Option<&'a str>)
    ensures
        r is Some <==> node@.title_of(id) is Some,
        r matches Some(t) ==> t@ == node@.title_of(id).unwrap(),
    decreases node,
{
    match node {
        PaneNode::Terminal { id: node_id, title } => {
            if *node_id == id {
                Some(title.as_str())
            } else {
                None
            }
        },
        PaneNode::Split { first, second, .. } => {
            match title_in(first, id) {
                Some(t) => Some(t),
                None => title_in(second, id),
            }
        },
    }
}

/// Gives every pane with this id the title.
pub fn set_title_in(node: &mut PaneNode, id: PaneId, title: String)
    ensures
        final(node)@ == old(node)@.with_title(id, title@),
    decreases *old(node),
{
    match node {
        PaneNode::Terminal { id: node_id, title: t } => {
            if *node_id == id {
                *t = title;
            }
        },
        PaneNode::Split { first, second, .. } => {
            set_title_in(first, id, title.clone());
            set_title_in(second, id, title);
        },
    }
}

/// Splits the pane `target_id` in place: it becomes the first child of a new
/// split whose second child is the new pane. Returns whether it was found.
pub fn split_node(
    node: &mut PaneNode,
    target_id: PaneId,
    split_id: SplitId,
    orientation: Orientation,
    new_id: PaneId,
) -> (r: bool)
    ensures
        r == old(node)@.has_pane(target_id),
        final(node)@ == old(node)@.split_leaf(target_id, split_id, orientation, new_id),
    decreases *old(node),
{
    let is_target = match node {
        PaneNode::Terminal { id, .. } => *id == target_id,
        PaneNode::Split { .. } => false,
    };
    if is_target {
        let mut taken = PaneNode::Terminal { id: PaneId::new(u64::MAX), title: String::new() };
        std::mem::swap(&mut taken, node);
        let title = "IV".to_owned();
        proof {
            reveal_strlit("IV");
            assert(title@ =~= default_title());
            assert(old(node)@ is Leaf);
            assert(old(node)@.has_pane(target_id));
        }
        let fresh = PaneNode::Terminal { id: new_id, title };
        assert(fresh@ == PaneModel::Leaf { id: new_id, title: default_title() });
        *node = PaneNode::Split {
            id: split_id,
            orientation,
            ratio: HALF_RATIO,
            first: Box::new(taken),
            second: Box::new(fresh),
        };
        true
    } else {
        match node {
            PaneNode::Split { first, second, .. } => {
                if contains(first, target_id) {
                    split_node(first, target_id, split_id, orientation, new_id)
                } else if contains(second, target_id) {
                    split_node(second, target_id, split_id, orientation, new_id)
                } else {
                    false
                }
            },
            PaneNode::Terminal { .. } => false,
        }
    }
}

/// Sets the ratio of the first split (pre-order) with this id. Returns
/// whether it was found.
pub fn set_split_ratio_in(node: &mut PaneNode, id: SplitId, ratio: u64) -> (r: bool)
    ensures
        r == old(node)@.has_split(id),
        final(node)@ == old(node)@.with_ratio(id, ratio),
    decreases *old(node),
{
    match node {
        PaneNode::Terminal { .. } => false,
        PaneNode::Split { id: node_id, ratio: node_ratio, first, second, .. } => {
            if *node_id == id {
                *node_ratio = ratio;
                true
            } else {
                proof {
                    if !first@.has_split(id) {
                        lemma_with_ratio_absent(first@, id, ratio);
                    }
                }
                set_split_ratio_in(first, id, ratio) || set_split_ratio_in(second, id, ratio)
            }
        },
    }
}

/// Removes the pane `target_id`; returns the new subtree and the pane that
/// takes over the focus (see `PaneModel::close_leaf`).
pub fn close_node(node: PaneNode, target_id: PaneId) -> (r: (PaneNode, PaneId))
    ensures
        (r.0@, r.1) == node@.close_leaf(target_id),
    decreases node,
{
    match node {
        PaneNode::Terminal { id, .. } => {
            if id == target_id {
                (PaneNode::Terminal { id: PaneId::new(u64::MAX), title: String::new() }, PaneId::new(u64::MAX))
            } else {
                (node, PaneId::new(u64::MAX))
            }
        },
        PaneNode::Split { id, orientation, ratio, first, second } => {
            let first_contains = contains(&first, target_id);
            let second_contains = contains(&second, target_id);
            if first_contains && first.is_terminal() {
                let active = find_first_leaf(&second);
                (*second, active)
            } else if second_contains && second.is_terminal() {
                let active = find_first_leaf(&first);
                (*first, active)
            } else if first_contains {
                let (new_first, active) = close_node(*first, target_id);
                (PaneNode::Split { id, orientation, ratio, first: Box::new(new_first), second }, active)
            } else if second_contains {
                let (new_second, active) = close_node(*second, target_id);
                (PaneNode::Split { id, orientation, ratio, first, second: Box::new(new_second) }, active)
            } else {
                (PaneNode::Split { id, orientation, ratio, first, second }, PaneId::new(u64::MAX))
            }
        },
    }
}

fn holds_pane(ids: &Vec<PaneId>, id: PaneId) -> (r: bool)
    ensures
        r == ids@.contains(id),
{
    let mut i: usize = 0;
    while i < ids.len()
        invariant
            i <= ids.len(),
            forall|j: int| 0 <= j < i ==> ids@[j] != id,
        decreases ids.len() - i,
    {
        if ids[i] == id {
            return true;
        }
        i = i + 1;
    }
    false
}

fn holds_split(ids: &Vec<SplitId>, id: SplitId) -> (r: bool)
    ensures
        r == ids@.contains(id),
{
    let mut i: usize = 0;
    while i < ids.len()
        invariant
            i <= ids.len(),
            forall|j: int| 0 <= j < i ==> ids@[j] != id,
        decreases ids.len() - i,
    {
        if ids[i] == id {
            return true;
        }
        i = i + 1;
    }
    false
}

/// Checks a restored subtree against the ids seen so far, recording its
/// own: succeeds when its ids are unique and unseen and every ratio is
/// finite and within the supported range.
pub fn validate_restored_node(
    node: &PaneNode,
    pane_ids: &mut Vec<PaneId>,
    split_ids: &mut Vec<SplitId>,
) -> (r: bool)
    ensures
        r == node@.restorable(old(pane_ids)@, old(split_ids)@),
        r ==> final(pane_ids)@ == old(pane_ids)@ + node@.pane_ids(),
        r ==> final(split_ids)@ == old(split_ids)@ + node@.split_ids(),
    decreases node,
{
    match node {
        PaneNode::Terminal { id, .. } => {
            if holds_pane(pane_ids, *id) {
                false
            } else {
                pane_ids.push(*id);
                proof {
                    assert(node@.pane_ids() == seq![*id]);
                }
                true
            }
        },
        PaneNode::Split { id, ratio, first, second, .. } => {
            let ghost panes0 = pane_ids@;
            let ghost splits0 = split_ids@;
            if holds_split(split_ids, *id) {
                return false;
            }
            split_ids.push(*id);
            if !is_supported_ratio(*ratio) {
                return false;
            }
            let ok_first = validate_restored_node(first, pane_ids, split_ids);
            if !ok_first {
                proof {
                    lemma_restorable_split(node@, panes0, splits0);
                }
                return false;
            }
            let ok_second = validate_restored_node(second, pane_ids, split_ids);
            proof {
                lemma_restorable_split(node@, panes0, splits0);
                if ok_second {
                    assert(split_ids@ == splits0 + node@.split_ids());
                }
            }
            ok_second
        },
    }
}

/// The largest pane id of the subtree.
pub fn max_pane_id(node: &PaneNode) -> (r: u64)
    ensures
        r == node@.max_pane(),
    decreases node,
{
    match node {
        PaneNode::Terminal { id, .. } => id.as_u64(),
        PaneNode::Split { first, second, .. } => {
            let a = max_pane_id(first);
            let b = max_pane_id(second);
            if a < b {
                b
            } else {
                a
            }
        },
    }
}

fn larger_id(a: Option<u64>, b: Option<u64>) -> (r: Option<u64>)
    ensures
        r == larger(a, b),
{
    match (a, b) {
        (None, _) => b,
        (_, None) => a,
        (Some(x), Some(y)) => if x < y {
            Some(y)
        } else {
            Some(x)
        },
    }
}

/// The largest split id of the subtree, if it has a split.
pub fn max_split_id(node: &PaneNode) -> (r: Option<u64>)
    ensures
        r == node@.max_split(),
    decreases node,
{
    match node {
        PaneNode::Terminal { .. } => None,
        PaneNode::Split { id, first, second, .. } => {
            let a = larger_id(Some(id.as_u64()), max_split_id(first));
            larger_id(a, max_split_id(second))
        },
    }
}

} // verus!

//! Layout snapshots: the storable form of the last layout (tabs, pane
//! trees, custom titles and the active profile), and how a tab collection
//! is taken apart into one and restored from one.
use vstd::prelude::*;

use super::error::{WorkspaceError, WorkspaceErrorView, WorkspaceWarning};
use super::profile::{ProfileId, StartProfile};
use super::start_config::{
    clone_optional_text, start_config_issue, start_config_valid, StartConfig, StartConfigView,
};
use super::SCHEMA_VERSION;
use crate::pane::tree::restored_tree;
use crate::pane::{Orientation, PaneId, PaneModel, PaneNode, PaneTree, PaneTreeView, SplitId};
use crate::tab::{
    fresh_tab, max_tab_id, tab_views, TabCollection, TabCollectionView, TabId, TabInfo, TabView,
};

verus! {

/// The orientation of a stored split.
#[derive(Debug, Clone, Copy, PartialEq, Eq, Structural)]
pub enum LayoutOrientation {
    Horizontal,
    Vertical,
}

/// The pane orientation a stored one stands for.
pub open spec fn pane_orientation(o: LayoutOrientation) -> Orientation {
    match o {
        LayoutOrientation::Horizontal => Orientation::Horizontal,
        LayoutOrientation::Vertical => Orientation::Vertical,
    }
}

/// The stored orientation of a pane orientation.
pub open spec fn stored_orientation(o: Orientation) -> LayoutOrientation {
    match o {
        Orientation::Horizontal => LayoutOrientation::Horizontal,
        Orientation::Vertical => LayoutOrientation::Vertical,
    }
}

impl From<Orientation> for LayoutOrientation {
    fn from(value: Orientation) -> (r: Self) {
        match value {
            Orientation::Horizontal => LayoutOrientation::Horizontal,
            Orientation::Vertical => LayoutOrientation::Vertical,
        }
    }
}

impl vstd::std_specs::convert::FromSpecImpl<Orientation> for LayoutOrientation {
    open spec fn obeys_from_spec() -> bool {
        true
    }

    open spec fn from_spec(v: Orientation) -> LayoutOrientation {
        stored_orientation(v)
    }
}

impl From<LayoutOrientation> for Orientation {
    fn from(value: LayoutOrientation) -> (r: Self) {
        match value {
            LayoutOrientation::Horizontal => Orientation::Horizontal,
            LayoutOrientation::Vertical => Orientation::Vertical,
        }
    }
}

impl vstd::std_specs::convert::FromSpecImpl<LayoutOrientation> for Orientation {
    open spec fn obeys_from_spec() -> bool {
        true
    }

    open spec fn from_spec(v: LayoutOrientation) -> Orientation {
        pane_orientation(v)
    }
}

/// A stored terminal pane.
#[derive(Debug, PartialEq)]
pub struct LayoutTerminal {
    pub id: u64,
    pub title: String,
}

/// A stored split.
#[derive(Debug, PartialEq)]
pub struct LayoutSplit {
    pub id: u64,
    pub orientation: LayoutOrientation,
    /// Position of the divider as a binary64 encoding.
    pub ratio: u64,
    pub first: Box<LayoutPane>,
    pub second: Box<LayoutPane>,
}

/// A stored node of a pane tree.
#[derive(Debug, PartialEq)]
pub enum LayoutPane {
    Terminal(LayoutTerminal),
    Split(LayoutSplit),
}

impl LayoutPane {
    /// The pane tree this stored node stands for.
    pub open spec fn model(self) -> PaneModel
        decreases self,
    {
        match self {
            LayoutPane::Terminal(t) => PaneModel::Leaf { id: PaneId(t.id), title: t.title@ },
            LayoutPane::Split(s) => PaneModel::Split {
                id: SplitId(s.id),
                orientation: pane_orientation(s.orientation),
                ratio: s.ratio,
                first: Box::new(s.first.model()),
                second: Box::new(s.second.model()),
            },
        }
    }

    /// The stored form of a node.
    pub fn from_node(node: &PaneNode) -> (r: Self)
        ensures
            r.model() == node@,
        decreases node,
    {
        match node {
            PaneNode::Terminal { id, title } => LayoutPane::Terminal(
                LayoutTerminal { id: id.as_u64(), title: title.clone() },
            ),
            PaneNode::Split { id, orientation, ratio, first, second } => {
                let first = LayoutPane::from_node(first);
                let second = LayoutPane::from_node(second);
                LayoutPane::Split(
                    LayoutSplit {
                        id: id.as_u64(),
                        orientation: LayoutOrientation::from(*orientation),
                        ratio: *ratio,
                        first: Box::new(first),
                        second: Box::new(second),
                    },
                )
            },
        }
    }

    /// The node a stored one stands for.
    pub fn into_node(self) -> (r: PaneNode)
        ensures
            r@ == self.model(),
        decreases self,
    {
        match self {
            LayoutPane::Terminal(terminal) => PaneNode::Terminal {
                id: PaneId::new(terminal.id),
                title: terminal.title,
            },
            LayoutPane::Split(split) => {
                let LayoutSplit { id, orientation, ratio, first, second } = split;
                let first = (*first).into_node();
                let second = (*second).into_node();
                PaneNode::Split {
                    id: SplitId::new(id),
                    orientation: Orientation::from(orientation),
                    ratio,
                    first: Box::new(first),
                    second: Box::new(second),
                }
            },
        }
    }
}

/// A copy of a stored node.
pub fn clone_pane(pane: &LayoutPane) -> (r: LayoutPane)
    ensures
        r.model() == pane.model(),
    decreases pane,
{
    match pane {
        LayoutPane::Terminal(t) => LayoutPane::Terminal(
            LayoutTerminal { id: t.id, title: t.title.clone() },
        ),
        LayoutPane::Split(s) => LayoutPane::Split(
            LayoutSplit {
                id: s.id,
                orientation: s.orientation,
                ratio: s.ratio,
                first: Box::new(clone_pane(&s.first)),
                second: Box::new(clone_pane(&s.second)),
            },
        ),
    }
}

impl Clone for LayoutPane {
    fn clone(&self) -> (r: Self)
        ensures
            r.model() == self.model(),
    {
        clone_pane(self)
    }
}

/// What a stored tab is.
pub struct LayoutTabView {
    pub title: Seq<char>,
    pub custom_title: Option<Seq<char>>,
    pub start_config: Option<StartConfigView>,
    pub root: PaneModel,
}

/// The stored form of a tab.
#[derive(Debug, PartialEq)]
pub struct LayoutTab {
    pub title: String,
    pub custom_title: Option<String>,
    pub start_config: Option<StartConfig>,
    pub root: LayoutPane,
}

impl View for LayoutTab {
    type V = LayoutTabView;

    open spec fn view(&self) -> LayoutTabView {
        LayoutTabView {
            title: self.title@,
            custom_title: match self.custom_title {
                Some(t) => Some(t@),
                None => None,
            },
            start_config: match self.start_config {
                Some(c) => Some(c@),
                None => None,
            },
            root: self.root.model(),
        }
    }
}

impl Clone for LayoutTab {
    fn clone(&self) -> (r: Self)
        ensures
            r@ == self@,
    {
        LayoutTab {
            title: self.title.clone(),
            custom_title: clone_optional_text(&self.custom_title),
            start_config: match &self.start_config {
                Some(c) => Some(c.clone()),
                None => None,
            },
            root: clone_pane(&self.root),
        }
    }
}

/// The stored form of a tab: its titles, start configuration and nodes.
pub open spec fn stored_tab(tab: TabView) -> LayoutTabView {
    LayoutTabView {
        title: tab.title,
        custom_title: tab.custom_title,
        start_config: tab.start_config,
        root: tab.tree.root,
    }
}

/// The first problem of a stored tab, if any: an invalid start
/// configuration, then nodes that do not restore to a pane tree.
pub open spec fn stored_tab_issue(tab: LayoutTabView) -> Option<WorkspaceErrorView> {
    if tab.start_config is Some && !start_config_valid(tab.start_config.unwrap()) {
        start_config_issue(
            tab.start_config.unwrap().working_directory,
            tab.start_config.unwrap().shell,
            tab.start_config.unwrap().command,
        )
    } else if restored_tree(tab.root) is None {
        Some(WorkspaceErrorView::InvalidLayout)
    } else {
        None
    }
}

/// The tab a stored one restores to, under the given id.
pub open spec fn restored_tab(tab: LayoutTabView, id: TabId) -> TabView {
    TabView {
        id,
        title: tab.title,
        tree: restored_tree(tab.root).unwrap(),
        custom_title: tab.custom_title,
        start_config: tab.start_config,
    }
}

impl LayoutTab {
    /// The stored form of a tab.
    pub fn from_tab(tab: &TabInfo) -> (r: Self)
        ensures
            r@ == stored_tab(tab@),
    {
        LayoutTab {
            title: tab.title.clone(),
            custom_title: clone_optional_text(&tab.custom_title),
            start_config: match &tab.start_config {
                Some(c) => Some(c.clone()),
                None => None,
            },
            root: LayoutPane::from_node(tab.pane_tree.root()),
        }
    }

    /// Restores the tab under the given id, after checking its start
    /// configuration and its nodes.
    pub fn into_tab(self, id: TabId) -> (r: Result<TabInfo, WorkspaceError>)
        ensures
            match stored_tab_issue(self@) {
                Some(e) => r matches Err(x) && x@ == e,
                None => r matches Ok(t) && t@ == restored_tab(self@, id),
            },
    {
        if let Some(config) = &self.start_config {
            match config.validate() {
                Ok(()) => {},
                Err(e) => return Err(e),
            }
        }
        let LayoutTab { title, custom_title, start_config, root } = self;
        let pane_tree = match PaneTree::from_root(root.into_node()) {
            Some(tree) => tree,
            None => return Err(WorkspaceError::InvalidLayout),
        };
        let mut tab = TabInfo::new(id, title, pane_tree);
        tab.custom_title = custom_title;
        tab.start_config = start_config;
        Ok(tab)
    }
}

/// What a snapshot is.
pub struct LayoutSnapshotView {
    pub schema_version: u32,
    pub active_profile_id: Option<ProfileId>,
    pub active_tab_index: usize,
    pub tabs: Seq<LayoutTabView>,
}

/// The views of stored tabs.
pub open spec fn stored_views(tabs: Seq<LayoutTab>) -> Seq<LayoutTabView> {
    tabs.map_values(|t: LayoutTab| t@)
}

/// The storable state of the last layout. The active profile is kept apart
/// from the tabs: when that profile is deleted, the layout falls back to
/// "no profile" and keeps its tabs.
#[derive(Debug, PartialEq)]
pub struct LayoutSnapshot {
    pub schema_version: u32,
    pub active_profile_id: Option<ProfileId>,
    pub active_tab_index: usize,
    pub tabs: Vec<LayoutTab>,
}

impl View for LayoutSnapshot {
    type V = LayoutSnapshotView;

    open spec fn view(&self) -> LayoutSnapshotView {
        LayoutSnapshotView {
            schema_version: self.schema_version,
            active_profile_id: self.active_profile_id,
            active_tab_index: self.active_tab_index,
            tabs: stored_views(self.tabs@),
        }
    }
}

/// The snapshot of a tab collection and the active profile.
pub open spec fn snapshot_of(c: TabCollectionView, active_profile_id: Option<ProfileId>) -> LayoutSnapshotView {
    LayoutSnapshotView {
        schema_version: SCHEMA_VERSION,
        active_profile_id,
        active_tab_index: c.active_index,
        tabs: c.tabs.map_values(|t: TabView| stored_tab(t)),
    }
}

/// The first problem among stored tabs, in order.
pub open spec fn stored_tabs_issue(tabs: Seq<LayoutTabView>) -> Option<WorkspaceErrorView>
    decreases tabs.len(),
{
    if tabs.len() == 0 {
        None
    } else {
        match stored_tabs_issue(tabs.drop_last()) {
            Some(e) => Some(e),
            None => stored_tab_issue(tabs.last()),
        }
    }
}

/// The first problem of a snapshot: an unknown schema version, then the
/// tabs in order.
pub open spec fn snapshot_issue(s: LayoutSnapshotView) -> Option<WorkspaceErrorView> {
    if s.schema_version != SCHEMA_VERSION {
        Some(WorkspaceErrorView::UnsupportedVersion(s.schema_version))
    } else {
        stored_tabs_issue(s.tabs)
    }
}

/// The active profile kept on restore: the stored one if it still exists.
pub open spec fn kept_profile(active: Option<ProfileId>, profiles: Seq<ProfileId>) -> Option<
    ProfileId,
> {
    match active {
        Some(id) => if profiles.contains(id) {
            Some(id)
        } else {
            None
        },
        None => None,
    }
}

/// The warnings of a restore: one when the stored profile is gone.
pub open spec fn restore_warnings(active: Option<ProfileId>, profiles: Seq<ProfileId>) -> Seq<
    WorkspaceWarning,
> {
    match active {
        Some(id) => if profiles.contains(id) {
            Seq::empty()
        } else {
            seq![WorkspaceWarning::ActiveProfileMissing]
        },
        None => Seq::empty(),
    }
}

/// `c` is the collection that the snapshot restores to: a new collection
/// when it has no tabs; otherwise its tabs, numbered from 0, with the
/// active index clamped to the last tab.
pub open spec fn restored_from(c: TabCollectionView, s: LayoutSnapshotView) -> bool {
    if s.tabs.len() == 0 {
        &&& c.tabs.len() == 1
        &&& fresh_tab(c.tabs[0], TabId(0))
        &&& c.active_index == 0
        &&& c.next_id == 1
    } else {
        &&& c.tabs.len() == s.tabs.len()
        &&& forall|i: int|
            0 <= i < s.tabs.len() ==> #[trigger] c.tabs[i] == restored_tab(s.tabs[i], TabId(i as u64))
        &&& c.active_index == if s.active_tab_index < s.tabs.len() {
            s.active_tab_index
        } else {
            (s.tabs.len() - 1) as usize
        }
        &&& c.next_id == s.tabs.len()
    }
}

/// The ids are in strictly increasing order, so none occurs twice.
pub open spec fn strictly_increasing(ids: Seq<ProfileId>) -> bool {
    forall|a: int, b: int| 0 <= a < b < ids.len() ==> (#[trigger] ids[a]).0 < (#[trigger] ids[b]).0
}

/// Some profile carries the id.
pub open spec fn has_profile_id(profiles: Seq<StartProfile>, id: ProfileId) -> bool {
    exists|j: int| 0 <= j < profiles.len() && (#[trigger] profiles[j]).id == id
}

/// The set of the profiles' ids: each id once, in increasing order (the
/// keys of a map by id).
pub fn profile_id_set(profiles: &[StartProfile]) -> (r: Vec<ProfileId>)
    ensures
        strictly_increasing(r@),
        forall|id: ProfileId| #[trigger] r@.contains(id) <==> has_profile_id(profiles@, id),
{
    let mut ids: Vec<ProfileId> = Vec::new();
    let mut i: usize = 0;
    while i < profiles.len()
        invariant
            i <= profiles@.len(),
            strictly_increasing(ids@),
            forall|id: ProfileId| #[trigger] ids@.contains(id) <==> has_profile_id(
                profiles@.take(i as int),
                id,
            ),
        decreases profiles@.len() - i,
    {
        let id = profiles[i].id;
        let mut k: usize = 0;
        while k < ids.len() && ids[k].0 < id.0
            invariant
                k <= ids@.len(),
                forall|a: int| 0 <= a < k ==> (#[trigger] ids@[a]).0 < id.0,
            decreases ids@.len() - k,
        {
            k = k + 1;
        }
        let ghost before = ids@;
        let ghost prefix = profiles@.take(i as int);
        let ghost next = profiles@.take(i + 1);
        proof {
            assert forall|x: ProfileId| has_profile_id(next, x) == (has_profile_id(prefix, x) || x
                == id) by {
                if has_profile_id(prefix, x) {
                    let j = choose|j: int| 0 <= j < prefix.len() && (#[trigger] prefix[j]).id == x;
                    assert(next[j] == prefix[j]);
                }
                if x == id {
                    assert(next[i as int] == profiles@[i as int]);
                }
                if has_profile_id(next, x) && x != id {
                    let j = choose|j: int| 0 <= j < next.len() && (#[trigger] next[j]).id == x;
                    assert(prefix[j] == next[j]);
                }
            }
        }
        if k < ids.len() && ids[k].0 == id.0 {
            proof {
                assert(ids@[k as int] == id);
                assert forall|x: ProfileId| #[trigger] ids@.contains(x) <==> has_profile_id(
                    next,
                    x,
                ) by {
                    if x == id {
                        assert(ids@.contains(id));
                    }
                }
            }
        } else {
            ids.insert(k, id);
            proof {
                assert forall|a: int, b: int| 0 <= a < b < ids@.len() implies (
                #[trigger] ids@[a]).0 < (#[trigger] ids@[b]).0 by {
                    if b < k {
                        assert(ids@[a] == before[a] && ids@[b] == before[b]);
                    } else if b == k {
                        assert(ids@[a] == before[a]);
                    } else if a > k {
                        assert(ids@[a] == before[a - 1] && ids@[b] == before[b - 1]);
                    } else if a == k {
                        assert(ids@[b] == before[b - 1]);
                        assert(before[k as int].0 >= id.0);
                        if b - 1 > k {
                            assert(before[k as int].0 < before[b - 1].0);
                        }
                    } else {
                        assert(ids@[a] == before[a] && ids@[b] == before[b - 1]);
                        if b - 1 > k {
                            assert(before[a].0 < before[b - 1].0);
                        }
                    }
                }
                assert forall|x: ProfileId| #[trigger] ids@.contains(x) <==> has_profile_id(
                    next,
                    x,
                ) by {
                    if ids@.contains(x) {
                        let p = choose|p: int| 0 <= p < ids@.len() && ids@[p] == x;
                        if p < k {
                            assert(before[p] == x);
                            assert(before.contains(x));
                        } else if p > k {
                            assert(before[p - 1] == x);
                            assert(before.contains(x));
                        }
                    }
                    if before.contains(x) {
                        let p = choose|p: int| 0 <= p < before.len() && before[p] == x;
                        if p < k {
                            assert(ids@[p] == x);
                        } else {
                            assert(ids@[p + 1] == x);
                        }
                    }
                    assert(ids@[k as int] == id);
                }
            }
        }
        i = i + 1;
    }
    proof {
        assert(profiles@.take(profiles@.len() as int) =~= profiles@);
    }
    ids
}

fn contains_profile(profiles: &[ProfileId], id: ProfileId) -> (r: bool)
    ensures
        r == profiles@.contains(id),
{
    let mut i: usize = 0;
    while i < profiles.len()
        invariant
            i <= profiles@.len(),
            forall|j: int| 0 <= j < i ==> profiles@[j] != id,
        decreases profiles@.len() - i,
    {
        if profiles[i] == id {
            assert(profiles@[i as int] == id);
            return true;
        }
        i = i + 1;
    }
    false
}

/// Tabs numbered from 0 have the largest id one below their count.
proof fn lemma_numbered_max(tabs: Seq<TabView>)
    requires
        tabs.len() > 0,
        tabs.len() <= usize::MAX,
        forall|i: int| 0 <= i < tabs.len() ==> (#[trigger] tabs[i]).id == TabId(i as u64),
    ensures
        max_tab_id(tabs) == tabs.len() - 1,
    decreases tabs.len(),
{
    let rest = tabs.drop_last();
    if tabs.len() > 1 {
        assert forall|i: int| 0 <= i < rest.len() implies (#[trigger] rest[i]).id == TabId(
            i as u64,
        ) by {
            assert(rest[i] == tabs[i]);
        }
        lemma_numbered_max(rest);
        assert(max_tab_id(rest) == tabs.len() - 2);
    } else {
        assert(rest.len() == 0);
        assert(max_tab_id(rest) == 0);
    }
    assert(tabs.last() == tabs[tabs.len() - 1]);
    assert(tabs.last().id == TabId((tabs.len() - 1) as u64));
    assert(tabs.last().id.0 == tabs.len() - 1);
}

impl LayoutSnapshot {
    /// An empty snapshot of the current schema.
    pub fn empty() -> (r: Self)
        ensures
            r@ == (LayoutSnapshotView {
                schema_version: SCHEMA_VERSION,
                active_profile_id: None,
                active_tab_index: 0,
                tabs: Seq::empty(),
            }),
    {
        let r = LayoutSnapshot {
            schema_version: SCHEMA_VERSION,
            active_profile_id: None,
            active_tab_index: 0,
            tabs: Vec::new(),
        };
        assert(stored_views(r.tabs@) =~= Seq::empty());
        r
    }

    /// The snapshot of the tabs and the active profile.
    pub fn from_collection(collection: &TabCollection, active_profile_id: Option<ProfileId>) -> (r:
        Self)
        ensures
            r@ == snapshot_of(collection@, active_profile_id),
    {
        let source = collection.tabs();
        let ghost views = tab_views(source@);
        let mut tabs: Vec<LayoutTab> = Vec::new();
        let mut i: usize = 0;
        while i < source.len()
            invariant
                i <= source@.len(),
                views == tab_views(source@),
                stored_views(tabs@) == views.take(i as int).map_values(|t: TabView| stored_tab(t)),
            decreases source@.len() - i,
        {
            let tab = LayoutTab::from_tab(&source[i]);
            proof {
                assert(views[i as int] == source@[i as int]@);
                assert(tab@ == stored_tab(views[i as int]));
            }
            let ghost before = tabs@;
            tabs.push(tab);
            proof {
                assert(stored_views(tabs@) =~= stored_views(before).push(tab@));
                assert(views.take(i + 1).map_values(|t: TabView| stored_tab(t)) =~= views.take(
                    i as int,
                ).map_values(|t: TabView| stored_tab(t)).push(stored_tab(views[i as int])));
                assert(stored_views(tabs@) =~= views.take(i + 1).map_values(
                    |t: TabView| stored_tab(t),
                ));
            }
            i = i + 1;
        }
        proof {
            assert(views.take(views.len() as int) =~= views);
        }
        LayoutSnapshot {
            schema_version: SCHEMA_VERSION,
            active_profile_id,
            active_tab_index: collection.active_index(),
            tabs,
        }
    }

    /// Checks the schema version and that every tab restores, in order.
    pub fn validate(&self) -> (r: Result<(), WorkspaceError>)
        ensures
            match snapshot_issue(self@) {
                Some(e) => r matches Err(x) && x@ == e,
                None => r is Ok,
            },
    {
        if self.schema_version != SCHEMA_VERSION {
            return Err(WorkspaceError::UnsupportedVersion(self.schema_version));
        }
        let ghost views = self@.tabs;
        let mut i: usize = 0;
        while i < self.tabs.len()
            invariant
                self.schema_version == SCHEMA_VERSION,
                i <= self.tabs@.len(),
                views == stored_views(self.tabs@),
                stored_tabs_issue(views.take(i as int)) is None,
            decreases self.tabs@.len() - i,
        {
            proof {
                assert(views.take(i + 1).drop_last() =~= views.take(i as int));
            }
            match self.tabs[i].clone().into_tab(TabId::new(i as u64)) {
                Ok(_) => {},
                Err(e) => {
                    proof {
                        assert(views[i as int] == self.tabs@[i as int]@);
                        assert(views.take(i + 1).last() == views[i as int]);
                        assert(stored_tabs_issue(views.take(i + 1)) == stored_tab_issue(
                            views[i as int],
                        ));
                        lemma_first_issue_stays(views, i as int + 1);
                    }
                    return Err(e);
                },
            }
            i = i + 1;
        }
        proof {
            assert(views.take(views.len() as int) =~= views);
        }
        Ok(())
    }

    /// Restores the tab collection. An unknown schema version or a tab that
    /// does not restore is an error. A stored active profile that is not
    /// among `profiles` is dropped with a warning.
    pub fn into_collection(snapshot: LayoutSnapshot, profiles: &[ProfileId]) -> (r: Result<
        (TabCollection, Option<ProfileId>, Vec<WorkspaceWarning>),
        WorkspaceError,
    >)
        ensures
            match snapshot_issue(snapshot@) {
                Some(e) => r matches Err(x) && x@ == e,
                None => r matches Ok((c, p, w)) && c@.well_formed() && restored_from(
                    c@,
                    snapshot@,
                ) && p == kept_profile(snapshot@.active_profile_id, profiles@) && w@
                    == restore_warnings(snapshot@.active_profile_id, profiles@),
            },
    {
        if snapshot.schema_version != SCHEMA_VERSION {
            return Err(WorkspaceError::UnsupportedVersion(snapshot.schema_version));
        }
        let mut warnings: Vec<WorkspaceWarning> = Vec::new();
        let active_profile_id = match snapshot.active_profile_id {
            Some(id) => {
                if contains_profile(profiles, id) {
                    Some(id)
                } else {
                    warnings.push(WorkspaceWarning::ActiveProfileMissing);
                    None
                }
            },
            None => None,
        };
        let ghost views = snapshot@.tabs;
        let mut tabs: Vec<TabInfo> = Vec::new();
        let mut i: usize = 0;
        while i < snapshot.tabs.len()
            invariant
                snapshot.schema_version == SCHEMA_VERSION,
                i <= snapshot.tabs@.len(),
                views == stored_views(snapshot.tabs@),
                stored_tabs_issue(views.take(i as int)) is None,
                tabs@.len() == i,
                forall|j: int|
                    0 <= j < i ==> (#[trigger] tabs@[j])@ == restored_tab(views[j], TabId(j as u64)),
            decreases snapshot.tabs@.len() - i,
        {
            proof {
                assert(views.take(i + 1).drop_last() =~= views.take(i as int));
            }
            match snapshot.tabs[i].clone().into_tab(TabId::new(i as u64)) {
                Ok(tab) => {
                    tabs.push(tab);
                },
                Err(e) => {
                    proof {
                        assert(views[i as int] == snapshot.tabs@[i as int]@);
                        assert(views.take(i + 1).last() == views[i as int]);
                        assert(stored_tabs_issue(views.take(i + 1)) == stored_tab_issue(
                            views[i as int],
                        ));
                        lemma_first_issue_stays(views, i as int + 1);
                    }
                    return Err(e);
                },
            }
            i = i + 1;
        }
        proof {
            assert(views.take(views.len() as int) =~= views);
            if tabs@.len() > 0 {
                assert(tabs@.len() == tabs.len());
                let tv = tab_views(tabs@);
                assert forall|j: int| 0 <= j < tv.len() implies (#[trigger] tv[j]).id == TabId(
                    j as u64,
                ) by {
                    assert(tv[j] == tabs@[j]@);
                }
                lemma_numbered_max(tv);
            }
        }
        let collection = match TabCollection::from_tabs(tabs, snapshot.active_tab_index) {
            Some(c) => c,
            None => return Err(WorkspaceError::InvalidLayout),
        };
        proof {
            if views.len() > 0 {
                assert forall|j: int| 0 <= j < views.len() implies #[trigger] collection@.tabs[j]
                    == restored_tab(views[j], TabId(j as u64)) by {}
            }
            assert(warnings@ =~= restore_warnings(snapshot@.active_profile_id, profiles@));
        }
        Ok((collection, active_profile_id, warnings))
    }
}

/// Once a prefix of the tabs has a problem, every longer prefix has that
/// same first problem.
proof fn lemma_first_issue_stays(tabs: Seq<LayoutTabView>, k: int)
    requires
        0 <= k <= tabs.len(),
        stored_tabs_issue(tabs.take(k)) is Some,
    ensures
        stored_tabs_issue(tabs) == stored_tabs_issue(tabs.take(k)),
    decreases tabs.len() - k,
{
    if k < tabs.len() {
        assert(tabs.take(k + 1).drop_last() =~= tabs.take(k));
        lemma_first_issue_stays(tabs, k + 1);
    } else {
        assert(tabs.take(k) =~= tabs);
    }
}

/// Stored tabs without a problem each have no first problem either.
proof fn lemma_no_tab_issue(tabs: Seq<LayoutTabView>)
    requires
        forall|i: int| 0 <= i < tabs.len() ==> (#[trigger] stored_tab_issue(tabs[i])) is None,
    ensures
        stored_tabs_issue(tabs) is None,
    decreases tabs.len(),
{
    if tabs.len() > 0 {
        let rest = tabs.drop_last();
        assert forall|i: int| 0 <= i < rest.len() implies (#[trigger] stored_tab_issue(
            rest[i],
        )) is None by {
            assert(rest[i] == tabs[i]);
            assert(stored_tab_issue(tabs[i]) is None);
        }
        lemma_no_tab_issue(rest);
        assert(stored_tab_issue(tabs[tabs.len() - 1]) is None);
    }
}

/// Taking a collection apart into a snapshot and restoring it gives back
/// its tabs in order (titles, custom titles, start configurations and pane
/// nodes) and its active tab. Holds for a collection with at least one tab
/// whose pane trees are valid (as every pane tree is) and whose start
/// configurations pass the schema; the restored tabs are numbered from 0
/// and focus their first pane.
pub proof fn law_snapshot_round_trip(
    c: TabCollectionView,
    active_profile_id: Option<ProfileId>,
    r: TabCollectionView,
)
    requires
        c.well_formed(),
        c.tabs.len() > 0,
        forall|i: int| 0 <= i < c.tabs.len() ==> (#[trigger] c.tabs[i]).tree.well_formed(),
        forall|i: int|
            0 <= i < c.tabs.len() ==> ((#[trigger] c.tabs[i]).start_config matches Some(sc)
                ==> start_config_valid(sc)),
        restored_from(r, snapshot_of(c, active_profile_id)),
    ensures
        snapshot_issue(snapshot_of(c, active_profile_id)) is None,
        r.tabs.len() == c.tabs.len(),
        r.active_index == c.active_index,
        forall|i: int|
            0 <= i < c.tabs.len() ==> {
                &&& (#[trigger] r.tabs[i]).title == c.tabs[i].title
                &&& r.tabs[i].custom_title == c.tabs[i].custom_title
                &&& r.tabs[i].start_config == c.tabs[i].start_config
                &&& r.tabs[i].tree.root == c.tabs[i].tree.root
            },
{
    let s = snapshot_of(c, active_profile_id);
    assert forall|i: int| 0 <= i < s.tabs.len() implies (#[trigger] stored_tab_issue(
        s.tabs[i],
    )) is None by {
        assert(s.tabs[i] == stored_tab(c.tabs[i]));
        crate::pane::laws::law_valid_tree_restores(c.tabs[i].tree);
    }
    lemma_no_tab_issue(s.tabs);
    assert forall|i: int| 0 <= i < c.tabs.len() implies {
        &&& (#[trigger] r.tabs[i]).title == c.tabs[i].title
        &&& r.tabs[i].custom_title == c.tabs[i].custom_title
        &&& r.tabs[i].start_config == c.tabs[i].start_config
        &&& r.tabs[i].tree.root == c.tabs[i].tree.root
    } by {
        assert(s.tabs[i] == stored_tab(c.tabs[i]));
        assert(r.tabs[i] == restored_tab(s.tabs[i], TabId(i as u64)));
        crate::pane::laws::law_valid_tree_restores(c.tabs[i].tree);
    }
}

/// On restore the stored active profile stays when it still exists, and
/// is dropped with a single warning when it does not.
pub proof fn law_active_profile_kept_or_reported(id: ProfileId, profiles: Seq<ProfileId>)
    ensures
        profiles.contains(id) ==> kept_profile(Some(id), profiles) == Some(id) && restore_warnings(
            Some(id),
            profiles,
        ).len() == 0,
        !profiles.contains(id) ==> kept_profile(Some(id), profiles) is None && restore_warnings(
            Some(id),
            profiles,
        ) == seq![WorkspaceWarning::ActiveProfileMissing],
{
}

} // verus!

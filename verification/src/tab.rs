//! The ordered list of tabs and which one is active. Holds no GTK or VTE
//! types: the user interface maps tab ids to its widgets.
use vstd::prelude::*;

use crate::pane::tree::{closed_tree, close_result, initial_tree, moved_tree, split_tree};
use crate::pane::{default_title, Direction, Orientation, PaneId, PaneTree, PaneTreeView};
use crate::workspace::start_config::clone_optional_text;
use crate::workspace::{StartConfig, StartConfigView};

verus! {

/// Identity of a tab.
#[derive(Debug, Clone, Copy, PartialEq, Eq, Hash, Structural)]
pub struct TabId(pub u64);

impl TabId {
    pub fn new(id: u64) -> (r: Self)
        ensures
            r.0 == id,
    {
        TabId(id)
    }

    pub fn as_u64(self) -> (r: u64)
        ensures
            r == self.0,
    {
        self.0
    }
}

/// One tab: its title, its pane tree, and what the layout keeps of it.
#[derive(Debug)]
pub struct TabInfo {
    pub id: TabId,
    pub title: String,
    pub pane_tree: PaneTree,
    pub custom_title: Option<String>,
    pub start_config: Option<StartConfig>,
}

impl Clone for TabInfo {
    fn clone(&self) -> (r: Self)
        ensures
            r@ == self@,
    {
        TabInfo {
            id: self.id,
            title: self.title.clone(),
            pane_tree: self.pane_tree.clone(),
            custom_title: clone_optional_text(&self.custom_title),
            start_config: match &self.start_config {
                Some(c) => Some(c.clone()),
                None => None,
            },
        }
    }
}

/// The label of a tab: its custom title if it has one, else its title.
pub open spec fn tab_label(tab: TabView) -> Seq<char> {
    match tab.custom_title {
        Some(t) => t,
        None => tab.title,
    }
}

impl TabInfo {
    /// The label shown for the tab.
    pub fn display_title(&self) -> (r: String)
        ensures
            r@ == tab_label(self@),
    {
        match &self.custom_title {
            Some(t) => t.clone(),
            None => self.title.clone(),
        }
    }

    pub fn new(id: TabId, title: String, pane_tree: PaneTree) -> (r: Self)
        ensures
            r.id == id,
            r.title == title,
            r.pane_tree == pane_tree,
            r.custom_title is None,
            r.start_config is None,
    {
        TabInfo { id, title, pane_tree, custom_title: None, start_config: None }
    }
}

/// What a tab is.
pub struct TabView {
    pub id: TabId,
    pub title: Seq<char>,
    pub tree: PaneTreeView,
    pub custom_title: Option<Seq<char>>,
    pub start_config: Option<StartConfigView>,
}

impl View for TabInfo {
    type V = TabView;

    open spec fn view(&self) -> TabView {
        TabView {
            id: self.id,
            title: self.title@,
            tree: self.pane_tree@,
            custom_title: match self.custom_title {
                Some(t) => Some(t@),
                None => None,
            },
            start_config: match self.start_config {
                Some(c) => Some(c@),
                None => None,
            },
        }
    }
}

/// The views of a sequence of tabs.
pub open spec fn tab_views(tabs: Seq<TabInfo>) -> Seq<TabView> {
    tabs.map_values(|t: TabInfo| t@)
}

/// A tab as `add` and `new` create it: default title, one pane.
pub open spec fn fresh_tab(tab: TabView, id: TabId) -> bool {
    &&& tab.id == id
    &&& tab.title == default_title()
    &&& tab.tree == initial_tree()
    &&& tab.custom_title is None
    &&& tab.start_config is None
}

/// What a tab collection is.
pub struct TabCollectionView {
    pub tabs: Seq<TabView>,
    pub active_index: usize,
    pub next_id: u64,
}

impl TabCollectionView {
    /// The invariant: the tabs fit in memory, the active index points at a
    /// tab (or is 0 when there is none), and the next id is larger than
    /// every tab id.
    pub open spec fn well_formed(self) -> bool {
        &&& self.tabs.len() <= usize::MAX
        &&& self.tabs.len() == 0 ==> self.active_index == 0
        &&& self.tabs.len() > 0 ==> self.active_index < self.tabs.len()
        &&& forall|i: int| 0 <= i < self.tabs.len() ==> (#[trigger] self.tabs[i]).id.0 < self.next_id
    }

    /// The active tab (meaningful when there is one).
    pub open spec fn active(self) -> TabView {
        self.tabs[self.active_index as int]
    }

    /// The collection with the tree of tab `i` replaced.
    pub open spec fn with_tree(self, i: int, tree: PaneTreeView) -> TabCollectionView {
        TabCollectionView { tabs: self.tabs.update(i, TabView { tree, ..self.tabs[i] }), ..self }
    }

    /// The collection with the title of tab `i` replaced.
    pub open spec fn with_title(self, i: int, title: Seq<char>) -> TabCollectionView {
        TabCollectionView { tabs: self.tabs.update(i, TabView { title, ..self.tabs[i] }), ..self }
    }

    /// The collection with the active index replaced.
    pub open spec fn with_active(self, index: usize) -> TabCollectionView {
        TabCollectionView { active_index: index, ..self }
    }

    /// The collection after removing tab `i`; see [`TabCollection::remove`].
    pub open spec fn without(self, i: int) -> TabCollectionView {
        TabCollectionView {
            tabs: self.tabs.remove(i),
            active_index: active_after_removal(self.active_index, i, self.tabs.len() - 1),
            next_id: self.next_id,
        }
    }

    /// The active index after [`TabCollection::next`].
    pub open spec fn next_index(self) -> usize {
        if self.tabs.len() > 1 {
            ((self.active_index + 1) % (self.tabs.len() as int)) as usize
        } else {
            self.active_index
        }
    }

    /// The active index after [`TabCollection::prev`].
    pub open spec fn prev_index(self) -> usize {
        if self.tabs.len() > 1 {
            if self.active_index == 0 {
                (self.tabs.len() - 1) as usize
            } else {
                (self.active_index - 1) as usize
            }
        } else {
            self.active_index
        }
    }
}

/// `i` is the position of the first tab with this id.
pub open spec fn first_with(tabs: Seq<TabView>, id: TabId, i: int) -> bool {
    &&& 0 <= i < tabs.len()
    &&& tabs[i].id == id
    &&& forall|j: int| 0 <= j < i ==> (#[trigger] tabs[j]).id != id
}

/// The position of the first tab with this id.
pub open spec fn tab_position(tabs: Seq<TabView>, id: TabId) -> Option<int> {
    if exists|i: int| first_with(tabs, id, i) {
        Some(choose|i: int| first_with(tabs, id, i))
    } else {
        None
    }
}

/// The largest tab id (0 for no tabs).
pub open spec fn max_tab_id(tabs: Seq<TabView>) -> u64
    decreases tabs.len(),
{
    if tabs.len() == 0 {
        0
    } else {
        let rest = max_tab_id(tabs.drop_last());
        if rest < tabs.last().id.0 {
            tabs.last().id.0
        } else {
            rest
        }
    }
}

/// The active index after removing the tab at `index`, leaving `len` tabs.
pub open spec fn active_after_removal(active: usize, index: int, len: int) -> usize {
    if len == 0 {
        active
    } else if index < active {
        (active - 1) as usize
    } else if active >= len {
        (len - 1) as usize
    } else {
        active
    }
}

/// Only one position is the first with an id.
proof fn lemma_first_unique(tabs: Seq<TabView>, id: TabId, i: int, k: int)
    requires
        first_with(tabs, id, i),
        first_with(tabs, id, k),
    ensures
        i == k,
{
    if i < k {
        assert(tabs[i].id != id);
    } else if k < i {
        assert(tabs[k].id != id);
    }
}

/// The position of the first tab with this id.
fn position(tabs: &Vec<TabInfo>, id: TabId) -> (r: Option<usize>)
    ensures
        r matches Some(i) ==> tab_position(tab_views(tabs@), id) == Some(i as int),
        r is None ==> tab_position(tab_views(tabs@), id) is None,
{
    let ghost views = tab_views(tabs@);
    let mut i: usize = 0;
    while i < tabs.len()
        invariant
            i <= tabs@.len(),
            views == tab_views(tabs@),
            forall|j: int| 0 <= j < i ==> (#[trigger] views[j]).id != id,
        decreases tabs@.len() - i,
    {
        if tabs[i].id == id {
            proof {
                assert(first_with(views, id, i as int));
                let c = choose|k: int| first_with(views, id, k);
                lemma_first_unique(views, id, i as int, c);
            }
            return Some(i);
        }
        assert(views[i as int].id != id);
        i = i + 1;
    }
    proof {
        assert forall|k: int| !first_with(views, id, k) by {
            if 0 <= k < views.len() {
                assert(views[k].id != id);
            }
        }
    }
    None
}

/// What the window does when the shell of a pane ended normally.
#[derive(Debug, Clone, Copy, PartialEq, Eq, Structural)]
pub enum PaneExit {
    /// No tab has this id; nothing to do.
    UnknownTab,
    /// The pane was the last one of the last tab: close the window.
    CloseWindow,
    /// The pane was the only one of its tab: remove the tab.
    RemoveTab,
    /// The pane was closed; this pane of the tab is focused now.
    PaneClosed(PaneId),
    /// The tab does not hold the pane; nothing changed.
    PaneKept,
}

/// The ordered tabs and the active one. Holds no widgets: the user
/// interface maps [`TabId`]s to them.
#[derive(Debug)]
pub struct TabCollection {
    tabs: Vec<TabInfo>,
    active_index: usize,
    next_id: u64,
}

impl View for TabCollection {
    type V = TabCollectionView;

    closed spec fn view(&self) -> TabCollectionView {
        TabCollectionView {
            tabs: tab_views(self.tabs@),
            active_index: self.active_index,
            next_id: self.next_id,
        }
    }
}

impl TabCollection {
    fn fresh(id: TabId) -> (r: TabInfo)
        ensures
            fresh_tab(r@, id),
    {
        let title = "IV".to_owned();
        proof {
            reveal_strlit("IV");
            assert(title@ =~= default_title());
        }
        TabInfo::new(id, title, PaneTree::new())
    }

    /// A collection with one tab (id 0) holding one pane.
    pub fn new() -> (r: Self)
        ensures
            r@.well_formed(),
            r@.tabs.len() == 1,
            fresh_tab(r@.tabs[0], TabId(0)),
            r@.active_index == 0,
            r@.next_id == 1,
    {
        let mut tabs = Vec::new();
        tabs.push(Self::fresh(TabId::new(0)));
        assert(tabs@.len() == tabs.len());
        TabCollection { tabs, active_index: 0, next_id: 1 }
    }

    /// Restores a collection from tabs. No tabs give a new collection;
    /// otherwise the active index is clamped to the last tab and new ids
    /// continue after the largest one (`None` when there is no room).
    pub fn from_tabs(tabs: Vec<TabInfo>, active_index: usize) -> (r: Option<Self>)
        ensures
            r matches Some(c) ==> c@.well_formed(),
            tabs@.len() == 0 ==> (r matches Some(c) && c@.tabs.len() == 1 && fresh_tab(
                c@.tabs[0],
                TabId(0),
            ) && c@.active_index == 0 && c@.next_id == 1),
            tabs@.len() > 0 ==> (r is Some <==> max_tab_id(tab_views(tabs@)) < u64::MAX),
            tabs@.len() > 0 ==> (r matches Some(c) ==> c@ == TabCollectionView {
                tabs: tab_views(tabs@),
                active_index: if active_index < tabs@.len() {
                    active_index
                } else {
                    (tabs@.len() - 1) as usize
                },
                next_id: (max_tab_id(tab_views(tabs@)) + 1) as u64,
            }),
    {
        if tabs.len() == 0 {
            return Some(Self::new());
        }
        let ghost views = tab_views(tabs@);
        let mut max: u64 = 0;
        let mut i: usize = 0;
        while i < tabs.len()
            invariant
                i <= tabs@.len(),
                views == tab_views(tabs@),
                max == max_tab_id(views.take(i as int)),
                forall|j: int| 0 <= j < i ==> (#[trigger] views[j]).id.0 <= max,
            decreases tabs@.len() - i,
        {
            proof {
                assert(views.take(i + 1).drop_last() =~= views.take(i as int));
            }
            if max < tabs[i].id.as_u64() {
                max = tabs[i].id.as_u64();
            }
            i = i + 1;
        }
        proof {
            assert(views.take(views.len() as int) =~= views);
        }
        if max == u64::MAX {
            return None;
        }
        let active_index = if active_index < tabs.len() {
            active_index
        } else {
            tabs.len() - 1
        };
        assert(tabs@.len() == tabs.len());
        Some(TabCollection { tabs, active_index, next_id: max + 1 })
    }

    /// Whether [`add`](Self::add) has an id left to hand out.
    pub fn can_add(&self) -> (r: bool)
        ensures
            r == (self@.next_id < u64::MAX),
    {
        self.next_id < u64::MAX
    }

    /// Adds a new tab at the end and activates it. Returns its id and index.
    pub fn add(&mut self) -> (r: (TabId, usize))
        requires
            old(self)@.well_formed(),
            old(self)@.next_id < u64::MAX,
        ensures
            final(self)@.well_formed(),
            r.0 == TabId(old(self)@.next_id),
            r.1 == old(self)@.tabs.len(),
            final(self)@.tabs == old(self)@.tabs.push(final(self)@.tabs[r.1 as int]),
            fresh_tab(final(self)@.tabs[r.1 as int], r.0),
            final(self)@.active_index == r.1,
            final(self)@.next_id == old(self)@.next_id + 1,
    {
        let id = TabId::new(self.next_id);
        self.next_id = self.next_id + 1;
        let index = self.tabs.len();
        self.tabs.push(Self::fresh(id));
        self.active_index = index;
        proof {
            assert(self@.tabs =~= old(self)@.tabs.push(self.tabs@[index as int]@));
            assert(self.tabs@.len() == self.tabs.len());
        }
        (id, index)
    }

    /// Removes the first tab with this id and returns it (`None`, and no
    /// change, when there is none). The active index then follows the tab
    /// it pointed at; if that tab was removed, the tab now at its place (or
    /// the last) becomes active. An empty collection means the caller
    /// closes the window.
    pub fn remove(&mut self, id: TabId) -> (r: Option<TabInfo>)
        requires
            old(self)@.well_formed(),
        ensures
            final(self)@.well_formed(),
            match tab_position(old(self)@.tabs, id) {
                None => r is None && final(self)@ == old(self)@,
                Some(i) => r matches Some(t) && t@ == old(self)@.tabs[i] && final(self)@
                    == old(self)@.without(i),
            },
    {
        let index = match position(&self.tabs, id) {
            Some(i) => i,
            None => return None,
        };
        let tab = self.tabs.remove(index);
        let len = self.tabs.len();
        if len > 0 {
            if index < self.active_index {
                self.active_index = self.active_index - 1;
            } else if self.active_index >= len {
                self.active_index = len - 1;
            }
        }
        proof {
            assert(self@.tabs =~= old(self)@.tabs.remove(index as int));
        }
        Some(tab)
    }

    pub fn active_index(&self) -> (r: usize)
        ensures
            r == self@.active_index,
    {
        self.active_index
    }

    /// The id of the active tab.
    pub fn active_id(&self) -> (r: TabId)
        requires
            self@.well_formed(),
            self@.tabs.len() > 0,
        ensures
            r == self@.active().id,
    {
        self.tabs[self.active_index].id
    }

    /// The active tab.
    pub fn active_info(&self) -> (r: &TabInfo)
        requires
            self@.well_formed(),
            self@.tabs.len() > 0,
        ensures
            r@ == self@.active(),
    {
        &self.tabs[self.active_index]
    }

    /// Activates the tab at `index`; an index past the end changes nothing.
    pub fn set_active(&mut self, index: usize)
        requires
            old(self)@.well_formed(),
        ensures
            final(self)@.well_formed(),
            final(self)@ == if index < old(self)@.tabs.len() {
                old(self)@.with_active(index)
            } else {
                old(self)@
            },
    {
        if index < self.tabs.len() {
            self.active_index = index;
        }
    }

    /// Activates the next tab, wrapping from the last to the first.
    pub fn next(&mut self)
        requires
            old(self)@.well_formed(),
        ensures
            final(self)@.well_formed(),
            final(self)@ == old(self)@.with_active(old(self)@.next_index()),
    {
        if self.tabs.len() > 1 {
            self.active_index = (self.active_index + 1) % self.tabs.len();
        }
    }

    /// Activates the previous tab, wrapping from the first to the last.
    pub fn prev(&mut self)
        requires
            old(self)@.well_formed(),
        ensures
            final(self)@.well_formed(),
            final(self)@ == old(self)@.with_active(old(self)@.prev_index()),
    {
        if self.tabs.len() > 1 {
            if self.active_index == 0 {
                self.active_index = self.tabs.len() - 1;
            } else {
                self.active_index = self.active_index - 1;
            }
        }
    }

    pub fn len(&self) -> (r: usize)
        ensures
            r == self@.tabs.len(),
    {
        self.tabs.len()
    }

    /// The tabs, in order.
    pub fn tabs(&self) -> (r: &[TabInfo])
        ensures
            tab_views(r@) == self@.tabs,
    {
        self.tabs.as_slice()
    }

    /// The position of the first tab with this id.
    pub fn find_index(&self, id: TabId) -> (r: Option<usize>)
        ensures
            r matches Some(i) ==> tab_position(self@.tabs, id) == Some(i as int),
            r is None ==> tab_position(self@.tabs, id) is None,
    {
        position(&self.tabs, id)
    }

    /// Gives the first tab with this id the title (no change without one).
    pub fn set_title(&mut self, id: TabId, title: String)
        requires
            old(self)@.well_formed(),
        ensures
            final(self)@.well_formed(),
            final(self)@ == match tab_position(old(self)@.tabs, id) {
                Some(i) => old(self)@.with_title(i, title@),
                None => old(self)@,
            },
    {
        let index = match position(&self.tabs, id) {
            Some(i) => i,
            None => return ,
        };
        self.tabs[index].title = title;
        proof {
            assert(self@.tabs =~= old(self)@.with_title(index as int, title@).tabs);
        }
    }

    /// The focused pane of the active tab.
    pub fn active_pane_id(&self) -> (r: PaneId)
        requires
            self@.well_formed(),
            self@.tabs.len() > 0,
        ensures
            r == self@.active().tree.active,
    {
        self.tabs[self.active_index].pane_tree.active_id()
    }

    /// Splits the focused pane of the active tab; returns the new pane.
    pub fn split_active(&mut self, orientation: Orientation) -> (r: PaneId)
        requires
            old(self)@.well_formed(),
            old(self)@.tabs.len() > 0,
            old(self)@.active().tree.can_split(),
        ensures
            final(self)@.well_formed(),
            r == PaneId(old(self)@.active().tree.next_pane),
            final(self)@ == old(self)@.with_tree(
                old(self)@.active_index as int,
                split_tree(old(self)@.active().tree, orientation),
            ),
    {
        let active = self.active_index;
        let r = self.tabs[active].pane_tree.split_active(orientation);
        proof {
            assert(self@.tabs =~= old(self)@.with_tree(
                active as int,
                split_tree(old(self)@.active().tree, orientation),
            ).tabs);
        }
        r
    }

    /// Closes the focused pane of the active tab. Returns the pane focused
    /// afterwards, or `None` if it was the last pane (the caller then
    /// closes the tab).
    pub fn close_active_pane(&mut self) -> (r: Option<PaneId>)
        requires
            old(self)@.well_formed(),
            old(self)@.tabs.len() > 0,
        ensures
            final(self)@.well_formed(),
            r == close_result(old(self)@.active().tree, old(self)@.active().tree.active),
            final(self)@ == old(self)@.with_tree(
                old(self)@.active_index as int,
                closed_tree(old(self)@.active().tree, old(self)@.active().tree.active),
            ),
    {
        let active = self.active_index;
        let r = self.tabs[active].pane_tree.close_active();
        proof {
            let t = old(self)@.active().tree;
            assert(self@.tabs =~= old(self)@.with_tree(active as int, closed_tree(t, t.active)).tabs);
        }
        r
    }

    /// Moves the focus within the active tab; returns whether it moved.
    pub fn move_pane_focus(&mut self, direction: Direction) -> (r: bool)
        requires
            old(self)@.well_formed(),
            old(self)@.tabs.len() > 0,
        ensures
            final(self)@.well_formed(),
            r == old(self)@.active().tree.root.neighbor(
                old(self)@.active().tree.active,
                direction,
            ) is Some,
            final(self)@ == old(self)@.with_tree(
                old(self)@.active_index as int,
                moved_tree(old(self)@.active().tree, direction),
            ),
    {
        let active = self.active_index;
        let r = self.tabs[active].pane_tree.move_focus(direction);
        proof {
            assert(self@.tabs =~= old(self)@.with_tree(
                active as int,
                moved_tree(old(self)@.active().tree, direction),
            ).tabs);
        }
        r
    }

    /// Handles the normal end of the shell of a pane: the last pane of a
    /// tab takes the tab (or, for the last tab, the window) with it;
    /// otherwise the pane is closed in its tree.
    pub fn pane_exited(&mut self, tab_id: TabId, pane_id: PaneId) -> (r: PaneExit)
        requires
            old(self)@.well_formed(),
        ensures
            final(self)@.well_formed(),
            match tab_position(old(self)@.tabs, tab_id) {
                None => r == PaneExit::UnknownTab && final(self)@ == old(self)@,
                Some(i) => {
                    let tree = old(self)@.tabs[i].tree;
                    if tree.root.is_leaf() {
                        &&& r == if old(self)@.tabs.len() <= 1 {
                            PaneExit::CloseWindow
                        } else {
                            PaneExit::RemoveTab
                        }
                        &&& final(self)@ == old(self)@
                    } else {
                        &&& r == match close_result(tree, pane_id) {
                            Some(p) => PaneExit::PaneClosed(p),
                            None => PaneExit::PaneKept,
                        }
                        &&& final(self)@ == old(self)@.with_tree(i, closed_tree(tree, pane_id))
                    }
                },
            },
    {
        let index = match position(&self.tabs, tab_id) {
            Some(i) => i,
            None => return PaneExit::UnknownTab,
        };
        if self.tabs[index].pane_tree.is_single() {
            if self.tabs.len() <= 1 {
                return PaneExit::CloseWindow;
            }
            return PaneExit::RemoveTab;
        }
        let closed = self.tabs[index].pane_tree.close(pane_id);
        proof {
            let tree = old(self)@.tabs[index as int].tree;
            assert(self@.tabs =~= old(self)@.with_tree(index as int, closed_tree(tree, pane_id)).tabs);
        }
        match closed {
            Some(p) => PaneExit::PaneClosed(p),
            None => PaneExit::PaneKept,
        }
    }

    /// The pane tree of the first tab with this id.
    pub fn pane_tree_for_tab(&self, tab_id: TabId) -> (r: Option<&PaneTree>)
        ensures
            match tab_position(self@.tabs, tab_id) {
                Some(i) => r matches Some(t) && t@ == self@.tabs[i].tree,
                None => r is None,
            },
    {
        match position(&self.tabs, tab_id) {
            Some(i) => Some(&self.tabs[i].pane_tree),
            None => None,
        }
    }

    /// The pane tree of the first tab with this id, to change it.
    pub fn pane_tree_for_tab_mut(&mut self, tab_id: TabId) -> (r: Option<&mut PaneTree>)
        requires
            old(self)@.well_formed(),
        ensures
            final(self)@.well_formed(),
            match tab_position(old(self)@.tabs, tab_id) {
                Some(i) => r matches Some(t) && t@ == old(self)@.tabs[i].tree && final(self)@
                    == old(self)@.with_tree(i, final(t)@),
                None => r is None && final(self)@ == old(self)@,
            },
    {
        match position(&self.tabs, tab_id) {
            Some(i) => {
                let r = &mut self.tabs[i].pane_tree;
                proof {
                    assert(after_borrow(self)@.tabs =~= old(self)@.with_tree(i as int, final(r)@).tabs);
                }
                Some(r)
            },
            None => None,
        }
    }
}

/// Stepping to the next tab and back to the previous one returns to the
/// tab one started from, and so does the reverse.
pub proof fn law_next_prev_inverse(c: TabCollectionView)
    requires
        c.well_formed(),
    ensures
        c.with_active(c.next_index()).prev_index() == c.active_index,
        c.with_active(c.prev_index()).next_index() == c.active_index,
{
    let n = c.tabs.len() as int;
    let a = c.active_index as int;
    let fwd = c.with_active(c.next_index());
    let back = c.with_active(c.prev_index());
    assert(fwd.tabs.len() == n && back.tabs.len() == n);
    if n > 1 {
        if a + 1 < n {
            assert((a + 1) % n == a + 1) by (nonlinear_arith)
                requires
                    0 <= a + 1 < n,
            ;
            assert(fwd.active_index == a + 1);
        } else {
            assert((a + 1) % n == 0) by (nonlinear_arith)
                requires
                    a + 1 == n,
                    n > 1,
            ;
            assert(fwd.active_index == 0);
        }
        if a == 0 {
            assert(back.active_index == n - 1);
            assert((n - 1 + 1) % n == 0) by (nonlinear_arith)
                requires
                    n > 1,
            ;
        } else {
            assert(back.active_index == a - 1);
            assert((a - 1 + 1) % n == a) by (nonlinear_arith)
                requires
                    0 < a < n,
            ;
        }
    }
}

/// Removing a tab other than the active one keeps the same tab active,
/// and the collection stays well formed.
pub proof fn law_remove_other_keeps_active(c: TabCollectionView, i: int)
    requires
        c.well_formed(),
        0 <= i < c.tabs.len(),
        i != c.active_index,
    ensures
        c.without(i).well_formed(),
        c.without(i).active() == c.active(),
{
    let d = c.without(i);
    assert forall|k: int| 0 <= k < d.tabs.len() implies (#[trigger] d.tabs[k]).id.0 < d.next_id by {
        if k < i {
            assert(d.tabs[k] == c.tabs[k]);
        } else {
            assert(d.tabs[k] == c.tabs[k + 1]);
        }
    }
}

/// Removing any tab keeps the collection well formed.
pub proof fn law_remove_keeps_well_formed(c: TabCollectionView, i: int)
    requires
        c.well_formed(),
        0 <= i < c.tabs.len(),
    ensures
        c.without(i).well_formed(),
{
    let d = c.without(i);
    assert forall|k: int| 0 <= k < d.tabs.len() implies (#[trigger] d.tabs[k]).id.0 < d.next_id by {
        if k < i {
            assert(d.tabs[k] == c.tabs[k]);
        } else {
            assert(d.tabs[k] == c.tabs[k + 1]);
        }
    }
}

/// The id that the next added tab receives is held by no tab yet.
pub proof fn law_added_id_is_fresh(c: TabCollectionView)
    requires
        c.well_formed(),
    ensures
        forall|j: int| 0 <= j < c.tabs.len() ==> (#[trigger] c.tabs[j]).id != TabId(c.next_id),
{
}

} // verus!

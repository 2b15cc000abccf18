use iv::pane::{Direction, Orientation, PaneTree};
use iv::tab::{TabCollection, TabId, TabInfo};

#[test]
fn initial_collection_has_one_tab() {
    let c = TabCollection::new();
    assert_eq!(c.len(), 1);
    assert_eq!(c.active_index(), 0);
    assert_eq!(c.active_id(), TabId::new(0));
}

#[test]
fn add_increases_count_and_activates_new_tab() {
    let mut c = TabCollection::new();
    let (id1, idx1) = c.add();
    assert_eq!(c.len(), 2);
    assert_eq!(idx1, 1);
    assert_eq!(c.active_index(), 1);
    assert_eq!(id1, TabId::new(1));

    let (id2, idx2) = c.add();
    assert_eq!(c.len(), 3);
    assert_eq!(idx2, 2);
    assert_eq!(c.active_index(), 2);
    assert_eq!(id2, TabId::new(2));
}

#[test]
fn remove_active_adjusts_index() {
    let mut c = TabCollection::new();
    let (_id1, _) = c.add();
    let (id2, _) = c.add();
    assert_eq!(c.active_index(), 2);

    c.remove(id2);
    assert_eq!(c.len(), 2);
    assert_eq!(c.active_index(), 1);
}

#[test]
fn remove_non_active_keeps_index() {
    let mut c = TabCollection::new();
    c.add();
    let (id2, _) = c.add();
    // active is 2
    c.set_active(0);

    c.remove(id2);
    assert_eq!(c.len(), 2);
    assert_eq!(c.active_index(), 0);
}

#[test]
fn removing_tab_before_active_preserves_active_id() {
    let mut c = TabCollection::new();
    let (id1, _) = c.add();
    let (id2, _) = c.add();
    c.add();
    c.set_active(2);
    assert_eq!(c.active_id(), id2);

    c.remove(id1);

    assert_eq!(c.active_id(), id2);
    assert_eq!(c.active_index(), 1);
}

#[test]
fn remove_last_tab_empties_collection() {
    let mut c = TabCollection::new();
    let id = c.tabs()[0].id;
    c.remove(id);
    assert_eq!(c.len(), 0);
}

#[test]
fn remove_non_existent_returns_none() {
    let mut c = TabCollection::new();
    assert!(c.remove(TabId::new(999)).is_none());
    assert_eq!(c.len(), 1);
}

#[test]
fn remove_returns_the_removed_tab() {
    let mut c = TabCollection::new();
    let (id, _) = c.add();
    c.set_title(id, "htop".to_owned());
    let removed = c.remove(id).expect("tab exists");
    assert_eq!(removed.id, id);
    assert_eq!(removed.title, "htop");
    assert_eq!(c.find_index(id), None);
}

#[test]
fn next_prev_cycle() {
    let mut c = TabCollection::new();
    c.add();
    c.add();
    // tabs: [0, 1, 2], active: 2

    c.next();
    assert_eq!(c.active_index(), 0);
    c.next();
    assert_eq!(c.active_index(), 1);
    c.prev();
    assert_eq!(c.active_index(), 0);
    c.prev();
    assert_eq!(c.active_index(), 2);
}

#[test]
fn next_then_prev_returns_to_start() {
    let mut c = TabCollection::new();
    c.add();
    c.add();
    c.add();
    for start in 0..4 {
        c.set_active(start);
        c.next();
        c.prev();
        assert_eq!(c.active_index(), start);
        c.prev();
        c.next();
        assert_eq!(c.active_index(), start);
    }
}

#[test]
fn next_prev_single_tab_no_op() {
    let mut c = TabCollection::new();
    c.next();
    assert_eq!(c.active_index(), 0);
    c.prev();
    assert_eq!(c.active_index(), 0);
}

#[test]
fn set_active_clamps() {
    let mut c = TabCollection::new();
    c.set_active(0);
    assert_eq!(c.active_index(), 0);
    c.set_active(5);
    assert_eq!(c.active_index(), 0);
}

#[test]
fn ids_are_unique() {
    let mut c = TabCollection::new();
    let (id1, _) = c.add();
    let (id2, _) = c.add();
    assert_ne!(id1, id2);
}

#[test]
fn set_title_updates_correct_tab() {
    let mut c = TabCollection::new();
    let (id, _) = c.add();
    c.set_title(id, String::from("zsh"));
    assert_eq!(c.tabs()[1].title, "zsh");
    assert_eq!(c.tabs()[0].title, "IV");
}

#[test]
fn find_index_gives_first_position() {
    let mut c = TabCollection::new();
    let (id1, _) = c.add();
    assert_eq!(c.find_index(TabId::new(0)), Some(0));
    assert_eq!(c.find_index(id1), Some(1));
    assert_eq!(c.find_index(TabId::new(7)), None);
}

#[test]
fn from_tabs_clamps_active_and_continues_ids() {
    let tabs = vec![
        TabInfo::new(TabId::new(3), "a".to_owned(), PaneTree::new()),
        TabInfo::new(TabId::new(8), "b".to_owned(), PaneTree::new()),
    ];
    let mut c = TabCollection::from_tabs(tabs, 9).expect("room for ids");
    assert_eq!(c.active_index(), 1);
    assert_eq!(c.add().0, TabId::new(9));
}

#[test]
fn from_tabs_without_tabs_is_new_collection() {
    let c = TabCollection::from_tabs(Vec::new(), 4).expect("new collection");
    assert_eq!(c.len(), 1);
    assert_eq!(c.active_id(), TabId::new(0));
}

#[test]
fn from_tabs_rejects_exhausted_ids() {
    let tabs = vec![TabInfo::new(TabId::new(u64::MAX), "x".to_owned(), PaneTree::new())];
    assert!(TabCollection::from_tabs(tabs, 0).is_none());
}

#[test]
fn pane_operations_reach_the_active_tab() {
    let mut c = TabCollection::new();
    let (second, _) = c.add();
    let new_pane = c.split_active(Orientation::Horizontal);
    assert_eq!(c.active_pane_id(), new_pane);
    assert!(c.move_pane_focus(Direction::Left));
    assert!(c.pane_tree_for_tab(TabId::new(0)).unwrap().is_single());
    assert_eq!(c.pane_tree_for_tab(second).unwrap().leaf_count(), 2);
    assert!(c.close_active_pane().is_some());
    assert!(c.pane_tree_for_tab(second).unwrap().is_single());
    assert_eq!(c.close_active_pane(), None);
    assert!(c.pane_tree_for_tab(TabId::new(5)).is_none());
}

#[test]
fn pane_tree_for_tab_mut_changes_that_tab() {
    let mut c = TabCollection::new();
    let (second, _) = c.add();
    c.set_active(0);
    let tree = c.pane_tree_for_tab_mut(second).expect("tab exists");
    tree.split_active(Orientation::Vertical);
    assert_eq!(c.pane_tree_for_tab(second).unwrap().leaf_count(), 2);
    assert!(c.active_info().pane_tree.is_single());
    assert!(c.pane_tree_for_tab_mut(TabId::new(42)).is_none());
}

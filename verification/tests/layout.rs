use iv::pane::{Orientation, PaneNode, PaneTree};
use iv::tab::{TabCollection, TabId, TabInfo};
use iv::workspace::{
    profile_id_set, LayoutOrientation, LayoutPane, LayoutSnapshot, LayoutSplit, LayoutTab,
    LayoutTerminal, ProfileId, StartConfig, StartProfile, WorkspaceError, WorkspaceWarning,
};

#[test]
fn empty_snapshot_round_trip() {
    let snapshot = LayoutSnapshot::empty();
    let (collection, active_profile, warnings) =
        LayoutSnapshot::into_collection(snapshot, &[]).unwrap();
    assert_eq!(collection.tabs().len(), 1);
    assert_eq!(active_profile, None);
    assert!(warnings.is_empty());
}

#[test]
fn unknown_active_profile_becomes_none() {
    let mut snapshot = LayoutSnapshot::empty();
    snapshot.active_profile_id = Some(ProfileId::new(99));
    let (collection, active_profile, warnings) =
        LayoutSnapshot::into_collection(snapshot, &[]).unwrap();
    assert_eq!(active_profile, None);
    assert_eq!(warnings, vec![WorkspaceWarning::ActiveProfileMissing]);
    assert_eq!(collection.tabs().len(), 1);
}

#[test]
fn known_active_profile_preserved() {
    let mut snapshot = LayoutSnapshot::empty();
    snapshot.active_profile_id = Some(ProfileId::new(7));
    let profiles = vec![ProfileId::new(7)];
    let (_, active_profile, warnings) =
        LayoutSnapshot::into_collection(snapshot, &profiles).unwrap();
    assert_eq!(active_profile, Some(ProfileId::new(7)));
    assert!(warnings.is_empty());
}

#[test]
fn from_collection_round_trip_preserves_tabs() {
    let first = TabInfo::new(TabId::new(0), "IV".to_owned(), PaneTree::new());
    let mut second = TabInfo::new(TabId::new(1), "Recherche".to_owned(), PaneTree::new());
    second.custom_title = Some("Recherche".to_owned());
    second.start_config = Some(StartConfig::new("/tmp", None, None).expect("schema-valid"));
    let active = second.pane_tree.active_id();
    second.pane_tree.set_title(active, "editor".to_owned());
    let collection = TabCollection::from_tabs(vec![first, second], 1).expect("valid tabs");

    let snapshot = LayoutSnapshot::from_collection(&collection, None);
    let (restored, _, warnings) = LayoutSnapshot::into_collection(snapshot, &[]).unwrap();
    assert!(warnings.is_empty());
    assert_eq!(restored.tabs().len(), collection.tabs().len());
    let original = &collection.tabs()[1];
    let restored_tab = &restored.tabs()[1];
    assert_eq!(restored_tab.title, original.title);
    assert_eq!(restored_tab.custom_title, original.custom_title);
    assert_eq!(restored_tab.start_config, original.start_config);
}

#[test]
fn split_orientation_round_trip() {
    // Build a snapshot with a single horizontal split, manually.
    let snapshot = LayoutSnapshot {
        schema_version: 1,
        active_profile_id: None,
        active_tab_index: 0,
        tabs: vec![LayoutTab {
            title: "T".into(),
            custom_title: None,
            start_config: None,
            root: LayoutPane::Split(LayoutSplit {
                id: 0,
                orientation: LayoutOrientation::Horizontal,
                ratio: 0.5f64.to_bits(),
                first: Box::new(LayoutPane::Terminal(LayoutTerminal {
                    id: 0,
                    title: "left".into(),
                })),
                second: Box::new(LayoutPane::Terminal(LayoutTerminal {
                    id: 1,
                    title: "right".into(),
                })),
            }),
        }],
    };
    let (collection, _, _) = LayoutSnapshot::into_collection(snapshot, &[]).unwrap();
    assert_eq!(collection.tabs().len(), 1);
    assert!(!collection.tabs()[0].pane_tree.is_single());
    let split_node = collection.tabs()[0].pane_tree.root();
    assert!(matches!(
        split_node,
        PaneNode::Split {
            orientation: Orientation::Horizontal,
            ..
        }
    ));
}

#[test]
fn round_trip_keeps_pane_nodes_and_active_tab() {
    let mut collection = TabCollection::new();
    collection.split_active(Orientation::Vertical);
    collection.add();
    collection.set_title(TabId::new(1), "logs".to_owned());
    collection.set_active(0);
    let snapshot = LayoutSnapshot::from_collection(&collection, Some(ProfileId::new(2)));
    assert_eq!(snapshot.active_tab_index, 0);
    assert_eq!(snapshot.tabs.len(), 2);
    let (restored, profile, warnings) =
        LayoutSnapshot::into_collection(snapshot, &[ProfileId::new(2)]).unwrap();
    assert_eq!(profile, Some(ProfileId::new(2)));
    assert!(warnings.is_empty());
    assert_eq!(restored.active_index(), 0);
    assert_eq!(restored.tabs()[1].title, "logs");
    assert_eq!(
        restored.tabs()[0].pane_tree.pane_ids(),
        collection.tabs()[0].pane_tree.pane_ids()
    );
    assert_eq!(restored.tabs()[1].id, TabId::new(1));
}

#[test]
fn unsupported_snapshot_version_is_an_error() {
    let mut snapshot = LayoutSnapshot::empty();
    snapshot.schema_version = 2;
    assert!(matches!(
        snapshot.validate(),
        Err(WorkspaceError::UnsupportedVersion(2))
    ));
    assert!(matches!(
        LayoutSnapshot::into_collection(snapshot, &[]),
        Err(WorkspaceError::UnsupportedVersion(2))
    ));
}

#[test]
fn invalid_tab_is_reported_in_order() {
    let bad_tree = LayoutTab {
        title: "dup".into(),
        custom_title: None,
        start_config: None,
        root: LayoutPane::Split(LayoutSplit {
            id: 0,
            orientation: LayoutOrientation::Vertical,
            ratio: 0.5f64.to_bits(),
            first: Box::new(LayoutPane::Terminal(LayoutTerminal { id: 1, title: String::new() })),
            second: Box::new(LayoutPane::Terminal(LayoutTerminal { id: 1, title: String::new() })),
        }),
    };
    let bad_config = LayoutTab {
        title: "cfg".into(),
        custom_title: None,
        start_config: Some(StartConfig {
            working_directory: "relative".into(),
            shell: None,
            command: None,
        }),
        root: LayoutPane::Terminal(LayoutTerminal { id: 0, title: "x".into() }),
    };
    let mut snapshot = LayoutSnapshot::empty();
    snapshot.tabs = vec![bad_tree.clone(), bad_config.clone()];
    assert!(matches!(snapshot.validate(), Err(WorkspaceError::InvalidLayout)));
    snapshot.tabs = vec![bad_config, bad_tree];
    assert!(matches!(
        LayoutSnapshot::into_collection(snapshot, &[]),
        Err(WorkspaceError::InvalidPath(_))
    ));
}

#[test]
fn out_of_range_ratio_is_rejected() {
    let mut snapshot = LayoutSnapshot::empty();
    snapshot.tabs = vec![LayoutTab {
        title: "wide".into(),
        custom_title: None,
        start_config: None,
        root: LayoutPane::Split(LayoutSplit {
            id: 0,
            orientation: LayoutOrientation::Horizontal,
            ratio: 0.99f64.to_bits(),
            first: Box::new(LayoutPane::Terminal(LayoutTerminal { id: 0, title: "a".into() })),
            second: Box::new(LayoutPane::Terminal(LayoutTerminal { id: 1, title: "b".into() })),
        }),
    }];
    assert!(matches!(snapshot.validate(), Err(WorkspaceError::InvalidLayout)));
}

#[test]
fn active_tab_index_is_clamped_on_restore() {
    let mut snapshot = LayoutSnapshot::empty();
    snapshot.active_tab_index = 5;
    snapshot.tabs = vec![LayoutTab {
        title: "only".into(),
        custom_title: Some("mine".into()),
        start_config: None,
        root: LayoutPane::Terminal(LayoutTerminal { id: 3, title: "t".into() }),
    }];
    let (collection, _, _) = LayoutSnapshot::into_collection(snapshot, &[]).unwrap();
    assert_eq!(collection.active_index(), 0);
    assert_eq!(collection.tabs()[0].custom_title.as_deref(), Some("mine"));
    assert_eq!(collection.active_pane_id(), iv::pane::PaneId::new(3));
}

#[test]
fn orientations_convert_both_ways() {
    assert_eq!(LayoutOrientation::from(Orientation::Vertical), LayoutOrientation::Vertical);
    assert_eq!(Orientation::from(LayoutOrientation::Horizontal), Orientation::Horizontal);
}

#[test]
fn profile_id_set_holds_each_id_once_in_order() {
    let config = StartConfig::new("/tmp", None, None).unwrap();
    let profiles = vec![
        StartProfile::new(ProfileId::new(5), "B", config.clone()).unwrap(),
        StartProfile::new(ProfileId::new(2), "A", config.clone()).unwrap(),
        StartProfile::new(ProfileId::new(5), "C", config).unwrap(),
    ];
    assert_eq!(
        profile_id_set(&profiles),
        vec![ProfileId::new(2), ProfileId::new(5)]
    );
    assert!(profile_id_set(&[]).is_empty());
}

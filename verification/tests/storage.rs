use iv::workspace::debounce::{flush_due, DebounceAction, DebounceEvent, LayoutDebouncer};
use iv::workspace::storage::{
    ensure_writable, parse_layout, parse_profiles, profiles_are_valid, StoredFile,
};
use iv::workspace::{
    LayoutSnapshot, ProfileId, StartConfig, StartProfile, WorkspaceError, WorkspaceWarning,
};

fn profile(id: u64, name: &str) -> StartProfile {
    let config = StartConfig::new("/tmp", None, None).unwrap();
    StartProfile::new(ProfileId::new(id), name, config).unwrap()
}

const TWO_PROFILES: &str = "schema_version = 1\n\n[[profile]]\nid = 1\nname = \"One\"\n\n[profile.start_config]\nworking_directory = \"/tmp\"\n\n[[profile]]\nid = 1\nname = \"Two\"\n\n[profile.start_config]\nworking_directory = \"/tmp\"\n";

#[test]
fn debouncer_idle_is_quiet() {
    let debouncer = LayoutDebouncer::new();
    assert!(!debouncer.should_flush());
}

#[test]
fn debouncer_dirty_is_ready() {
    let mut debouncer = LayoutDebouncer::new();
    debouncer.mark_dirty();
    assert!(debouncer.should_flush());
    debouncer.mark_flushed();
    assert!(!debouncer.should_flush());
}

#[test]
fn debouncer_force_flush() {
    let mut debouncer = LayoutDebouncer::new();
    debouncer.mark_flushed();
    assert!(!debouncer.should_flush());
    debouncer.force_flush();
    assert!(debouncer.should_flush());
}

#[test]
fn debouncer_waits_for_the_window_after_a_write() {
    let mut debouncer = LayoutDebouncer::new();
    debouncer.mark_flushed();
    debouncer.mark_dirty();
    assert!(!debouncer.should_flush());
}

#[test]
fn flush_due_follows_the_window() {
    assert!(!flush_due(false, None));
    assert!(flush_due(true, None));
    assert!(!flush_due(true, Some(999)));
    assert!(flush_due(true, Some(1000)));
    assert!(!flush_due(false, Some(5000)));
}

#[test]
fn duplicate_profile_ids_are_rejected() {
    let first = profile(1, "One");
    let second = profile(1, "Two");
    let decoded = Some(vec![first, second]);

    let (profiles, warnings) = parse_profiles(TWO_PROFILES.as_bytes(), decoded);

    assert!(profiles.is_empty());
    assert_eq!(warnings, [WorkspaceWarning::InvalidToml]);
}

#[test]
fn valid_profiles_are_loaded() {
    let contents = "schema_version = 1\n";
    let (profiles, warnings) =
        parse_profiles(contents.as_bytes(), Some(vec![profile(0, "Arbeit"), profile(1, "Privat")]));
    assert!(warnings.is_empty());
    assert_eq!(profiles.len(), 2);
    assert_eq!(profiles[1].name, "Privat");
}

#[test]
fn unsupported_version_yields_warning() {
    let contents = b"schema_version = 99\n[[profile]]\nid = 0\nname = \"x\"\n";
    let (profiles, warnings) = parse_profiles(contents, None);
    assert!(profiles.is_empty());
    assert!(matches!(
        warnings.as_slice(),
        [WorkspaceWarning::UnsupportedVersion(99)]
    ));
}

#[test]
fn missing_version_counts_as_zero() {
    let (profiles, warnings) = parse_profiles(b"title = \"x\"\n", Some(vec![profile(0, "A")]));
    assert!(profiles.is_empty());
    assert_eq!(warnings, vec![WorkspaceWarning::UnsupportedVersion(0)]);
}

#[test]
fn non_integer_version_counts_as_zero() {
    let (profiles, warnings) = parse_profiles(b"schema_version = \"1\"\n", None);
    assert!(profiles.is_empty());
    assert_eq!(warnings, vec![WorkspaceWarning::UnsupportedVersion(0)]);
    assert!(matches!(
        ensure_writable(Some(b"schema_version = \"1\"\n"), StoredFile::Profiles(None)),
        Err(WorkspaceError::InvalidToml)
    ));
}

#[test]
fn version_is_cut_to_thirty_two_bits() {
    // 2^32 + 1 is read as version 1; the missing records are then invalid.
    let (_, warnings) = parse_profiles(b"schema_version = 4294967297\n", None);
    assert_eq!(warnings, vec![WorkspaceWarning::InvalidToml]);
    let (_, warnings) = parse_profiles(b"schema_version = 4294967298\n", None);
    assert_eq!(warnings, vec![WorkspaceWarning::UnsupportedVersion(2)]);
}

#[test]
fn invalid_toml_yields_warning() {
    let (profiles, warnings) = parse_profiles(b"[profile\n", None);
    assert!(profiles.is_empty());
    assert_eq!(warnings, vec![WorkspaceWarning::InvalidToml]);
}

#[test]
fn invalid_utf8_yields_warning() {
    let (profiles, warnings) = parse_profiles(&[0xff, 0xfe, 0x00], None);
    assert!(profiles.is_empty());
    assert_eq!(warnings, vec![WorkspaceWarning::InvalidToml]);
    let (snapshot, warnings) = parse_layout(&[0xc3], None);
    assert_eq!(snapshot, LayoutSnapshot::empty());
    assert_eq!(warnings, vec![WorkspaceWarning::InvalidToml]);
}

#[test]
fn layout_is_loaded_when_valid() {
    let mut snapshot = LayoutSnapshot::empty();
    snapshot.active_tab_index = 3;
    let (loaded, warnings) = parse_layout(b"schema_version = 1\n", Some(snapshot));
    assert!(warnings.is_empty());
    assert_eq!(loaded.active_tab_index, 3);
    let (loaded, warnings) = parse_layout(b"schema_version = 1\n", None);
    assert_eq!(loaded, LayoutSnapshot::empty());
    assert_eq!(warnings, vec![WorkspaceWarning::InvalidToml]);
}

#[test]
fn profiles_validity_checks_each_profile() {
    let mut bad = profile(2, "ok");
    bad.name = "  ".to_owned();
    assert!(profiles_are_valid(&[profile(0, "a"), profile(1, "b")]));
    assert!(!profiles_are_valid(&[profile(0, "a"), bad]));
    assert!(profiles_are_valid(&[]));
}

#[test]
fn save_does_not_overwrite_unknown_schema_version() {
    let original = "schema_version = 99\n";
    let result = ensure_writable(Some(original.as_bytes()), StoredFile::Profiles(None));
    assert!(matches!(result, Err(WorkspaceError::UnsupportedVersion(99))));
}

#[test]
fn save_does_not_overwrite_semantically_invalid_file() {
    let original = "schema_version = 1\n[[profile]]\nname = \"missing fields\"\n";
    let result = ensure_writable(Some(original.as_bytes()), StoredFile::Profiles(None));
    assert!(matches!(result, Err(WorkspaceError::InvalidToml)));
}

#[test]
fn overwrite_checks_encoding_and_version_range() {
    assert!(ensure_writable(None, StoredFile::Layout(None)).is_ok());
    assert!(matches!(
        ensure_writable(Some(&[0xff]), StoredFile::Layout(None)),
        Err(WorkspaceError::InvalidUtf8)
    ));
    assert!(matches!(
        ensure_writable(Some(b"schema_version = -1\n"), StoredFile::Layout(None)),
        Err(WorkspaceError::InvalidToml)
    ));
    assert!(matches!(
        ensure_writable(Some(b"other = 1\n"), StoredFile::Layout(None)),
        Err(WorkspaceError::InvalidToml)
    ));
    assert!(ensure_writable(
        Some(b"schema_version = 1\n"),
        StoredFile::Layout(Some(LayoutSnapshot::empty()))
    )
    .is_ok());
    assert!(ensure_writable(
        Some(b"schema_version = 1\n"),
        StoredFile::Profiles(Some(vec![profile(4, "x")]))
    )
    .is_ok());
}

#[test]
fn debouncer_first_change_is_written_at_once() {
    let mut debouncer = LayoutDebouncer::new();
    assert_eq!(debouncer.on_event(DebounceEvent::Changed), DebounceAction::WriteNow);
}

#[test]
fn debouncer_change_within_the_window_arms_one_timer() {
    let mut debouncer = LayoutDebouncer::new();
    debouncer.mark_flushed();
    assert_eq!(debouncer.on_event(DebounceEvent::Changed), DebounceAction::ArmTimer(1000));
    assert_eq!(debouncer.on_event(DebounceEvent::Changed), DebounceAction::Wait);
    assert!(debouncer.should_flush() == false);
}

#[test]
fn debouncer_timer_without_pending_write_does_nothing() {
    let mut debouncer = LayoutDebouncer::new();
    assert_eq!(debouncer.on_event(DebounceEvent::TimerFired), DebounceAction::Wait);
}

#[test]
fn debouncer_timer_rearms_while_the_window_is_open() {
    let mut debouncer = LayoutDebouncer::new();
    debouncer.mark_flushed();
    assert_eq!(debouncer.on_event(DebounceEvent::Changed), DebounceAction::ArmTimer(1000));
    assert_eq!(debouncer.on_event(DebounceEvent::TimerFired), DebounceAction::ArmTimer(1000));
}

#[test]
fn debouncer_forced_flush_writes_on_the_next_event() {
    let mut debouncer = LayoutDebouncer::new();
    debouncer.mark_flushed();
    debouncer.force_flush();
    assert_eq!(debouncer.on_event(DebounceEvent::TimerFired), DebounceAction::WriteNow);
}

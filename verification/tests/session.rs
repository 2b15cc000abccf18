use iv::pane::{Orientation, PaneId};
use iv::session::{
    exited_label, new_profile_id, plan_tab_close, profile_from_form, profile_position, shortcut_profile,
    warnings_notice, CloseCountdown, ProfileFormError, ProfileNotice, TabClosePlan,
};
use iv::tab::{PaneExit, TabCollection, TabId};
use iv::terminal::StartupWarning;
use iv::text::trim;
use iv::workspace::{ProfileId, StartConfig, StartProfile, WorkspaceError};

fn profile(id: u64, name: &str) -> StartProfile {
    let config = StartConfig::new("/tmp", None, None).unwrap();
    StartProfile::new(ProfileId::new(id), name, config).unwrap()
}

#[test]
fn countdown_finishes_with_the_last_shell() {
    let mut countdown = CloseCountdown::new();
    assert!(countdown.is_done());
    assert!(countdown.has_room());
    countdown.add_pending();
    countdown.add_pending();
    assert!(!countdown.is_done());
    assert!(!countdown.finish_one());
    assert!(countdown.finish_one());
    assert!(countdown.finish_one());
    assert!(countdown.is_done());
}

#[test]
fn tab_close_plan_follows_tabs_and_shells() {
    assert_eq!(plan_tab_close(1, 3), TabClosePlan::CloseWindow);
    assert_eq!(plan_tab_close(0, 0), TabClosePlan::CloseWindow);
    assert_eq!(plan_tab_close(2, 0), TabClosePlan::RemoveTab);
    assert_eq!(plan_tab_close(2, 1), TabClosePlan::AskShells);
}

#[test]
fn exited_label_is_marked() {
    assert_eq!(exited_label("zsh"), "[beendet] zsh");
}

#[test]
fn warnings_notice_joins_messages() {
    assert_eq!(warnings_notice(&[]), None);
    let both = warnings_notice(&[
        StartupWarning::ShellFallback,
        StartupWarning::WorkingDirectoryFallback,
    ])
    .unwrap();
    assert_eq!(
        both,
        "Die konfigurierte Standardshell war ungültig; /bin/sh wird verwendet. Das aktuelle Verzeichnis war ungültig; ein Ersatzverzeichnis wird verwendet."
    );
}

#[test]
fn trim_removes_outer_white_space_only() {
    assert_eq!(trim("  a b \t\n"), "a b");
    assert_eq!(trim("\u{3000}x\u{a0}"), "x");
    assert_eq!(trim("   "), "");
    assert_eq!(trim(""), "");
}

#[test]
fn profile_form_requires_name_and_directory() {
    assert!(matches!(
        profile_from_form(&[], "  ", "/tmp", "", ""),
        Err(ProfileFormError::MissingName)
    ));
    assert!(matches!(
        profile_from_form(&[], "Arbeit", " ", "", ""),
        Err(ProfileFormError::MissingDirectory)
    ));
    assert_eq!(
        ProfileFormError::MissingName.user_message(),
        "Profil-Name darf nicht leer sein."
    );
}

#[test]
fn profile_form_builds_trimmed_profile() {
    let existing = vec![profile(0, "a"), profile(1, "b")];
    let p = profile_from_form(&existing, " Arbeit ", " /srv/work ", " /bin/zsh ", " /usr/bin/nvim ")
        .expect("valid form");
    assert_eq!(p.id, ProfileId::new(2));
    assert_eq!(p.name, "Arbeit");
    assert_eq!(p.start_config.working_directory, "/srv/work");
    assert_eq!(p.start_config.shell.as_deref(), Some("/bin/zsh"));
    assert_eq!(p.start_config.command, Some(vec!["/usr/bin/nvim".to_owned()]));
    let bare = profile_from_form(&[], "x", "/tmp", "  ", "").unwrap();
    assert_eq!(bare.start_config.shell, None);
    assert_eq!(bare.start_config.command, None);
}

#[test]
fn profile_form_id_skips_every_existing_id() {
    let existing = vec![profile(0, "a"), profile(2, "b")];
    let p = profile_from_form(&existing, "c", "/tmp", "", "").unwrap();
    assert_eq!(p.id, ProfileId::new(3));
    assert!(existing.iter().all(|q| q.id != p.id));
    let first = profile_from_form(&[], "c", "/tmp", "", "").unwrap();
    assert_eq!(first.id, ProfileId::new(0));
    let full = vec![profile(u64::MAX, "x")];
    assert_eq!(profile_from_form(&full, "c", "/tmp", "", "").unwrap().id, ProfileId::new(0));
    assert_eq!(new_profile_id(&[profile(7, "x"), profile(4, "y")]), ProfileId::new(8));
    let crowded = vec![profile(u64::MAX, "x"), profile(0, "y"), profile(1, "z"), profile(3, "w")];
    assert_eq!(new_profile_id(&crowded), ProfileId::new(2));
}

#[test]
fn profile_form_reports_invalid_paths() {
    let result = profile_from_form(&[], "x", "relative/dir", "", "");
    assert!(matches!(
        result,
        Err(ProfileFormError::Invalid(WorkspaceError::InvalidPath(_)))
    ));
    let result = profile_from_form(&[], "x", "/tmp", "", "nvim file");
    assert!(matches!(
        result,
        Err(ProfileFormError::Invalid(WorkspaceError::InvalidPath(_)))
    ));
}

#[test]
fn shortcuts_pick_profiles_by_name() {
    let profiles = vec![profile(0, "Zeta"), profile(1, "Alpha"), profile(2, "Mitte")];
    assert_eq!(shortcut_profile(&profiles, 1), Some(ProfileId::new(1)));
    assert_eq!(shortcut_profile(&profiles, 2), Some(ProfileId::new(2)));
    assert_eq!(shortcut_profile(&profiles, 3), Some(ProfileId::new(0)));
    assert_eq!(shortcut_profile(&profiles, 4), None);
    assert_eq!(shortcut_profile(&profiles, 0), Some(ProfileId::new(1)));
}

#[test]
fn shortcuts_keep_order_of_equal_names() {
    let profiles = vec![profile(5, "Same"), profile(3, "Same"), profile(9, "A")];
    assert_eq!(shortcut_profile(&profiles, 1), Some(ProfileId::new(9)));
    assert_eq!(shortcut_profile(&profiles, 2), Some(ProfileId::new(5)));
    assert_eq!(shortcut_profile(&profiles, 3), Some(ProfileId::new(3)));
    let unicode = vec![profile(0, "Äpfel"), profile(1, "Zebra")];
    assert_eq!(shortcut_profile(&unicode, 1), Some(ProfileId::new(1)));
}

#[test]
fn profile_position_finds_first() {
    let profiles = vec![profile(4, "a"), profile(7, "b")];
    assert_eq!(profile_position(&profiles, ProfileId::new(7)), Some(1));
    assert_eq!(profile_position(&profiles, ProfileId::new(1)), None);
}

#[test]
fn profile_notices() {
    assert_eq!(
        ProfileNotice::Applied("Arbeit".to_owned()).user_message(),
        "Profil „Arbeit“ aktiv. Wende das Profil auf neue Panes an."
    );
    assert_eq!(
        ProfileNotice::Saved("Arbeit".to_owned()).user_message(),
        "Profil „Arbeit“ wurde gespeichert."
    );
    assert_eq!(
        ProfileNotice::NoShortcut.user_message(),
        "Kein Profil für diesen Schnellzugriff vorhanden."
    );
}

#[test]
fn pane_exit_closes_pane_tab_or_window() {
    let mut c = TabCollection::new();
    assert_eq!(c.pane_exited(TabId::new(0), PaneId::new(0)), PaneExit::CloseWindow);
    assert_eq!(c.pane_exited(TabId::new(9), PaneId::new(0)), PaneExit::UnknownTab);
    let (second, _) = c.add();
    assert_eq!(c.pane_exited(second, PaneId::new(0)), PaneExit::RemoveTab);
    let new_pane = c.split_active(Orientation::Horizontal);
    assert_eq!(c.pane_exited(second, PaneId::new(42)), PaneExit::PaneKept);
    assert_eq!(c.pane_exited(second, new_pane), PaneExit::PaneClosed(PaneId::new(0)));
    assert!(c.pane_tree_for_tab(second).unwrap().is_single());
}

#[test]
fn display_title_prefers_custom_title() {
    let mut c = TabCollection::new();
    c.set_title(TabId::new(0), "zsh".to_owned());
    assert_eq!(c.tabs()[0].display_title(), "zsh");
    let mut tab = c.tabs()[0].clone();
    tab.custom_title = Some("Projekt".to_owned());
    assert_eq!(tab.display_title(), "Projekt");
}

use iv::workspace::{
    validate_path, ProfileId, StartConfig, StartProfile, WorkspaceError, WorkspaceWarning,
};

fn valid_start_config() -> StartConfig {
    StartConfig::new("/tmp", None, None).expect("schema-valid")
}

#[test]
fn error_messages_are_non_empty() {
    let cases = [
        WorkspaceError::Io("x".into()),
        WorkspaceError::InvalidUtf8,
        WorkspaceError::InvalidToml,
        WorkspaceError::UnsupportedVersion(99),
        WorkspaceError::MissingField("name"),
        WorkspaceError::InvalidPath("traversal".into()),
        WorkspaceError::UnknownProfile("p1".into()),
        WorkspaceError::Serialize("oops".into()),
        WorkspaceError::InvalidLayout,
    ];
    for error in &cases {
        assert!(!error.user_message().is_empty());
    }
}

#[test]
fn warning_messages_are_non_empty() {
    let cases = [
        WorkspaceWarning::ReadFailed,
        WorkspaceWarning::InvalidToml,
        WorkspaceWarning::UnsupportedVersion(2),
        WorkspaceWarning::DirectoryMissing("/nope".into()),
        WorkspaceWarning::ActiveProfileMissing,
    ];
    for warning in &cases {
        assert!(!warning.user_message().is_empty());
    }
}

#[test]
fn error_messages_carry_their_details() {
    assert_eq!(
        WorkspaceError::MissingField("name").user_message(),
        "Pflichtfeld fehlt in der Workspace-Konfiguration: name."
    );
    assert_eq!(
        WorkspaceError::UnknownProfile("p1".into()).user_message(),
        "Profil „p1“ ist nicht definiert."
    );
    assert_eq!(
        WorkspaceError::InvalidPath("nicht absolut".into()).user_message(),
        "Ungültiger Pfad in der Workspace-Konfiguration: nicht absolut."
    );
}

#[test]
fn new_accepts_non_empty_name() {
    let profile = StartProfile::new(ProfileId::new(1), "Arbeit", valid_start_config());
    assert!(profile.is_ok());
}

#[test]
fn new_rejects_empty_name() {
    let profile = StartProfile::new(ProfileId::new(1), "   ", valid_start_config());
    assert!(matches!(
        profile,
        Err(WorkspaceError::MissingField("profile.name"))
    ));
}

#[test]
fn rename_rejects_empty() {
    let mut profile =
        StartProfile::new(ProfileId::new(1), "Arbeit", valid_start_config()).unwrap();
    assert!(profile.rename("").is_err());
    assert!(profile.rename("Neu").is_ok());
    assert_eq!(profile.name, "Neu");
}

#[test]
fn rename_keeps_name_when_rejected() {
    let mut profile =
        StartProfile::new(ProfileId::new(3), "Arbeit", valid_start_config()).unwrap();
    assert!(profile.rename(" \t").is_err());
    assert_eq!(profile.name, "Arbeit");
    assert!(profile.validate().is_ok());
}

#[test]
fn id_display_is_stable() {
    assert_eq!(ProfileId::new(42).display(), "profile-42");
}

#[test]
fn id_display_of_zero_and_large_ids() {
    assert_eq!(ProfileId::new(0).display(), "profile-0");
    assert_eq!(
        ProfileId::new(u64::MAX).display(),
        "profile-18446744073709551615"
    );
}

#[test]
fn absolute_path_is_accepted() {
    let result = validate_path("/home/user/project");
    assert_eq!(result.unwrap(), "/home/user/project");
}

#[test]
fn tilde_prefix_is_accepted() {
    let result = validate_path("~/projects/foo");
    assert_eq!(result.unwrap(), "~/projects/foo");
}

#[test]
fn bare_tilde_is_accepted() {
    assert_eq!(validate_path("~").unwrap(), "~");
}

#[test]
fn empty_path_is_rejected() {
    let result = validate_path("");
    assert!(matches!(result, Err(WorkspaceError::InvalidPath(_))));
}

#[test]
fn relative_path_is_rejected() {
    let result = validate_path("foo/bar");
    assert!(matches!(result, Err(WorkspaceError::InvalidPath(_))));
}

#[test]
fn named_user_tilde_is_rejected() {
    let result = validate_path("~other/project");
    assert!(matches!(result, Err(WorkspaceError::InvalidPath(_))));
}

#[test]
fn traversal_is_rejected() {
    let result = validate_path("/home/user/../etc");
    assert!(matches!(result, Err(WorkspaceError::InvalidPath(_))));
}

#[test]
fn dots_inside_a_name_are_no_traversal() {
    assert!(validate_path("/home/user/..hidden").is_ok());
    assert!(validate_path("/home/user/a..b").is_ok());
    assert!(validate_path("/home/user/..").is_err());
}

#[test]
fn path_rejection_reasons() {
    assert!(matches!(validate_path(""), Err(WorkspaceError::InvalidPath(r)) if r == "leerer Pfad"));
    assert!(matches!(validate_path("a"), Err(WorkspaceError::InvalidPath(r)) if r == "nicht absolut"));
    assert!(matches!(
        validate_path("/a\0b"),
        Err(WorkspaceError::InvalidPath(r)) if r == "NUL-Zeichen ist nicht erlaubt"
    ));
    assert!(matches!(
        validate_path("/a/../b"),
        Err(WorkspaceError::InvalidPath(r)) if r == "„..“ ist nicht erlaubt"
    ));
}

#[test]
fn start_config_rejects_traversal_in_directory() {
    let result = StartConfig::new("/home/../etc", None, None);
    assert!(matches!(result, Err(WorkspaceError::InvalidPath(_))));
}

#[test]
fn start_config_rejects_empty_command() {
    let result = StartConfig::new("/tmp", None, Some(vec![]));
    assert!(matches!(
        result,
        Err(WorkspaceError::MissingField("command"))
    ));
}

#[test]
fn start_config_accepts_minimal_input() {
    let result = StartConfig::new("/tmp", None, None);
    assert!(result.is_ok());
}

#[test]
fn start_config_accepts_command_with_arguments() {
    let result = StartConfig::new("/tmp", None, Some(vec!["/usr/bin/nvim".into()]));
    assert!(result.is_ok());
}

#[test]
fn start_config_rejects_traversal_in_command() {
    let result = StartConfig::new("/tmp", None, Some(vec!["../bin".into()]));
    assert!(matches!(result, Err(WorkspaceError::InvalidPath(_))));
}

#[test]
fn start_config_rejects_relative_shell() {
    let result = StartConfig::new("/tmp", Some("zsh".into()), None);
    assert!(matches!(result, Err(WorkspaceError::InvalidPath(_))));
}

#[test]
fn nul_bytes_are_rejected() {
    assert!(validate_path("/tmp/\0bad").is_err());
    let result = StartConfig::new(
        "/tmp",
        None,
        Some(vec!["/bin/echo".into(), "bad\0argument".into()]),
    );
    assert!(matches!(result, Err(WorkspaceError::InvalidPath(_))));
}

#[test]
fn validated_config_keeps_its_parts() {
    let config = StartConfig::new(
        "/tmp",
        Some("/bin/zsh".into()),
        Some(vec!["/usr/bin/nvim".into(), "notes.md".into()]),
    )
    .unwrap();
    assert_eq!(config.working_directory, "/tmp");
    assert_eq!(config.shell.as_deref(), Some("/bin/zsh"));
    assert_eq!(config.command.as_ref().map(|c| c.len()), Some(2));
    assert!(config.validate().is_ok());
    assert_eq!(config.clone(), config);
}

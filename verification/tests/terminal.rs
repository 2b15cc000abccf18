use iv::terminal::{
    inherited_environment, resolve_shell, resolve_working_directory, usable_directory,
    usable_executable, FileMetadata, LaunchConfig, ProbedPath, ProcessAction, ProcessExit,
    ProcessInput, ProcessSignal, ProcessState, StartupWarning, TerminalError,
};

fn executable() -> Option<FileMetadata> {
    Some(FileMetadata { is_file: true, is_dir: false, mode: 0o755 })
}

fn directory() -> Option<FileMetadata> {
    Some(FileMetadata { is_file: false, is_dir: true, mode: 0o755 })
}

fn probe(path: &str, metadata: Option<FileMetadata>) -> ProbedPath {
    ProbedPath { path: path.to_owned(), metadata }
}

#[test]
fn configured_shell_is_used_when_executable() {
    let (shell, used_fallback) = resolve_shell(
        Some(probe("/bin/sh", executable())),
        probe("/bin/false", executable()),
    )
    .expect("/bin/sh should be available in the test environment");

    assert_eq!(shell, "/bin/sh");
    assert!(!used_fallback);
}

#[test]
fn invalid_shell_uses_fallback() {
    let (shell, used_fallback) = resolve_shell(
        Some(probe("relative-shell", None)),
        probe("/bin/sh", executable()),
    )
    .expect("/bin/sh should be available in the test environment");

    assert_eq!(shell, "/bin/sh");
    assert!(used_fallback);
}

#[test]
fn missing_shell_and_fallback_is_an_error() {
    let result = resolve_shell(
        Some(probe("/path/that/does/not/exist", None)),
        probe("/another/missing/path", None),
    );

    assert!(matches!(result, Err(TerminalError::NoUsableShell)));
}

#[test]
fn invalid_current_directory_uses_home() {
    let (directory, used_fallback) = resolve_working_directory(
        Some(probe("/path/that/does/not/exist", None)),
        Some(probe("/", directory())),
        directory(),
    )
    .expect("/ should be available in the test environment");

    assert_eq!(directory, "/");
    assert!(used_fallback);
}

#[test]
fn missing_home_falls_back_to_root() {
    let (found, used_fallback) =
        resolve_working_directory(None, None, directory()).expect("root is a directory");
    assert_eq!(found, "/");
    assert!(used_fallback);
    let result = resolve_working_directory(Some(probe("relative", directory())), None, None);
    assert!(matches!(result, Err(TerminalError::NoUsableWorkingDirectory)));
}

#[test]
fn current_directory_is_kept_when_usable() {
    let (directory, used_fallback) = resolve_working_directory(
        Some(probe("/home/user", directory())),
        Some(probe("/", directory())),
        directory(),
    )
    .unwrap();
    assert_eq!(directory, "/home/user");
    assert!(!used_fallback);
}

#[test]
fn executables_need_an_execute_bit_and_a_file() {
    let no_exec = Some(FileMetadata { is_file: true, is_dir: false, mode: 0o644 });
    assert_eq!(usable_executable("/bin/sh", no_exec), None);
    assert_eq!(usable_executable("/bin", directory()), None);
    assert_eq!(usable_executable("bin/sh", executable()), None);
    assert_eq!(usable_executable("/bin/sh", executable()).as_deref(), Some("/bin/sh"));
    let owner_only = Some(FileMetadata { is_file: true, is_dir: false, mode: 0o100 });
    assert_eq!(usable_executable("/opt/x", owner_only).as_deref(), Some("/opt/x"));
}

#[test]
fn directories_must_be_absolute_directories() {
    assert_eq!(usable_directory("/tmp", directory()).as_deref(), Some("/tmp"));
    assert_eq!(usable_directory("tmp", directory()), None);
    assert_eq!(usable_directory("/etc/passwd", executable()), None);
    assert_eq!(usable_directory("/gone", None), None);
}

#[test]
fn launch_config_reports_each_fallback() {
    let config = LaunchConfig::from_probes(
        Some(probe("relative", None)),
        probe("/bin/sh", executable()),
        None,
        Some(probe("/home/user", directory())),
        directory(),
    )
    .expect("usable shell and directory");
    assert_eq!(config.arguments, vec!["/bin/sh".to_owned()]);
    assert_eq!(config.working_directory, "/home/user");
    assert_eq!(
        config.warnings,
        vec![StartupWarning::ShellFallback, StartupWarning::WorkingDirectoryFallback]
    );
}

#[test]
fn launch_config_without_shell_fails_first() {
    let result =
        LaunchConfig::from_probes(None, probe("/missing", None), None, None, None);
    assert!(matches!(result, Err(TerminalError::NoUsableShell)));
    let result =
        LaunchConfig::from_probes(None, probe("/bin/sh", executable()), None, None, None);
    assert!(matches!(result, Err(TerminalError::NoUsableWorkingDirectory)));
}

#[test]
fn wait_status_decodes_exit_and_signal() {
    assert_eq!(ProcessExit::from_wait_status(7 << 8), ProcessExit::Code(7));
    assert_eq!(
        ProcessExit::from_wait_status(libc::SIGTERM),
        ProcessExit::Signal(15)
    );
}

#[test]
fn wait_status_of_a_stopped_process_is_unknown() {
    // 0x7f in the low bits marks a stopped (not ended) process.
    assert_eq!(ProcessExit::from_wait_status(0x137f), ProcessExit::Unknown);
    assert_eq!(ProcessExit::from_wait_status(0), ProcessExit::Code(0));
}

#[test]
fn exit_messages_name_code_and_signal() {
    assert_eq!(
        ProcessExit::Code(7).user_message(),
        "Die Shell wurde mit Status 7 beendet."
    );
    assert_eq!(
        ProcessExit::Code(-1).user_message(),
        "Die Shell wurde mit Status -1 beendet."
    );
    assert_eq!(
        ProcessExit::Signal(9).user_message(),
        "Die Shell wurde durch Signal 9 beendet."
    );
    assert_eq!(
        ProcessExit::Unknown.user_message(),
        "Die Shell wurde unerwartet beendet."
    );
    assert!(ProcessExit::Code(0).successful());
    assert!(!ProcessExit::Code(1).successful());
    assert!(!ProcessExit::Signal(0).successful());
}

#[test]
fn error_and_warning_messages() {
    assert_eq!(
        TerminalError::Spawn("boom".to_owned()).user_message(),
        "Die lokale Shell konnte nicht gestartet werden."
    );
    assert_eq!(
        TerminalError::NoSelection.user_message(),
        "Es ist kein Text zum Kopieren ausgewählt."
    );
    assert_eq!(
        StartupWarning::ShellFallback.user_message(),
        "Die konfigurierte Standardshell war ungültig; /bin/sh wird verwendet."
    );
}

#[test]
fn terminal_capabilities_override_parent_values() {
    let parent = vec![
        ("HOME".to_owned(), "/home/user".to_owned()),
        ("TERM".to_owned(), "dumb".to_owned()),
        ("COLORTERM".to_owned(), "24bit".to_owned()),
        ("TERM_PROGRAM".to_owned(), "other".to_owned()),
    ];
    let environment = inherited_environment(parent);
    let terminal_values: Vec<&str> = environment
        .iter()
        .filter(|entry| entry.starts_with("TERM="))
        .map(String::as_str)
        .collect();
    let color_terminal_values: Vec<&str> = environment
        .iter()
        .filter(|entry| entry.starts_with("COLORTERM="))
        .map(String::as_str)
        .collect();

    assert_eq!(terminal_values, ["TERM=xterm-256color"]);
    assert_eq!(color_terminal_values, ["COLORTERM=truecolor"]);
}

#[test]
fn inherited_environment_keeps_order_of_other_variables() {
    let parent = vec![
        ("B".to_owned(), "2".to_owned()),
        ("TERM".to_owned(), "dumb".to_owned()),
        ("A".to_owned(), "x=y".to_owned()),
    ];
    assert_eq!(
        inherited_environment(parent),
        vec!["B=2", "A=x=y", "TERM=xterm-256color", "COLORTERM=truecolor"]
    );
}

#[test]
fn process_starts_runs_and_exits() {
    let step = ProcessState::Idle.step(ProcessInput::SpawnRequested);
    assert_eq!(step.state, ProcessState::Starting);
    assert_eq!(step.actions, vec![ProcessAction::StartSpawn]);

    let step = step.state.step(ProcessInput::Spawned(42));
    assert_eq!(step.state, ProcessState::Running(42));
    assert_eq!(
        step.actions,
        vec![ProcessAction::ForgetSpawnHandle, ProcessAction::ReportStarted]
    );

    let step = step.state.step(ProcessInput::ChildExited(3 << 8));
    assert_eq!(step.state, ProcessState::Exited);
    assert_eq!(
        step.actions,
        vec![
            ProcessAction::DisableInput,
            ProcessAction::ReportExited(ProcessExit::Code(3))
        ]
    );
}

#[test]
fn close_of_running_shell_hangs_up_then_kills() {
    let step = ProcessState::Running(7).step(ProcessInput::CloseRequested);
    assert!(!step.close_ready);
    assert_eq!(step.state, ProcessState::Closing(Some(7)));
    assert_eq!(
        step.actions,
        vec![
            ProcessAction::KeepCloseCallback,
            ProcessAction::Signal(7, ProcessSignal::Hangup),
            ProcessAction::ScheduleEscalation { grace_millis: 1500, deadline_millis: 2500 }
        ]
    );
    let grace = step.state.step(ProcessInput::GraceElapsed);
    assert_eq!(grace.actions, vec![ProcessAction::Signal(7, ProcessSignal::Kill)]);
    let deadline = grace.state.step(ProcessInput::DeadlineElapsed);
    assert_eq!(deadline.state, ProcessState::Exited);
    assert_eq!(deadline.actions, vec![ProcessAction::RunCloseCallback]);
    let late_exit = deadline.state.step(ProcessInput::ChildExited(0));
    assert_eq!(late_exit.actions, vec![ProcessAction::DisableInput]);
}

#[test]
fn close_during_start_cancels_and_hangs_up_late_process() {
    let step = ProcessState::Starting.step(ProcessInput::CloseRequested);
    assert_eq!(step.state, ProcessState::Closing(None));
    assert_eq!(
        step.actions,
        vec![
            ProcessAction::KeepCloseCallback,
            ProcessAction::CancelSpawn,
            ProcessAction::ScheduleEscalation { grace_millis: 1500, deadline_millis: 2500 }
        ]
    );
    let late = step.state.step(ProcessInput::Spawned(11));
    assert_eq!(late.state, ProcessState::Closing(Some(11)));
    assert_eq!(
        late.actions,
        vec![
            ProcessAction::ForgetSpawnHandle,
            ProcessAction::Signal(11, ProcessSignal::Hangup)
        ]
    );
    let exit = late.state.step(ProcessInput::ChildExited(1 << 8));
    assert_eq!(exit.state, ProcessState::Exited);
    assert_eq!(
        exit.actions,
        vec![ProcessAction::DisableInput, ProcessAction::RunCloseCallback]
    );
}

#[test]
fn close_is_ready_without_a_shell() {
    for state in [ProcessState::Idle, ProcessState::Exited, ProcessState::Failed] {
        let step = state.step(ProcessInput::CloseRequested);
        assert!(step.close_ready);
        assert_eq!(step.state, state);
        assert!(step.actions.is_empty());
    }
    let again = ProcessState::Closing(None).step(ProcessInput::CloseRequested);
    assert!(!again.close_ready);
    assert!(again.actions.is_empty());
}

#[test]
fn failed_start_is_reported_once() {
    let step = ProcessState::Starting.step(ProcessInput::SpawnFailed);
    assert_eq!(step.state, ProcessState::Failed);
    assert_eq!(
        step.actions,
        vec![ProcessAction::ForgetSpawnHandle, ProcessAction::ReportSpawnFailed]
    );
    let again = step.state.step(ProcessInput::SpawnFailed);
    assert_eq!(again.state, ProcessState::Failed);
    assert_eq!(again.actions, vec![ProcessAction::ForgetSpawnHandle]);
    let second_start = ProcessState::Running(3).step(ProcessInput::SpawnRequested);
    assert_eq!(second_start.state, ProcessState::Starting);
    assert!(second_start.actions.is_empty());
}

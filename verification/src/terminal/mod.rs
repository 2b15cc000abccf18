//! The local shell of a pane: how its exit is reported, which shell and
//! working directory it starts with, what environment it inherits, and the
//! lifecycle of its process.
use vstd::prelude::*;

pub mod launch;
pub mod process;

use crate::text::{push_signed_decimal, signed_decimal};

pub use launch::{
    inherited_environment, resolve_shell, resolve_working_directory, usable_directory,
    usable_executable, FileMetadata, LaunchConfig, ProbedPath,
};
pub use process::{ProcessAction, ProcessInput, ProcessSignal, ProcessState, ProcessStep};

verus! {

/// `libc::WIFEXITED`: whether a wait status reports a normal exit. The libc
/// source computes `(status & 0x7f) == 0`.
#[verifier::external_body]
fn wait_exited(status: i32) -> (r: bool)
    ensures
        r == (status & 0x7f == 0),
{
    libc::WIFEXITED(status)
}

/// `libc::WEXITSTATUS`: the exit code of a wait status. The libc source
/// computes `(status >> 8) & 0xff`.
#[verifier::external_body]
fn wait_exit_status(status: i32) -> (r: i32)
    ensures
        r == (status >> 8) & 0xff,
{
    libc::WEXITSTATUS(status)
}

/// `libc::WIFSIGNALED`: whether a wait status reports a termination by a
/// signal. The libc source computes `((status & 0x7f) + 1) as i8 >= 2`.
#[verifier::external_body]
fn wait_signaled(status: i32) -> (r: bool)
    ensures
        r == (((status & 0x7f) + 1) as i8 >= 2),
{
    libc::WIFSIGNALED(status)
}

/// `libc::WTERMSIG`: the signal of a wait status. The libc source computes
/// `status & 0x7f`.
#[verifier::external_body]
fn wait_term_signal(status: i32) -> (r: i32)
    ensures
        r == status & 0x7f,
{
    libc::WTERMSIG(status)
}

/// How the shell of a pane ended.
#[derive(Debug, Clone, Copy, PartialEq, Eq, Structural)]
pub enum ProcessExit {
    /// It exited with this status code.
    Code(i32),
    /// A signal with this number ended it.
    Signal(i32),
    /// The wait status says neither.
    Unknown,
}

/// The exit that a wait status (as `waitpid` reports it) describes.
pub open spec fn decoded_exit(status: i32) -> ProcessExit {
    if status & 0x7f == 0 {
        ProcessExit::Code((status >> 8) & 0xff)
    } else if ((status & 0x7f) + 1) as i8 >= 2 {
        ProcessExit::Signal(status & 0x7f)
    } else {
        ProcessExit::Unknown
    }
}

/// The user message for an exit.
pub open spec fn exit_message(exit: ProcessExit) -> Seq<char> {
    match exit {
        ProcessExit::Code(code) => "Die Shell wurde mit Status "@ + signed_decimal(code as int)
            + " beendet."@,
        ProcessExit::Signal(signal) => "Die Shell wurde durch Signal "@ + signed_decimal(
            signal as int,
        ) + " beendet."@,
        ProcessExit::Unknown => "Die Shell wurde unerwartet beendet."@,
    }
}

impl ProcessExit {
    /// Only an exit with code 0 counts as success.
    pub fn successful(self) -> (r: bool)
        ensures
            r == (self == ProcessExit::Code(0)),
    {
        self == ProcessExit::Code(0)
    }

    pub fn user_message(self) -> (r: String)
        ensures
            r@ == exit_message(self),
    {
        match self {
            ProcessExit::Code(code) => {
                let mut message = "Die Shell wurde mit Status ".to_owned();
                push_signed_decimal(&mut message, code);
                message.append(" beendet.");
                message
            },
            ProcessExit::Signal(signal) => {
                let mut message = "Die Shell wurde durch Signal ".to_owned();
                push_signed_decimal(&mut message, signal);
                message.append(" beendet.");
                message
            },
            ProcessExit::Unknown => "Die Shell wurde unerwartet beendet.".to_owned(),
        }
    }

    /// Decodes a wait status.
    pub fn from_wait_status(status: i32) -> (r: Self)
        ensures
            r == decoded_exit(status),
    {
        if wait_exited(status) {
            ProcessExit::Code(wait_exit_status(status))
        } else if wait_signaled(status) {
            ProcessExit::Signal(wait_term_signal(status))
        } else {
            ProcessExit::Unknown
        }
    }
}

/// Why a terminal could not do what was asked.
#[derive(Debug)]
pub enum TerminalError {
    NoUsableShell,
    NoUsableWorkingDirectory,
    /// Starting the shell failed; carries the reason the system gave.
    Spawn(String),
    ClipboardUnavailable,
    NoSelection,
}

/// The user message for a terminal error.
pub open spec fn terminal_error_message(error: TerminalError) -> Seq<char> {
    match error {
        TerminalError::NoUsableShell => "Es wurde keine ausführbare lokale Shell gefunden."@,
        TerminalError::NoUsableWorkingDirectory =>
            "Es wurde kein gültiges Startverzeichnis gefunden."@,
        TerminalError::Spawn(_) => "Die lokale Shell konnte nicht gestartet werden."@,
        TerminalError::ClipboardUnavailable => "Die Zwischenablage ist nicht verfügbar."@,
        TerminalError::NoSelection => "Es ist kein Text zum Kopieren ausgewählt."@,
    }
}

impl TerminalError {
    pub fn user_message(&self) -> (r: &'static str)
        ensures
            r@ == terminal_error_message(*self),
    {
        match self {
            TerminalError::NoUsableShell => "Es wurde keine ausführbare lokale Shell gefunden.",
            TerminalError::NoUsableWorkingDirectory => {
                "Es wurde kein gültiges Startverzeichnis gefunden."
            },
            TerminalError::Spawn(_) => "Die lokale Shell konnte nicht gestartet werden.",
            TerminalError::ClipboardUnavailable => "Die Zwischenablage ist nicht verfügbar.",
            TerminalError::NoSelection => "Es ist kein Text zum Kopieren ausgewählt.",
        }
    }
}

/// Something that went wrong at start but was worked around.
#[derive(Debug, Clone, Copy, PartialEq, Eq, Structural)]
pub enum StartupWarning {
    ShellFallback,
    WorkingDirectoryFallback,
}

/// The user message for a startup warning.
pub open spec fn startup_warning_message(warning: StartupWarning) -> Seq<char> {
    match warning {
        StartupWarning::ShellFallback =>
            "Die konfigurierte Standardshell war ungültig; /bin/sh wird verwendet."@,
        StartupWarning::WorkingDirectoryFallback =>
            "Das aktuelle Verzeichnis war ungültig; ein Ersatzverzeichnis wird verwendet."@,
    }
}

impl StartupWarning {
    pub fn user_message(self) -> (r: &'static str)
        ensures
            r@ == startup_warning_message(self),
    {
        match self {
            StartupWarning::ShellFallback => {
                "Die konfigurierte Standardshell war ungültig; /bin/sh wird verwendet."
            },
            StartupWarning::WorkingDirectoryFallback => {
                "Das aktuelle Verzeichnis war ungültig; ein Ersatzverzeichnis wird verwendet."
            },
        }
    }
}

} // verus!

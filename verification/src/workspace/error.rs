//! Typed errors and warnings of the workspace layer, with short user
//! messages.
use vstd::prelude::*;

verus! {

/// An error of the workspace layer.
#[derive(Debug, Clone, PartialEq, Eq)]
pub enum WorkspaceError {
    /// Reading a configuration file failed.
    Io(String),
    /// The file is not valid UTF-8.
    InvalidUtf8,
    /// The file is not valid TOML.
    InvalidToml,
    /// The file carries an unknown schema version.
    UnsupportedVersion(u32),
    /// A required field is missing or empty.
    MissingField(&'static str),
    /// A path does not meet the schema rules.
    InvalidPath(String),
    /// A profile id is referenced but not defined.
    UnknownProfile(String),
    /// Serialising for a write failed.
    Serialize(String),
    /// The stored pane tree violates a state invariant.
    InvalidLayout,
}

/// What a [`WorkspaceError`] is, with its texts as character sequences.
pub enum WorkspaceErrorView {
    Io(Seq<char>),
    InvalidUtf8,
    InvalidToml,
    UnsupportedVersion(u32),
    MissingField(Seq<char>),
    InvalidPath(Seq<char>),
    UnknownProfile(Seq<char>),
    Serialize(Seq<char>),
    InvalidLayout,
}

impl View for WorkspaceError {
    type V = WorkspaceErrorView;

    open spec fn view(&self) -> WorkspaceErrorView {
        match self {
            WorkspaceError::Io(s) => WorkspaceErrorView::Io(s@),
            WorkspaceError::InvalidUtf8 => WorkspaceErrorView::InvalidUtf8,
            WorkspaceError::InvalidToml => WorkspaceErrorView::InvalidToml,
            WorkspaceError::UnsupportedVersion(v) => WorkspaceErrorView::UnsupportedVersion(*v),
            WorkspaceError::MissingField(f) => WorkspaceErrorView::MissingField(f@),
            WorkspaceError::InvalidPath(s) => WorkspaceErrorView::InvalidPath(s@),
            WorkspaceError::UnknownProfile(s) => WorkspaceErrorView::UnknownProfile(s@),
            WorkspaceError::Serialize(s) => WorkspaceErrorView::Serialize(s@),
            WorkspaceError::InvalidLayout => WorkspaceErrorView::InvalidLayout,
        }
    }
}

/// The user message of an error.
pub open spec fn error_message(e: WorkspaceErrorView) -> Seq<char> {
    match e {
        WorkspaceErrorView::Io(_) => "Die Workspace-Konfiguration konnte nicht gelesen werden."@,
        WorkspaceErrorView::InvalidUtf8 => "Die Workspace-Konfiguration enthält ungültige Zeichen."@,
        WorkspaceErrorView::InvalidToml => "Die Workspace-Konfiguration ist kein gültiges TOML."@,
        WorkspaceErrorView::UnsupportedVersion(_) =>
            "Die Workspace-Konfiguration hat ein unbekanntes Format und wird verworfen."@,
        WorkspaceErrorView::MissingField(field) => "Pflichtfeld fehlt in der Workspace-Konfiguration: "@
            + field + "."@,
        WorkspaceErrorView::InvalidPath(reason) =>
            "Ungültiger Pfad in der Workspace-Konfiguration: "@ + reason + "."@,
        WorkspaceErrorView::UnknownProfile(id) => "Profil „"@ + id + "“ ist nicht definiert."@,
        WorkspaceErrorView::Serialize(_) =>
            "Die Workspace-Konfiguration konnte nicht geschrieben werden."@,
        WorkspaceErrorView::InvalidLayout =>
            "Das gespeicherte Terminal-Layout ist ungültig und wird verworfen."@,
    }
}

impl WorkspaceError {
    pub fn user_message(&self) -> (r: String)
        ensures
            r@ == error_message(self@),
    {
        match self {
            WorkspaceError::Io(_) => "Die Workspace-Konfiguration konnte nicht gelesen werden.".to_owned(),
            WorkspaceError::InvalidUtf8 => {
                "Die Workspace-Konfiguration enthält ungültige Zeichen.".to_owned()
            },
            WorkspaceError::InvalidToml => {
                "Die Workspace-Konfiguration ist kein gültiges TOML.".to_owned()
            },
            WorkspaceError::UnsupportedVersion(_) => {
                "Die Workspace-Konfiguration hat ein unbekanntes Format und wird verworfen.".to_owned()
            },
            WorkspaceError::MissingField(field) => {
                let mut message = "Pflichtfeld fehlt in der Workspace-Konfiguration: ".to_owned();
                message.append(field);
                message.append(".");
                message
            },
            WorkspaceError::InvalidPath(reason) => {
                let mut message = "Ungültiger Pfad in der Workspace-Konfiguration: ".to_owned();
                message.append(reason.as_str());
                message.append(".");
                message
            },
            WorkspaceError::UnknownProfile(id) => {
                let mut message = "Profil „".to_owned();
                message.append(id.as_str());
                message.append("“ ist nicht definiert.");
                message
            },
            WorkspaceError::Serialize(_) => {
                "Die Workspace-Konfiguration konnte nicht geschrieben werden.".to_owned()
            },
            WorkspaceError::InvalidLayout => {
                "Das gespeicherte Terminal-Layout ist ungültig und wird verworfen.".to_owned()
            },
        }
    }
}

/// A non-blocking problem while loading the workspace configuration; the
/// application falls back to safe defaults.
#[derive(Debug, Clone, PartialEq, Eq)]
pub enum WorkspaceWarning {
    /// A file could not be read.
    ReadFailed,
    /// A file is not valid TOML.
    InvalidToml,
    /// A file carries an unknown schema version.
    UnsupportedVersion(u32),
    /// A directory that does not exist was applied.
    DirectoryMissing(String),
    /// The active profile is gone; it is reset to "no profile".
    ActiveProfileMissing,
}

/// The user message of a warning.
pub open spec fn warning_message(w: WorkspaceWarning) -> Seq<char> {
    match w {
        WorkspaceWarning::ReadFailed =>
            "Der Workspace-Ordner konnte nicht gelesen werden; Standardwerte werden verwendet."@,
        WorkspaceWarning::InvalidToml =>
            "Eine Workspace-Datei ist kein gültiges TOML; Standardwerte werden verwendet."@,
        WorkspaceWarning::UnsupportedVersion(_) =>
            "Eine Workspace-Datei hat ein unbekanntes Format; Standardwerte werden verwendet."@,
        WorkspaceWarning::DirectoryMissing(path) => "Das Verzeichnis „"@ + path@
            + "“ existiert nicht; HOME wird verwendet."@,
        WorkspaceWarning::ActiveProfileMissing =>
            "Das aktive Profil existiert nicht mehr; es wird auf „kein Profil“ zurückgesetzt."@,
    }
}

impl WorkspaceWarning {
    pub fn user_message(&self) -> (r: String)
        ensures
            r@ == warning_message(*self),
    {
        match self {
            WorkspaceWarning::ReadFailed => {
                "Der Workspace-Ordner konnte nicht gelesen werden; Standardwerte werden verwendet.".to_owned()
            },
            WorkspaceWarning::InvalidToml => {
                "Eine Workspace-Datei ist kein gültiges TOML; Standardwerte werden verwendet.".to_owned()
            },
            WorkspaceWarning::UnsupportedVersion(_) => {
                "Eine Workspace-Datei hat ein unbekanntes Format; Standardwerte werden verwendet.".to_owned()
            },
            WorkspaceWarning::DirectoryMissing(path) => {
                let mut message = "Das Verzeichnis „".to_owned();
                message.append(path.as_str());
                message.append("“ existiert nicht; HOME wird verwendet.");
                message
            },
            WorkspaceWarning::ActiveProfileMissing => {
                "Das aktive Profil existiert nicht mehr; es wird auf „kein Profil“ zurückgesetzt.".to_owned()
            },
        }
    }
}

} // verus!

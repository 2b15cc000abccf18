//! Start configuration of a pane: working directory, optional shell and
//! optional start command, with schema-only validation (no existence
//! checks).
use vstd::prelude::*;

use super::error::{WorkspaceError, WorkspaceErrorView};
use crate::text::has_char;

verus! {

/// How a pane is started. `working_directory` is a schema-valid path (see
/// [`validate_path`]); `shell` is an optional program (`None`: the shell
/// from the environment); `command` is an optional argument list whose first
/// element is the program.
#[derive(Debug, PartialEq, Eq)]
pub struct StartConfig {
    pub working_directory: String,
    pub shell: Option<String>,
    pub command: Option<Vec<String>>,
}

/// What a [`StartConfig`] is.
pub struct StartConfigView {
    pub working_directory: Seq<char>,
    pub shell: Option<Seq<char>>,
    pub command: Option<Seq<Seq<char>>>,
}

impl View for StartConfig {
    type V = StartConfigView;

    open spec fn view(&self) -> StartConfigView {
        StartConfigView {
            working_directory: self.working_directory@,
            shell: match self.shell {
                Some(s) => Some(s@),
                None => None,
            },
            command: match self.command {
                Some(args) => Some(args.deep_view()),
                None => None,
            },
        }
    }
}

/// A copy of a list of texts.
pub fn clone_texts(texts: &Vec<String>) -> (r: Vec<String>)
    ensures
        r.deep_view() == texts.deep_view(),
{
    let mut copy: Vec<String> = Vec::new();
    let mut i: usize = 0;
    while i < texts.len()
        invariant
            i <= texts@.len(),
            copy@.len() == i,
            forall|j: int| 0 <= j < i ==> (#[trigger] copy@[j])@ == texts@[j]@,
        decreases texts@.len() - i,
    {
        copy.push(texts[i].clone());
        i = i + 1;
    }
    assert(copy.deep_view() =~= texts.deep_view());
    copy
}

/// A copy of an optional text.
pub fn clone_optional_text(text: &Option<String>) -> (r: Option<String>)
    ensures
        match text {
            Some(t) => r matches Some(c) && c@ == t@,
            None => r is None,
        },
{
    match text {
        Some(t) => Some(t.clone()),
        None => None,
    }
}

impl Clone for StartConfig {
    fn clone(&self) -> (r: Self)
        ensures
            r@ == self@,
    {
        StartConfig {
            working_directory: self.working_directory.clone(),
            shell: clone_optional_text(&self.shell),
            command: match &self.command {
                Some(args) => Some(clone_texts(args)),
                None => None,
            },
        }
    }
}

/// The path has a segment (between slashes) that is exactly "..".
pub open spec fn has_parent_segment(raw: Seq<char>) -> bool {
    exists|i: int|
        0 <= i && i + 2 <= raw.len() && #[trigger] raw[i] == '.' && raw[i + 1] == '.' && (i == 0
            || raw[i - 1] == '/') && (i + 2 == raw.len() || raw[i + 2] == '/')
}

/// The path is "~" or starts with "~/".
pub open spec fn has_tilde_prefix(raw: Seq<char>) -> bool {
    raw.len() >= 1 && raw[0] == '~' && (raw.len() == 1 || raw[1] == '/')
}

/// Why a path fails the schema rules, if it does: it must be non-empty,
/// free of NUL, absolute (or start with a "~" prefix of its own), and free
/// of ".." segments.
pub open spec fn path_rejection(raw: Seq<char>) -> Option<Seq<char>> {
    if raw.len() == 0 {
        Some("leerer Pfad"@)
    } else if raw.contains('\0') {
        Some("NUL-Zeichen ist nicht erlaubt"@)
    } else if raw[0] != '/' && !has_tilde_prefix(raw) {
        Some("nicht absolut"@)
    } else if has_parent_segment(raw) {
        Some("„..“ ist nicht erlaubt"@)
    } else {
        None
    }
}

fn parent_segment(raw: &str) -> (r: bool)
    ensures
        r == has_parent_segment(raw@),
{
    let n = raw.unicode_len();
    let mut i: usize = 0;
    while n >= 2 && i <= n - 2
        invariant
            n == raw@.len(),
            forall|j: int|
                0 <= j < i ==> !(0 <= j && j + 2 <= raw@.len() && #[trigger] raw@[j] == '.'
                    && raw@[j + 1] == '.' && (j == 0 || raw@[j - 1] == '/') && (j + 2 == raw@.len()
                    || raw@[j + 2] == '/')),
        decreases n - i,
    {
        let at_start = i == 0 || raw.get_char(i - 1) == '/';
        let at_end = i + 2 == n || raw.get_char(i + 2) == '/';
        if at_start && at_end && raw.get_char(i) == '.' && raw.get_char(i + 1) == '.' {
            return true;
        }
        i = i + 1;
    }
    false
}

/// Schema validation of a path: returns it unchanged when it is non-empty,
/// free of NUL, absolute (or "~"-prefixed) and free of ".." segments;
/// otherwise an `InvalidPath` error with the reason. Existence is not
/// checked.
pub fn validate_path(raw: &str) -> (r: Result<String, WorkspaceError>)
    ensures
        r is Ok <==> path_rejection(raw@) is None,
        r matches Ok(p) ==> p@ == raw@,
        r matches Err(e) ==> e@ == WorkspaceErrorView::InvalidPath(path_rejection(raw@).unwrap()),
{
    proof {
        reveal_strlit("leerer Pfad");
        reveal_strlit("NUL-Zeichen ist nicht erlaubt");
        reveal_strlit("nicht absolut");
        reveal_strlit("„..“ ist nicht erlaubt");
    }
    let n = raw.unicode_len();
    if n == 0 {
        return Err(WorkspaceError::InvalidPath("leerer Pfad".to_owned()));
    }
    if has_char(raw, '\0') {
        return Err(WorkspaceError::InvalidPath("NUL-Zeichen ist nicht erlaubt".to_owned()));
    }
    let tilde = raw.get_char(0) == '~' && (n == 1 || raw.get_char(1) == '/');
    if raw.get_char(0) != '/' && !tilde {
        return Err(WorkspaceError::InvalidPath("nicht absolut".to_owned()));
    }
    if parent_segment(raw) {
        return Err(WorkspaceError::InvalidPath("„..“ ist nicht erlaubt".to_owned()));
    }
    Ok(raw.to_owned())
}

/// The first problem of a start command, if any: it must not be empty, its
/// program must be a valid path, and no argument may hold NUL.
pub open spec fn command_issue(args: Seq<Seq<char>>) -> Option<WorkspaceErrorView> {
    if args.len() == 0 {
        Some(WorkspaceErrorView::MissingField("command"@))
    } else if path_rejection(args[0]) is Some {
        Some(WorkspaceErrorView::InvalidPath(path_rejection(args[0]).unwrap()))
    } else if exists|i: int| 0 <= i < args.len() && #[trigger] args[i].contains('\0') {
        Some(WorkspaceErrorView::InvalidPath("Befehlsargument enthält ein NUL-Zeichen"@))
    } else {
        None
    }
}

/// The first problem of a start configuration, if any (checked in the
/// order directory, shell, command).
pub open spec fn start_config_issue(
    directory: Seq<char>,
    shell: Option<Seq<char>>,
    command: Option<Seq<Seq<char>>>,
) -> Option<WorkspaceErrorView> {
    if path_rejection(directory) is Some {
        Some(WorkspaceErrorView::InvalidPath(path_rejection(directory).unwrap()))
    } else if shell is Some && path_rejection(shell.unwrap()) is Some {
        Some(WorkspaceErrorView::InvalidPath(path_rejection(shell.unwrap()).unwrap()))
    } else {
        match command {
            None => None,
            Some(args) => command_issue(args),
        }
    }
}

/// A start configuration passes the schema rules.
pub open spec fn start_config_valid(c: StartConfigView) -> bool {
    start_config_issue(c.working_directory, c.shell, c.command) is None
}

fn check_command(args: &Vec<String>) -> (r: Result<(), WorkspaceError>)
    ensures
        r is Ok <==> command_issue(args.deep_view()) is None,
        r matches Err(e) ==> Some(e@) == command_issue(args.deep_view()),
{
    if args.len() == 0 {
        return Err(WorkspaceError::MissingField("command"));
    }
    match validate_path(args[0].as_str()) {
        Err(e) => {
            return Err(e);
        },
        Ok(_) => {},
    }
    assert(args.deep_view()[0] == args@[0]@);
    assert(path_rejection(args.deep_view()[0]) is None);
    assert(args.deep_view().len() > 0);
    let mut i: usize = 0;
    while i < args.len()
        invariant
            i <= args.len(),
            args.len() > 0,
            path_rejection(args.deep_view()[0]) is None,
            forall|j: int| 0 <= j < i ==> !(#[trigger] args.deep_view()[j]).contains('\0'),
        decreases args.len() - i,
    {
        if has_char(args[i].as_str(), '\0') {
            assert(args.deep_view()[i as int] == args@[i as int]@);
            assert(args.deep_view()[i as int].contains('\0'));
            return Err(
                WorkspaceError::InvalidPath("Befehlsargument enthält ein NUL-Zeichen".to_owned()),
            );
        }
        i = i + 1;
    }
    Ok(())
}

fn check_start_config(
    working_directory: &str,
    shell: &Option<String>,
    command: &Option<Vec<String>>,
) -> (r: Result<String, WorkspaceError>)
    ensures
        ({
            let issue = start_config_issue(
                working_directory@,
                match shell {
                    Some(s) => Some(s@),
                    None => None,
                },
                match command {
                    Some(args) => Some(args.deep_view()),
                    None => None,
                },
            );
            &&& r is Ok <==> issue is None
            &&& r matches Ok(d) ==> d@ == working_directory@
            &&& r matches Err(e) ==> Some(e@) == issue
        }),
{
    let directory = match validate_path(working_directory) {
        Ok(d) => d,
        Err(e) => {
            return Err(e);
        },
    };
    match shell {
        Some(program) => {
            match validate_path(program.as_str()) {
                Ok(_) => {},
                Err(e) => {
                    return Err(e);
                },
            }
        },
        None => {},
    }
    match command {
        Some(args) => {
            match check_command(args) {
                Ok(()) => {},
                Err(e) => {
                    return Err(e);
                },
            }
        },
        None => {},
    }
    Ok(directory)
}

impl StartConfig {
    /// Creates a start configuration after checking its schema.
    pub fn new(working_directory: &str, shell: Option<String>, command: Option<Vec<String>>) -> (r:
        Result<Self, WorkspaceError>)
        ensures
            ({
                let issue = start_config_issue(
                    working_directory@,
                    match shell {
                        Some(s) => Some(s@),
                        None => None,
                    },
                    match command {
                        Some(args) => Some(args.deep_view()),
                        None => None,
                    },
                );
                &&& r is Ok <==> issue is None
                &&& r matches Ok(c) ==> c.working_directory@ == working_directory@ && c.shell
                    == shell && c.command == command
                &&& r matches Err(e) ==> Some(e@) == issue
            }),
    {
        let directory = check_start_config(working_directory, &shell, &command)?;
        Ok(StartConfig { working_directory: directory, shell, command })
    }

    /// Schema validation of the contained paths, without existence checks.
    pub fn validate(&self) -> (r: Result<(), WorkspaceError>)
        ensures
            r is Ok <==> start_config_valid(self@),
            r matches Err(e) ==> Some(e@) == start_config_issue(
                self@.working_directory,
                self@.shell,
                self@.command,
            ),
    {
        match check_start_config(self.working_directory.as_str(), &self.shell, &self.command) {
            Ok(_) => Ok(()),
            Err(e) => Err(e),
        }
    }
}

} // verus!

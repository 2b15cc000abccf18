//! Choosing the shell and the working directory of a new pane, and the
//! environment it inherits. The file system is read by the caller: these
//! functions decide on what it reported.
use vstd::prelude::*;

use super::{StartupWarning, TerminalError};
use crate::text::same_text;

verus! {

/// What the file system reports about a path (following symbolic links).
#[derive(Debug, Clone, Copy, PartialEq, Eq, Structural)]
pub struct FileMetadata {
    pub is_file: bool,
    pub is_dir: bool,
    /// The permission bits.
    pub mode: u32,
}

/// A path and what the file system reported for it (`None` when nothing
/// could be read).
#[derive(Debug, Clone)]
pub struct ProbedPath {
    pub path: String,
    pub metadata: Option<FileMetadata>,
}

/// An absolute path starts at the root.
pub open spec fn is_absolute_path(path: Seq<char>) -> bool {
    path.len() > 0 && path[0] == '/'
}

/// The path is absolute and names a file with an execute bit set.
pub open spec fn executable_at(path: Seq<char>, metadata: Option<FileMetadata>) -> bool {
    is_absolute_path(path) && match metadata {
        Some(m) => m.is_file && m.mode & 0o111 != 0,
        None => false,
    }
}

/// The path is absolute and names a directory.
pub open spec fn directory_at(path: Seq<char>, metadata: Option<FileMetadata>) -> bool {
    is_absolute_path(path) && match metadata {
        Some(m) => m.is_dir,
        None => false,
    }
}

/// The probed path is there and usable as a shell.
pub open spec fn usable_shell_probe(probe: Option<ProbedPath>) -> bool {
    match probe {
        Some(p) => executable_at(p.path@, p.metadata),
        None => false,
    }
}

/// The probed path is there and usable as a working directory.
pub open spec fn usable_directory_probe(probe: Option<ProbedPath>) -> bool {
    match probe {
        Some(p) => directory_at(p.path@, p.metadata),
        None => false,
    }
}

/// The path of a probe that is there.
pub open spec fn probe_path(probe: Option<ProbedPath>) -> Seq<char> {
    match probe {
        Some(p) => p.path@,
        None => Seq::empty(),
    }
}

/// The shell to start and whether it is the fallback: the configured shell
/// if usable, else the fallback if usable, else none.
pub open spec fn shell_choice(configured: Option<ProbedPath>, fallback: ProbedPath) -> Option<
    (Seq<char>, bool),
> {
    if usable_shell_probe(configured) {
        Some((probe_path(configured), false))
    } else if executable_at(fallback.path@, fallback.metadata) {
        Some((fallback.path@, true))
    } else {
        None
    }
}

/// The working directory and whether it is a fallback: the current
/// directory if usable, else the home directory, else the root.
pub open spec fn directory_choice(
    current: Option<ProbedPath>,
    home: Option<ProbedPath>,
    root: Option<FileMetadata>,
) -> Option<(Seq<char>, bool)> {
    if usable_directory_probe(current) {
        Some((probe_path(current), false))
    } else if usable_directory_probe(home) {
        Some((probe_path(home), true))
    } else if directory_at("/"@, root) {
        Some(("/"@, true))
    } else {
        None
    }
}

fn absolute(path: &str) -> (r: bool)
    ensures
        r == is_absolute_path(path@),
{
    path.unicode_len() > 0 && path.get_char(0) == '/'
}

/// The path, if it is absolute and names an executable file.
pub fn usable_executable(path: &str, metadata: Option<FileMetadata>) -> (r: Option<String>)
    ensures
        r is Some == executable_at(path@, metadata),
        r matches Some(s) ==> s@ == path@,
{
    if !absolute(path) {
        return None;
    }
    match metadata {
        Some(m) => {
            if !m.is_file || m.mode & 0o111 == 0 {
                None
            } else {
                Some(path.to_owned())
            }
        },
        None => None,
    }
}

/// The path, if it is absolute and names a directory.
pub fn usable_directory(path: &str, metadata: Option<FileMetadata>) -> (r: Option<String>)
    ensures
        r is Some == directory_at(path@, metadata),
        r matches Some(s) ==> s@ == path@,
{
    if !absolute(path) {
        return None;
    }
    match metadata {
        Some(m) => {
            if m.is_dir {
                Some(path.to_owned())
            } else {
                None
            }
        },
        None => None,
    }
}

/// Picks the shell: the configured one if usable, else the fallback (and
/// reports that), else fails.
pub fn resolve_shell(configured: Option<ProbedPath>, fallback: ProbedPath) -> (r: Result<
    (String, bool),
    TerminalError,
>)
    ensures
        match shell_choice(configured, fallback) {
            Some((path, used_fallback)) => r matches Ok((s, f)) && s@ == path && f == used_fallback,
            None => r matches Err(TerminalError::NoUsableShell),
        },
{
    if let Some(probe) = &configured {
        if let Some(shell) = usable_executable(probe.path.as_str(), probe.metadata) {
            return Ok((shell, false));
        }
    }
    match usable_executable(fallback.path.as_str(), fallback.metadata) {
        Some(shell) => Ok((shell, true)),
        None => Err(TerminalError::NoUsableShell),
    }
}

/// Picks the working directory: the current one if usable, else the home
/// directory, else the root (reporting the fallback), else fails.
pub fn resolve_working_directory(
    current: Option<ProbedPath>,
    home: Option<ProbedPath>,
    root: Option<FileMetadata>,
) -> (r: Result<(String, bool), TerminalError>)
    ensures
        match directory_choice(current, home, root) {
            Some((path, used_fallback)) => r matches Ok((s, f)) && s@ == path && f == used_fallback,
            None => r matches Err(TerminalError::NoUsableWorkingDirectory),
        },
{
    if let Some(probe) = &current {
        if let Some(directory) = usable_directory(probe.path.as_str(), probe.metadata) {
            return Ok((directory, false));
        }
    }
    if let Some(probe) = &home {
        if let Some(directory) = usable_directory(probe.path.as_str(), probe.metadata) {
            return Ok((directory, true));
        }
    }
    let root_path = "/";
    proof {
        reveal_strlit("/");
    }
    match usable_directory(root_path, root) {
        Some(directory) => Ok((directory, true)),
        None => Err(TerminalError::NoUsableWorkingDirectory),
    }
}

/// The warnings a start reports, given which fallbacks it used.
pub open spec fn startup_warnings(shell_fallback: bool, directory_fallback: bool) -> Seq<
    StartupWarning,
> {
    (if shell_fallback {
        seq![StartupWarning::ShellFallback]
    } else {
        Seq::empty()
    }) + (if directory_fallback {
        seq![StartupWarning::WorkingDirectoryFallback]
    } else {
        Seq::empty()
    })
}

/// How a shell is started: its argument list (the program first), its
/// working directory, and the fallbacks it needed.
#[derive(Debug)]
pub struct LaunchConfig {
    pub arguments: Vec<String>,
    pub working_directory: String,
    pub warnings: Vec<StartupWarning>,
}

impl LaunchConfig {
    /// The start of a shell from what was found: the shell as the only
    /// argument, the working directory, and a warning for each fallback.
    /// A missing shell is reported before a missing directory.
    pub fn from_probes(
        configured_shell: Option<ProbedPath>,
        fallback_shell: ProbedPath,
        current_directory: Option<ProbedPath>,
        home: Option<ProbedPath>,
        root: Option<FileMetadata>,
    ) -> (r: Result<Self, TerminalError>)
        ensures
            match (
                shell_choice(configured_shell, fallback_shell),
                directory_choice(current_directory, home, root),
            ) {
                (Some((shell, shell_fallback)), Some((directory, directory_fallback))) => r matches Ok(
                    c,
                ) && c.arguments.deep_view() == seq![shell] && c.working_directory@ == directory
                    && c.warnings@ == startup_warnings(shell_fallback, directory_fallback),
                (None, _) => r matches Err(TerminalError::NoUsableShell),
                (Some(_), None) => r matches Err(TerminalError::NoUsableWorkingDirectory),
            },
    {
        let (program, shell_fallback) = match resolve_shell(configured_shell, fallback_shell) {
            Ok(found) => found,
            Err(error) => return Err(error),
        };
        let (working_directory, directory_fallback) = match resolve_working_directory(
            current_directory,
            home,
            root,
        ) {
            Ok(found) => found,
            Err(error) => return Err(error),
        };
        let mut warnings = Vec::new();
        if shell_fallback {
            warnings.push(StartupWarning::ShellFallback);
        }
        if directory_fallback {
            warnings.push(StartupWarning::WorkingDirectoryFallback);
        }
        let mut arguments = Vec::new();
        arguments.push(program);
        proof {
            assert(warnings@ =~= startup_warnings(shell_fallback, directory_fallback));
            assert(arguments.deep_view() =~= seq![arguments@[0]@]);
        }
        Ok(LaunchConfig { arguments, working_directory, warnings })
    }
}

/// The name is one of the two terminal capability variables that a new
/// shell gets set to fixed values.
pub open spec fn is_capability_variable(name: Seq<char>) -> bool {
    name == "TERM"@ || name == "COLORTERM"@
}

/// The entries `NAME=value` of the variables that pass on unchanged.
pub open spec fn passed_entries(vars: Seq<(Seq<char>, Seq<char>)>) -> Seq<Seq<char>>
    decreases vars.len(),
{
    if vars.len() == 0 {
        Seq::empty()
    } else {
        let rest = passed_entries(vars.drop_last());
        let (name, value) = vars.last();
        if is_capability_variable(name) {
            rest
        } else {
            rest.push(name + "="@ + value)
        }
    }
}

/// The environment of a new shell: the inherited variables but the
/// capability ones, then those set to `xterm-256color` and `truecolor`.
pub open spec fn child_environment(vars: Seq<(Seq<char>, Seq<char>)>) -> Seq<Seq<char>> {
    passed_entries(vars) + seq!["TERM=xterm-256color"@, "COLORTERM=truecolor"@]
}

/// The views of name and value pairs.
pub open spec fn variable_views(vars: Seq<(String, String)>) -> Seq<(Seq<char>, Seq<char>)> {
    vars.map_values(|p: (String, String)| (p.0@, p.1@))
}

/// The environment of a new shell from the variables of this process
/// (those whose name or value is not text are left out by the caller).
pub fn inherited_environment(vars: Vec<(String, String)>) -> (r: Vec<String>)
    ensures
        r.deep_view() == child_environment(variable_views(vars@)),
{
    let ghost views = variable_views(vars@);
    let mut environment: Vec<String> = Vec::new();
    let mut i: usize = 0;
    while i < vars.len()
        invariant
            i <= vars@.len(),
            views == variable_views(vars@),
            environment.deep_view() == passed_entries(views.take(i as int)),
        decreases vars@.len() - i,
    {
        proof {
            assert(views.take(i + 1).drop_last() =~= views.take(i as int));
        }
        let name = vars[i].0.as_str();
        let value = vars[i].1.as_str();
        if !(same_text(name, "TERM") || same_text(name, "COLORTERM")) {
            let mut entry = name.to_owned();
            entry.append("=");
            entry.append(value);
            let ghost before = environment.deep_view();
            environment.push(entry);
            proof {
                assert(environment.deep_view() =~= before.push(entry@));
            }
        }
        i = i + 1;
    }
    proof {
        assert(views.take(views.len() as int) =~= views);
    }
    let ghost before = environment.deep_view();
    environment.push("TERM=xterm-256color".to_owned());
    environment.push("COLORTERM=truecolor".to_owned());
    proof {
        assert(environment.deep_view() =~= before + seq![
            "TERM=xterm-256color"@,
            "COLORTERM=truecolor"@,
        ]);
    }
    environment
}

/// The environment of a new shell keeps every inherited variable but
/// `TERM` and `COLORTERM`, unchanged and in their order, as `NAME=value`,
/// and ends with those two set to `xterm-256color` and `truecolor`.
pub proof fn law_environment_replaces_only_capabilities(vars: Seq<(Seq<char>, Seq<char>)>)
    ensures
        child_environment(vars) == vars.filter(
            |v: (Seq<char>, Seq<char>)| v.0 != "TERM"@ && v.0 != "COLORTERM"@,
        ).map_values(|v: (Seq<char>, Seq<char>)| v.0 + "="@ + v.1) + seq![
            "TERM=xterm-256color"@,
            "COLORTERM=truecolor"@,
        ],
        forall|i: int|
            0 <= i < vars.len() && vars[i].0 != "TERM"@ && vars[i].0 != "COLORTERM"@ ==> #[trigger]
                child_environment(vars).contains(vars[i].0 + "="@ + vars[i].1),
{
    lemma_passed_entries_filter(vars);
    assert forall|i: int|
        0 <= i < vars.len() && vars[i].0 != "TERM"@ && vars[i].0 != "COLORTERM"@ implies #[trigger]
        child_environment(vars).contains(vars[i].0 + "="@ + vars[i].1) by {
        lemma_passed_entry(vars, i);
        let k = choose|k: int|
            0 <= k < passed_entries(vars).len() && passed_entries(vars)[k] == vars[i].0 + "="@
                + vars[i].1;
        assert(child_environment(vars)[k] == passed_entries(vars)[k]);
    }
}

proof fn lemma_passed_entries_filter(vars: Seq<(Seq<char>, Seq<char>)>)
    ensures
        passed_entries(vars) == vars.filter(
            |v: (Seq<char>, Seq<char>)| v.0 != "TERM"@ && v.0 != "COLORTERM"@,
        ).map_values(|v: (Seq<char>, Seq<char>)| v.0 + "="@ + v.1),
    decreases vars.len(),
{
    let keep = |v: (Seq<char>, Seq<char>)| v.0 != "TERM"@ && v.0 != "COLORTERM"@;
    let entry = |v: (Seq<char>, Seq<char>)| v.0 + "="@ + v.1;
    reveal(Seq::filter);
    if vars.len() == 0 {
        assert(vars.filter(keep) =~= Seq::<(Seq<char>, Seq<char>)>::empty());
        assert(vars.filter(keep).map_values(entry) =~= Seq::<Seq<char>>::empty());
    } else {
        lemma_passed_entries_filter(vars.drop_last());
        let sub = vars.drop_last().filter(keep);
        if keep(vars.last()) {
            assert(sub.push(vars.last()).map_values(entry) =~= sub.map_values(entry).push(
                entry(vars.last()),
            ));
        }
    }
}

proof fn lemma_passed_entry(vars: Seq<(Seq<char>, Seq<char>)>, i: int)
    requires
        0 <= i < vars.len(),
        vars[i].0 != "TERM"@,
        vars[i].0 != "COLORTERM"@,
    ensures
        exists|k: int|
            0 <= k < passed_entries(vars).len() && passed_entries(vars)[k] == vars[i].0 + "="@
                + vars[i].1,
    decreases vars.len(),
{
    let rest = passed_entries(vars.drop_last());
    if i == vars.len() - 1 {
        assert(passed_entries(vars) == rest.push(vars[i].0 + "="@ + vars[i].1));
        assert(passed_entries(vars)[rest.len() as int] == vars[i].0 + "="@ + vars[i].1);
    } else {
        assert(vars.drop_last()[i] == vars[i]);
        lemma_passed_entry(vars.drop_last(), i);
        let k = choose|k: int|
            0 <= k < rest.len() && rest[k] == vars[i].0 + "="@ + vars[i].1;
        assert(passed_entries(vars)[k] == rest[k]);
    }
}

} // verus!

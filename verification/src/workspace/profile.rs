//! Start profiles: a display name and a start configuration, identified by
//! a stable [`ProfileId`].
use vstd::prelude::*;

use super::error::{WorkspaceError, WorkspaceErrorView};
use super::start_config::{start_config_issue, start_config_valid, StartConfig, StartConfigView};
use crate::text::{blank, decimal, is_blank, push_decimal};

verus! {

/// Stable identity of a profile within the current configuration file; not
/// derived from the profile name.
#[derive(Debug, Clone, Copy, PartialEq, Eq, PartialOrd, Ord, Hash, Structural)]
pub struct ProfileId(pub u64);

impl ProfileId {
    pub fn new(id: u64) -> (r: Self)
        ensures
            r.0 == id,
    {
        ProfileId(id)
    }

    /// The display form of the id, `profile-<number>`.
    pub fn display(&self) -> (r: String)
        ensures
            r@ == "profile-"@ + decimal(self.0 as nat),
    {
        let mut text = "profile-".to_owned();
        push_decimal(&mut text, self.0);
        text
    }
}

/// A named start profile. Validation is schema-only: whether the working
/// directory exists is checked when the profile is applied.
#[derive(Debug, Clone, PartialEq, Eq)]
pub struct StartProfile {
    pub id: ProfileId,
    pub name: String,
    pub start_config: StartConfig,
}

/// The first problem of a profile, if any: a blank name, then the start
/// configuration.
pub open spec fn profile_issue(name: Seq<char>, config: StartConfigView) -> Option<
    WorkspaceErrorView,
> {
    if is_blank(name) {
        Some(WorkspaceErrorView::MissingField("profile.name"@))
    } else {
        start_config_issue(config.working_directory, config.shell, config.command)
    }
}

impl StartProfile {
    /// Creates a profile after validating the name (not blank) and the start
    /// configuration (schema only).
    pub fn new(id: ProfileId, name: &str, start_config: StartConfig) -> (r: Result<
        Self,
        WorkspaceError,
    >)
        ensures
            r is Ok <==> profile_issue(name@, start_config@) is None,
            r matches Ok(p) ==> p.id == id && p.name@ == name@ && p.start_config == start_config,
            r matches Err(e) ==> Some(e@) == profile_issue(name@, start_config@),
    {
        if blank(name) {
            return Err(WorkspaceError::MissingField("profile.name"));
        }
        start_config.validate()?;
        Ok(StartProfile { id, name: name.to_owned(), start_config })
    }

    /// Renames the profile unless the new name is blank.
    pub fn rename(&mut self, name: &str) -> (r: Result<(), WorkspaceError>)
        ensures
            r is Ok <==> !is_blank(name@),
            r matches Err(e) ==> e@ == WorkspaceErrorView::MissingField("profile.name"@),
            r is Ok ==> final(self).name@ == name@ && final(self).id == old(self).id
                && final(self).start_config == old(self).start_config,
            r is Err ==> *final(self) == *old(self),
    {
        if blank(name) {
            return Err(WorkspaceError::MissingField("profile.name"));
        }
        self.name = name.to_owned();
        Ok(())
    }

    /// Validates the name and the start configuration.
    pub fn validate(&self) -> (r: Result<(), WorkspaceError>)
        ensures
            r is Ok <==> profile_issue(self.name@, self.start_config@) is None,
            r matches Err(e) ==> Some(e@) == profile_issue(self.name@, self.start_config@),
    {
        if blank(self.name.as_str()) {
            return Err(WorkspaceError::MissingField("profile.name"));
        }
        self.start_config.validate()
    }
}

} // verus!

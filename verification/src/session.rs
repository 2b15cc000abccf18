//! Decisions the window takes around its tabs, shells and profiles: how a
//! close waits for the shells, what the profile form creates, which
//! profile a shortcut picks, and the texts it shows. The window carries
//! them out on its widgets.
use vstd::prelude::*;

use crate::terminal::{startup_warning_message, StartupWarning};
use crate::text::{
    lemma_text_less_asymmetric, lemma_text_less_irreflexive, lemma_text_less_total,
    lemma_text_less_transitive, lemma_trimmed_not_blank, text_before, text_less, trim, trimmed,
};
use crate::workspace::start_config::start_config_issue;
use crate::workspace::{ProfileId, StartConfig, StartConfigView, StartProfile, WorkspaceError};

verus! {

/// Counts the shells that a close still waits for.
#[derive(Debug)]
pub struct CloseCountdown {
    remaining: u32,
}

impl View for CloseCountdown {
    type V = u32;

    closed spec fn view(&self) -> u32 {
        self.remaining
    }
}

impl CloseCountdown {
    /// Nothing to wait for yet.
    pub fn new() -> (r: Self)
        ensures
            r@ == 0,
    {
        CloseCountdown { remaining: 0 }
    }

    /// One more shell will report when it is gone.
    pub fn add_pending(&mut self)
        requires
            old(self)@ < u32::MAX,
        ensures
            final(self)@ == old(self)@ + 1,
    {
        self.remaining = self.remaining + 1;
    }

    /// Whether one more shell can be counted.
    pub fn has_room(&self) -> (r: bool)
        ensures
            r == (self@ < u32::MAX),
    {
        self.remaining < u32::MAX
    }

    /// A shell is gone; returns whether none is left to wait for.
    pub fn finish_one(&mut self) -> (r: bool)
        ensures
            final(self)@ == if old(self)@ == 0 {
                0
            } else {
                (old(self)@ - 1) as u32
            },
            r == (final(self)@ == 0),
    {
        if self.remaining > 0 {
            self.remaining = self.remaining - 1;
        }
        self.remaining == 0
    }

    /// Whether no shell is left to wait for.
    pub fn is_done(&self) -> (r: bool)
        ensures
            r == (self@ == 0),
    {
        self.remaining == 0
    }
}

/// What closing the active tab starts with.
#[derive(Debug, Clone, Copy, PartialEq, Eq, Structural)]
pub enum TabClosePlan {
    /// It is the last tab: close the window instead.
    CloseWindow,
    /// It has no shells: remove it at once.
    RemoveTab,
    /// Ask its shells to end and remove it once they are gone.
    AskShells,
}

/// The first step of closing the active tab.
pub fn plan_tab_close(tab_count: usize, shell_count: usize) -> (r: TabClosePlan)
    ensures
        r == if tab_count <= 1 {
            TabClosePlan::CloseWindow
        } else if shell_count == 0 {
            TabClosePlan::RemoveTab
        } else {
            TabClosePlan::AskShells
        },
{
    if tab_count <= 1 {
        TabClosePlan::CloseWindow
    } else if shell_count == 0 {
        TabClosePlan::RemoveTab
    } else {
        TabClosePlan::AskShells
    }
}

/// The label of a tab whose shell ended with an error.
pub fn exited_label(label: &str) -> (r: String)
    ensures
        r@ == "[beendet] "@ + label@,
{
    let mut text = "[beendet] ".to_owned();
    text.append(label);
    text
}

/// The messages of startup warnings, joined by single spaces.
pub open spec fn joined_warnings(warnings: Seq<StartupWarning>) -> Seq<char>
    decreases warnings.len(),
{
    if warnings.len() == 0 {
        Seq::empty()
    } else if warnings.len() == 1 {
        startup_warning_message(warnings[0])
    } else {
        joined_warnings(warnings.drop_last()) + " "@ + startup_warning_message(warnings.last())
    }
}

/// The status text for startup warnings, if there are any.
pub fn warnings_notice(warnings: &[StartupWarning]) -> (r: Option<String>)
    ensures
        warnings@.len() == 0 ==> r is None,
        warnings@.len() > 0 ==> (r matches Some(t) && t@ == joined_warnings(warnings@)),
{
    if warnings.len() == 0 {
        return None;
    }
    let mut text = warnings[0].user_message().to_owned();
    let mut i: usize = 1;
    assert(warnings@.take(1).drop_last().len() == 0);
    while i < warnings.len()
        invariant
            1 <= i <= warnings@.len(),
            text@ == joined_warnings(warnings@.take(i as int)),
        decreases warnings@.len() - i,
    {
        text.append(" ");
        text.append(warnings[i].user_message());
        proof {
            assert(warnings@.take(i + 1).drop_last() =~= warnings@.take(i as int));
        }
        i = i + 1;
    }
    proof {
        assert(warnings@.take(warnings@.len() as int) =~= warnings@);
    }
    Some(text)
}

/// Why the profile form was not accepted.
#[derive(Debug)]
pub enum ProfileFormError {
    MissingName,
    MissingDirectory,
    /// The start configuration or the profile failed validation.
    Invalid(WorkspaceError),
}

/// The user message for a rejected profile form.
pub open spec fn form_error_message(error: ProfileFormError) -> Seq<char> {
    match error {
        ProfileFormError::MissingName => "Profil-Name darf nicht leer sein."@,
        ProfileFormError::MissingDirectory => "Startverzeichnis darf nicht leer sein."@,
        ProfileFormError::Invalid(e) => crate::workspace::error::error_message(e@),
    }
}

impl ProfileFormError {
    pub fn user_message(&self) -> (r: String)
        ensures
            r@ == form_error_message(*self),
    {
        match self {
            ProfileFormError::MissingName => "Profil-Name darf nicht leer sein.".to_owned(),
            ProfileFormError::MissingDirectory => "Startverzeichnis darf nicht leer sein.".to_owned(),
            ProfileFormError::Invalid(e) => e.user_message(),
        }
    }
}

/// The largest id among the profiles (`None` for no profiles).
pub open spec fn max_profile_id(profiles: Seq<StartProfile>) -> Option<u64>
    decreases profiles.len(),
{
    if profiles.len() == 0 {
        None
    } else {
        let last = profiles.last().id.0;
        match max_profile_id(profiles.drop_last()) {
            None => Some(last),
            Some(m) => Some(
                if m < last {
                    last
                } else {
                    m
                },
            ),
        }
    }
}

/// No profile holds the id.
pub open spec fn id_is_free(profiles: Seq<StartProfile>, id: u64) -> bool {
    forall|i: int| 0 <= i < profiles.len() ==> (#[trigger] profiles[i]).id.0 != id
}

/// The id is free and every smaller id is held.
pub open spec fn is_least_free_id(profiles: Seq<StartProfile>, id: u64) -> bool {
    id_is_free(profiles, id) && forall|d: u64| d < id ==> !id_is_free(profiles, d)
}

/// The smallest id that no profile holds.
pub open spec fn least_free_id(profiles: Seq<StartProfile>) -> u64 {
    choose|id: u64| is_least_free_id(profiles, id)
}

/// The id of a new profile: one more than the largest id (0 for the
/// first profile); when the largest id is `u64::MAX`, the smallest id that
/// no profile holds.
pub open spec fn next_profile_id(profiles: Seq<StartProfile>) -> ProfileId {
    match max_profile_id(profiles) {
        None => ProfileId(0),
        Some(m) => if m < u64::MAX {
            ProfileId((m + 1) as u64)
        } else {
            ProfileId(least_free_id(profiles))
        },
    }
}

/// Fewer profiles than ids: one of the ids up to the number of profiles is
/// free.
proof fn lemma_some_id_free(profiles: Seq<StartProfile>)
    requires
        profiles.len() <= u64::MAX,
    ensures
        exists|c: u64| c <= profiles.len() && id_is_free(profiles, c),
{
    broadcast use vstd::seq_lib::seq_to_set_is_finite;

    let n = profiles.len() as int;
    let ids = profiles.map_values(|p: StartProfile| p.id.0 as int);
    let range = vstd::set_lib::set_int_range(0, n + 1);
    if !exists|c: u64| c <= profiles.len() && id_is_free(profiles, c) {
        assert forall|x: int| range.contains(x) implies ids.to_set().contains(x) by {
            let c = x as u64;
            assert(!(c <= profiles.len() && id_is_free(profiles, c)));
            let i = choose|i: int| 0 <= i < profiles.len() && (#[trigger] profiles[i]).id.0 == c;
            assert(ids[i] == x);
        }
        ids.lemma_cardinality_of_set();
        vstd::set_lib::lemma_int_range(0, n + 1);
        vstd::set_lib::lemma_len_subset(range, ids.to_set());
    }
}

/// Below a free id there is a least one.
proof fn lemma_least_free_exists(profiles: Seq<StartProfile>, c: u64)
    requires
        id_is_free(profiles, c),
    ensures
        is_least_free_id(profiles, least_free_id(profiles)),
        least_free_id(profiles) <= c,
    decreases c,
{
    if forall|d: u64| d < c ==> !id_is_free(profiles, d) {
        assert(is_least_free_id(profiles, c));
        lemma_least_free_unique(profiles, c);
    } else {
        let d = choose|d: u64| d < c && id_is_free(profiles, d);
        lemma_least_free_exists(profiles, d);
    }
}

/// The least free id is the one `least_free_id` names.
proof fn lemma_least_free_unique(profiles: Seq<StartProfile>, c: u64)
    requires
        is_least_free_id(profiles, c),
    ensures
        least_free_id(profiles) == c,
{
    let l = least_free_id(profiles);
    assert(is_least_free_id(profiles, l));
    if l < c {
        assert(!id_is_free(profiles, l));
    } else if c < l {
        assert(!id_is_free(profiles, c));
    }
}

/// Every id is at most the largest.
proof fn lemma_max_profile_id_bound(profiles: Seq<StartProfile>)
    ensures
        forall|i: int|
            0 <= i < profiles.len() ==> (max_profile_id(profiles) matches Some(m) && (
            #[trigger] profiles[i]).id.0 <= m),
    decreases profiles.len(),
{
    if profiles.len() > 0 {
        let rest = profiles.drop_last();
        lemma_max_profile_id_bound(rest);
        assert forall|i: int| 0 <= i < profiles.len() implies (max_profile_id(profiles) matches Some(
            m,
        ) && (#[trigger] profiles[i]).id.0 <= m) by {
            if i < profiles.len() - 1 {
                assert(profiles[i] == rest[i]);
            }
        }
    }
}

/// The id given to a new profile is held by none of the existing ones.
pub proof fn law_new_profile_id_is_fresh(profiles: Seq<StartProfile>)
    requires
        profiles.len() <= usize::MAX,
    ensures
        forall|i: int|
            0 <= i < profiles.len() ==> (#[trigger] profiles[i]).id != next_profile_id(profiles),
{
    lemma_max_profile_id_bound(profiles);
    if max_profile_id(profiles) == Some(u64::MAX) {
        lemma_some_id_free(profiles);
        let c = choose|c: u64| c <= profiles.len() && id_is_free(profiles, c);
        lemma_least_free_exists(profiles, c);
    }
}

/// Whether a profile holds the id.
fn holds_profile_id(profiles: &[StartProfile], id: u64) -> (r: bool)
    ensures
        r == !id_is_free(profiles@, id),
{
    let mut i: usize = 0;
    while i < profiles.len()
        invariant
            i <= profiles@.len(),
            forall|j: int| 0 <= j < i ==> (#[trigger] profiles@[j]).id.0 != id,
        decreases profiles@.len() - i,
    {
        if profiles[i].id.0 == id {
            return true;
        }
        i = i + 1;
    }
    false
}

/// The smallest id that no profile holds.
fn find_least_free_id(profiles: &[StartProfile]) -> (r: u64)
    ensures
        r == least_free_id(profiles@),
{
    let count = profiles.len();
    proof {
        assert(profiles@.len() == count);
        lemma_some_id_free(profiles@);
    }
    let mut c: u64 = 0;
    while holds_profile_id(profiles, c)
        invariant
            forall|d: u64| d < c ==> !id_is_free(profiles@, d),
            exists|w: u64| c <= w <= profiles@.len() && id_is_free(profiles@, w),
        decreases profiles@.len() - c,
    {
        let ghost w = choose|w: u64| c <= w <= profiles@.len() && id_is_free(profiles@, w);
        assert(c < w);
        c = c + 1;
        assert(c <= w <= profiles@.len() && id_is_free(profiles@, w));
    }
    proof {
        lemma_least_free_unique(profiles@, c);
    }
    c
}

/// The id for a new profile, see [`next_profile_id`].
pub fn new_profile_id(profiles: &[StartProfile]) -> (r: ProfileId)
    ensures
        r == next_profile_id(profiles@),
{
    let mut max: Option<u64> = None;
    let mut i: usize = 0;
    while i < profiles.len()
        invariant
            i <= profiles@.len(),
            max == max_profile_id(profiles@.take(i as int)),
        decreases profiles@.len() - i,
    {
        proof {
            assert(profiles@.take(i + 1).drop_last() =~= profiles@.take(i as int));
        }
        let id = profiles[i].id.0;
        max = match max {
            None => Some(id),
            Some(m) => Some(
                if m < id {
                    id
                } else {
                    m
                },
            ),
        };
        i = i + 1;
    }
    proof {
        assert(profiles@.take(profiles@.len() as int) =~= profiles@);
    }
    match max {
        None => ProfileId::new(0),
        Some(m) => {
            if m < u64::MAX {
                ProfileId::new(m + 1)
            } else {
                ProfileId::new(find_least_free_id(profiles))
            }
        },
    }
}

/// The shell field of the form: none when blank, else the trimmed text.
pub open spec fn form_shell(shell: Seq<char>) -> Option<Seq<char>> {
    if trimmed(shell).len() == 0 {
        None
    } else {
        Some(trimmed(shell))
    }
}

/// The command field of the form: none when blank, else the trimmed text
/// as the only argument.
pub open spec fn form_command(command: Seq<char>) -> Option<Seq<Seq<char>>> {
    if trimmed(command).len() == 0 {
        None
    } else {
        Some(seq![trimmed(command)])
    }
}

/// Creates the profile that the form describes: name and directory are
/// required (after trimming), shell and command are optional, and the new
/// profile's id is one more than the largest existing id (the smallest
/// free one when the largest is `u64::MAX`), so it is held by no existing
/// profile (see [`law_new_profile_id_is_fresh`]).
pub fn profile_from_form(
    existing: &[StartProfile],
    name: &str,
    directory: &str,
    shell: &str,
    command: &str,
) -> (r: Result<StartProfile, ProfileFormError>)
    ensures
        trimmed(name@).len() == 0 ==> (r matches Err(ProfileFormError::MissingName)),
        trimmed(name@).len() > 0 && trimmed(directory@).len() == 0 ==> (r matches Err(
            ProfileFormError::MissingDirectory,
        )),
        trimmed(name@).len() > 0 && trimmed(directory@).len() > 0 ==> match start_config_issue(
            trimmed(directory@),
            form_shell(shell@),
            form_command(command@),
        ) {
            Some(e) => r matches Err(ProfileFormError::Invalid(x)) && x@ == e,
            None => r matches Ok(p) && p.id == next_profile_id(existing@) && p.name@ == trimmed(
                name@,
            ) && p.start_config@ == (StartConfigView {
                working_directory: trimmed(directory@),
                shell: form_shell(shell@),
                command: form_command(command@),
            }),
        },
{
    let name_text = trim(name);
    if name_text.unicode_len() == 0 {
        return Err(ProfileFormError::MissingName);
    }
    let directory_text = trim(directory);
    if directory_text.unicode_len() == 0 {
        return Err(ProfileFormError::MissingDirectory);
    }
    let shell_text = trim(shell);
    let shell_arg = if shell_text.unicode_len() == 0 {
        None
    } else {
        Some(shell_text)
    };
    let command_text = trim(command);
    let command_arg = if command_text.unicode_len() == 0 {
        None
    } else {
        let mut args: Vec<String> = Vec::new();
        args.push(command_text);
        Some(args)
    };
    proof {
        if command_arg is Some {
            assert(command_arg.unwrap().deep_view() =~= seq![trimmed(command@)]);
        }
    }
    let config = match StartConfig::new(directory_text.as_str(), shell_arg, command_arg) {
        Ok(c) => c,
        Err(e) => return Err(ProfileFormError::Invalid(e)),
    };
    proof {
        lemma_trimmed_not_blank(name@);
    }
    let id = new_profile_id(existing);
    match StartProfile::new(id, name_text.as_str(), config) {
        Ok(p) => Ok(p),
        Err(e) => Err(ProfileFormError::Invalid(e)),
    }
}

/// Profile `j` comes before profile `i` when sorted by name, equal names
/// keeping their order.
pub open spec fn sorts_before(profiles: Seq<StartProfile>, j: int, i: int) -> bool {
    text_less(profiles[j].name@, profiles[i].name@) || (profiles[j].name@ == profiles[i].name@
        && j < i)
}

/// How many of the first `k` profiles come before profile `i`.
pub open spec fn count_before(profiles: Seq<StartProfile>, i: int, k: int) -> nat
    decreases k,
{
    if k <= 0 {
        0
    } else {
        count_before(profiles, i, k - 1) + if sorts_before(profiles, k - 1, i) {
            1nat
        } else {
            0nat
        }
    }
}

/// The position of profile `i` in the list sorted by name.
pub open spec fn name_rank(profiles: Seq<StartProfile>, i: int) -> nat {
    count_before(profiles, i, profiles.len() as int)
}

fn rank_of(profiles: &[StartProfile], i: usize) -> (r: usize)
    requires
        i < profiles@.len(),
    ensures
        r == name_rank(profiles@, i as int),
{
    let mut count: usize = 0;
    let mut j: usize = 0;
    while j < profiles.len()
        invariant
            i < profiles@.len(),
            j <= profiles@.len(),
            count <= j,
            count == count_before(profiles@, i as int, j as int),
        decreases profiles@.len() - j,
    {
        let before = text_before(profiles[j].name.as_str(), profiles[i].name.as_str()) || (
        same_name(&profiles[j], &profiles[i]) && j < i);
        if before {
            count = count + 1;
        }
        j = j + 1;
    }
    count
}

fn same_name(a: &StartProfile, b: &StartProfile) -> (r: bool)
    ensures
        r == (a.name@ == b.name@),
{
    crate::text::same_text(a.name.as_str(), b.name.as_str())
}

/// The profile that quick-pick shortcut `n` (counting from 1) applies: the
/// `n`-th by name. `None` when there are fewer profiles.
pub fn shortcut_profile(profiles: &[StartProfile], n: usize) -> (r: Option<ProfileId>)
    ensures
        ({
            let k = if n == 0 {
                0
            } else {
                n - 1
            };
            &&& r matches Some(id) ==> exists|i: int|
                0 <= i < profiles@.len() && name_rank(profiles@, i) == k && (#[trigger] profiles@[i]).id
                    == id
            &&& r is None ==> forall|i: int|
                0 <= i < profiles@.len() ==> name_rank(profiles@, i) != k
        }),
{
    let k: usize = if n == 0 {
        0
    } else {
        n - 1
    };
    let mut i: usize = 0;
    while i < profiles.len()
        invariant
            i <= profiles@.len(),
            k == (if n == 0 {
                0
            } else {
                n - 1
            }),
            forall|j: int| 0 <= j < i ==> name_rank(profiles@, j) != k,
        decreases profiles@.len() - i,
    {
        if rank_of(profiles, i) == k {
            assert(profiles@[i as int].id == profiles@[i as int].id);
            return Some(profiles[i].id);
        }
        i = i + 1;
    }
    None
}

/// Sorting by name is a strict order on the positions of a profile list.
proof fn lemma_sorts_before_order(profiles: Seq<StartProfile>, a: int, b: int, c: int)
    ensures
        !sorts_before(profiles, a, a),
        a != b ==> sorts_before(profiles, a, b) || sorts_before(profiles, b, a),
        sorts_before(profiles, a, b) ==> !sorts_before(profiles, b, a),
        sorts_before(profiles, a, b) && sorts_before(profiles, b, c) ==> sorts_before(
            profiles,
            a,
            c,
        ),
{
    let (x, y, z) = (profiles[a].name@, profiles[b].name@, profiles[c].name@);
    lemma_text_less_irreflexive(x);
    if x != y {
        lemma_text_less_total(x, y);
    }
    if text_less(x, y) {
        lemma_text_less_asymmetric(x, y);
    }
    if text_less(x, y) && text_less(y, z) {
        lemma_text_less_transitive(x, y, z);
    }
    lemma_text_less_irreflexive(y);
}

/// A profile that sorts before another has fewer profiles before it,
/// counted over any prefix.
proof fn lemma_count_before_grows(profiles: Seq<StartProfile>, j: int, i: int, k: int)
    requires
        sorts_before(profiles, j, i),
    ensures
        count_before(profiles, i, k) >= count_before(profiles, j, k) + if 0 <= j < k {
            1int
        } else {
            0int
        },
    decreases k,
{
    if k > 0 {
        lemma_count_before_grows(profiles, j, i, k - 1);
        lemma_sorts_before_order(profiles, k - 1, j, i);
        lemma_sorts_before_order(profiles, j, j, i);
    }
}

/// At most the other profiles of the prefix come before a profile.
proof fn lemma_count_before_bound(profiles: Seq<StartProfile>, i: int, k: int)
    requires
        0 <= k,
    ensures
        count_before(profiles, i, k) + (if 0 <= i < k {
            1int
        } else {
            0int
        }) <= k,
    decreases k,
{
    if k > 0 {
        lemma_count_before_bound(profiles, i, k - 1);
        lemma_sorts_before_order(profiles, i, i, i);
    }
}

/// Every position of the list sorted by name holds exactly one profile:
/// the ranks of the profiles are distinct and each number below the count
/// is the rank of one of them.
pub proof fn law_name_ranks_are_positions(profiles: Seq<StartProfile>, k: int)
    requires
        0 <= k < profiles.len(),
    ensures
        exists|i: int| 0 <= i < profiles.len() && #[trigger] name_rank(profiles, i) == k,
        forall|i: int, j: int|
            0 <= i < profiles.len() && 0 <= j < profiles.len() && i != j ==> name_rank(profiles, i)
                != name_rank(profiles, j),
{
    let n = profiles.len() as int;
    assert forall|i: int, j: int|
        0 <= i < n && 0 <= j < n && i != j implies name_rank(profiles, i) != name_rank(
        profiles,
        j,
    ) by {
        lemma_sorts_before_order(profiles, i, j, i);
        if sorts_before(profiles, i, j) {
            lemma_count_before_grows(profiles, i, j, n);
        } else {
            lemma_count_before_grows(profiles, j, i, n);
        }
    }
    let positions = vstd::set_lib::set_int_range(0, n);
    let rank = |i: int| name_rank(profiles, i) as int;
    let ranks = positions.map(rank);
    vstd::set_lib::lemma_int_range(0, n);
    assert(vstd::relations::injective_on(rank, positions)) by {
        assert forall|x: int, y: int|
            positions.contains(x) && positions.contains(y) && #[trigger] rank(x) == #[trigger] rank(
                y,
            ) implies x == y by {
            if x != y {
                assert(name_rank(profiles, x) != name_rank(profiles, y));
            }
        }
    }
    vstd::set_lib::lemma_map_size(positions, ranks, rank);
    if !(exists|i: int| 0 <= i < n && #[trigger] name_rank(profiles, i) == k) {
        let others = positions.remove(k);
        assert forall|r: int| ranks.contains(r) implies others.contains(r) by {
            let i = choose|i: int| positions.contains(i) && rank(i) == r;
            lemma_count_before_bound(profiles, i, n);
            assert(name_rank(profiles, i) == rank(i));
        }
        vstd::set_lib::lemma_len_subset(ranks, others);
        assert(positions.contains(k));
    }
}

/// The position of the profile with this id, if any.
pub fn profile_position(profiles: &[StartProfile], id: ProfileId) -> (r: Option<usize>)
    ensures
        r matches Some(i) ==> (i < profiles@.len() && profiles@[i as int].id == id && forall|j: int|
            0 <= j < i ==> profiles@[j].id != id),
        r is None ==> forall|j: int| 0 <= j < profiles@.len() ==> profiles@[j].id != id,
{
    let mut i: usize = 0;
    while i < profiles.len()
        invariant
            i <= profiles@.len(),
            forall|j: int| 0 <= j < i ==> profiles@[j].id != id,
        decreases profiles@.len() - i,
    {
        if profiles[i].id == id {
            return Some(i);
        }
        i = i + 1;
    }
    None
}

/// A status message about profiles.
#[derive(Debug)]
pub enum ProfileNotice {
    /// No profile for the shortcut used.
    NoShortcut,
    /// The chosen profile is gone.
    NotFound,
    /// The profile with this name is now active.
    Applied(String),
    /// The profile with this name was stored.
    Saved(String),
    /// The workspace storage is not set up yet.
    StorageMissing,
}

/// The text of a profile notice.
pub open spec fn notice_message(notice: ProfileNotice) -> Seq<char> {
    match notice {
        ProfileNotice::NoShortcut => "Kein Profil für diesen Schnellzugriff vorhanden."@,
        ProfileNotice::NotFound => "Das ausgewählte Profil wurde nicht gefunden."@,
        ProfileNotice::Applied(name) => "Profil „"@ + name@
            + "“ aktiv. Wende das Profil auf neue Panes an."@,
        ProfileNotice::Saved(name) => "Profil „"@ + name@ + "“ wurde gespeichert."@,
        ProfileNotice::StorageMissing => "Workspace-Storage ist nicht initialisiert."@,
    }
}

impl ProfileNotice {
    pub fn user_message(&self) -> (r: String)
        ensures
            r@ == notice_message(*self),
    {
        match self {
            ProfileNotice::NoShortcut => "Kein Profil für diesen Schnellzugriff vorhanden.".to_owned(),
            ProfileNotice::NotFound => "Das ausgewählte Profil wurde nicht gefunden.".to_owned(),
            ProfileNotice::Applied(name) => {
                let mut text = "Profil „".to_owned();
                text.append(name.as_str());
                text.append("“ aktiv. Wende das Profil auf neue Panes an.");
                text
            },
            ProfileNotice::Saved(name) => {
                let mut text = "Profil „".to_owned();
                text.append(name.as_str());
                text.append("“ wurde gespeichert.");
                text
            },
            ProfileNotice::StorageMissing => "Workspace-Storage ist nicht initialisiert.".to_owned(),
        }
    }
}

} // verus!

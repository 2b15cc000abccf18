//! The rules for loading and saving `profiles.toml` and `layout.toml`:
//! which stored contents are accepted, which warning a rejected file gives,
//! which existing file may be overwritten, and how often the layout is
//! written. Reading and writing the files, and decoding their records,
//! is the caller's part.
use vstd::prelude::*;
use vstd::utf8::{decode_utf8, valid_utf8};

use super::error::{WorkspaceError, WorkspaceErrorView, WorkspaceWarning};
use super::layout::{snapshot_issue, LayoutSnapshot, LayoutSnapshotView};
use super::profile::{profile_issue, StartProfile};
use super::SCHEMA_VERSION;

verus! {

/// `std::str::from_utf8`: the text that the bytes encode, if they are valid
/// UTF-8 (as the standard library documents it).
#[verifier::external_body]
fn utf8_text(bytes: &[u8]) -> (r: Option<&str>)
    ensures
        r is Some == valid_utf8(bytes@),
        r matches Some(t) ==> t@ == decode_utf8(bytes@),
{
    std::str::from_utf8(bytes).ok()
}

/// What the `toml` crate reads at a top-level key of a document: `None`
/// when the text is not a TOML document, `Some(None)` when the key is
/// absent or its value is not an integer.
pub uninterp spec fn toml_top_level_integer(text: Seq<char>, key: Seq<char>) -> Option<Option<i64>>;

/// Parses the text as a TOML document (`str::parse::<toml::Value>`) and
/// reads the integer at a top-level key (`toml::Value::get`, then
/// `toml::Value::as_integer`). The contract names the result as a function
/// of the text and the key; which documents the parser accepts is not
/// stated.
#[verifier::external_body]
fn top_level_integer(text: &str, key: &str) -> (r: Option<Option<i64>>)
    ensures
        r == toml_top_level_integer(text@, key@),
{
    match text.parse::<toml::Value>() {
        Ok(document) => Some(document.get(key).and_then(toml::Value::as_integer)),
        Err(_) => None,
    }
}

/// The version a loaded file declares: a missing or non-integer field
/// counts as 0, and the number is cut to 32 bits.
pub open spec fn declared_version(field: Option<i64>) -> u32 {
    match field {
        Some(v) => v as u32,
        None => 0,
    }
}

/// The schema field of stored contents: `None` when they are not UTF-8 or
/// not TOML.
pub open spec fn schema_field(contents: Seq<u8>) -> Option<Option<i64>> {
    if valid_utf8(contents) {
        toml_top_level_integer(decode_utf8(contents), "schema_version"@)
    } else {
        None
    }
}

/// The profiles are acceptable: no id occurs twice and each profile passes
/// validation.
pub open spec fn profiles_valid(profiles: Seq<StartProfile>) -> bool {
    &&& forall|i: int, j: int|
        0 <= i < j < profiles.len() ==> (#[trigger] profiles[i]).id != (#[trigger] profiles[j]).id
    &&& forall|i: int|
        0 <= i < profiles.len() ==> profile_issue(
            (#[trigger] profiles[i]).name@,
            profiles[i].start_config@,
        ) is None
}

/// Whether no profile id occurs twice and every profile passes validation.
pub fn profiles_are_valid(profiles: &[StartProfile]) -> (r: bool)
    ensures
        r == profiles_valid(profiles@),
{
    let mut i: usize = 0;
    while i < profiles.len()
        invariant
            i <= profiles@.len(),
            forall|a: int, b: int|
                0 <= a < b < i ==> (#[trigger] profiles@[a]).id != (#[trigger] profiles@[b]).id,
            forall|a: int|
                0 <= a < i ==> profile_issue(
                    (#[trigger] profiles@[a]).name@,
                    profiles@[a].start_config@,
                ) is None,
        decreases profiles@.len() - i,
    {
        let mut k: usize = 0;
        while k < i
            invariant
                k <= i,
                i < profiles@.len(),
                forall|a: int| 0 <= a < k ==> (#[trigger] profiles@[a]).id != profiles@[i as int].id,
            decreases i - k,
        {
            if profiles[k].id == profiles[i].id {
                assert(profiles@[k as int].id == profiles@[i as int].id);
                return false;
            }
            k = k + 1;
        }
        if profiles[i].validate().is_err() {
            return false;
        }
        i = i + 1;
    }
    true
}

/// The loaded profiles are acceptable when decoding gave a list that
/// passes [`profiles_valid`].
pub open spec fn decoded_profiles_accepted(decoded: Option<Vec<StartProfile>>) -> bool {
    match decoded {
        Some(d) => profiles_valid(d@),
        None => false,
    }
}

/// Decides what loading `profiles.toml` yields from its contents and from
/// the list the caller decoded from them (`None` when decoding failed):
/// the profiles and no warning, or no profiles and one warning.
pub fn parse_profiles(contents: &[u8], decoded: Option<Vec<StartProfile>>) -> (r: (
    Vec<StartProfile>,
    Vec<WorkspaceWarning>,
))
    ensures
        match schema_field(contents@) {
            None => r.0@.len() == 0 && r.1@ == seq![WorkspaceWarning::InvalidToml],
            Some(field) => if declared_version(field) != SCHEMA_VERSION {
                r.0@.len() == 0 && r.1@ == seq![
                    WorkspaceWarning::UnsupportedVersion(declared_version(field)),
                ]
            } else if decoded_profiles_accepted(decoded) {
                r.0@ == decoded.unwrap()@ && r.1@.len() == 0
            } else {
                r.0@.len() == 0 && r.1@ == seq![WorkspaceWarning::InvalidToml]
            },
        },
{
    let text = match utf8_text(contents) {
        Some(text) => text,
        None => return (Vec::new(), vec![WorkspaceWarning::InvalidToml]),
    };
    let field = match top_level_integer(text, "schema_version") {
        Some(field) => field,
        None => return (Vec::new(), vec![WorkspaceWarning::InvalidToml]),
    };
    let version: u32 = match field {
        Some(v) => v as u32,
        None => 0,
    };
    if version != SCHEMA_VERSION {
        return (Vec::new(), vec![WorkspaceWarning::UnsupportedVersion(version)]);
    }
    match decoded {
        Some(profiles) => {
            if profiles_are_valid(profiles.as_slice()) {
                (profiles, Vec::new())
            } else {
                (Vec::new(), vec![WorkspaceWarning::InvalidToml])
            }
        },
        None => (Vec::new(), vec![WorkspaceWarning::InvalidToml]),
    }
}

/// The loaded snapshot is acceptable when decoding gave one that passes
/// [`LayoutSnapshot::validate`].
pub open spec fn decoded_layout_accepted(decoded: Option<LayoutSnapshot>) -> bool {
    match decoded {
        Some(d) => snapshot_issue(d@) is None,
        None => false,
    }
}

/// The view of an empty snapshot.
pub open spec fn empty_snapshot() -> LayoutSnapshotView {
    LayoutSnapshotView {
        schema_version: SCHEMA_VERSION,
        active_profile_id: None,
        active_tab_index: 0,
        tabs: Seq::empty(),
    }
}

/// Decides what loading `layout.toml` yields from its contents and from
/// the snapshot the caller decoded from them (`None` when decoding
/// failed): the snapshot and no warning, or an empty snapshot and one
/// warning.
pub fn parse_layout(contents: &[u8], decoded: Option<LayoutSnapshot>) -> (r: (
    LayoutSnapshot,
    Vec<WorkspaceWarning>,
))
    ensures
        match schema_field(contents@) {
            None => r.0@ == empty_snapshot() && r.1@ == seq![WorkspaceWarning::InvalidToml],
            Some(field) => if declared_version(field) != SCHEMA_VERSION {
                r.0@ == empty_snapshot() && r.1@ == seq![
                    WorkspaceWarning::UnsupportedVersion(declared_version(field)),
                ]
            } else if decoded_layout_accepted(decoded) {
                r.0 == decoded.unwrap() && r.1@.len() == 0
            } else {
                r.0@ == empty_snapshot() && r.1@ == seq![WorkspaceWarning::InvalidToml]
            },
        },
{
    let text = match utf8_text(contents) {
        Some(text) => text,
        None => return (LayoutSnapshot::empty(), vec![WorkspaceWarning::InvalidToml]),
    };
    let field = match top_level_integer(text, "schema_version") {
        Some(field) => field,
        None => return (LayoutSnapshot::empty(), vec![WorkspaceWarning::InvalidToml]),
    };
    let version: u32 = match field {
        Some(v) => v as u32,
        None => 0,
    };
    if version != SCHEMA_VERSION {
        return (LayoutSnapshot::empty(), vec![WorkspaceWarning::UnsupportedVersion(version)]);
    }
    match decoded {
        Some(snapshot) => {
            if snapshot.validate().is_ok() {
                (snapshot, Vec::new())
            } else {
                (LayoutSnapshot::empty(), vec![WorkspaceWarning::InvalidToml])
            }
        },
        None => (LayoutSnapshot::empty(), vec![WorkspaceWarning::InvalidToml]),
    }
}

/// What the caller decoded from an existing file, by its kind (`None` when
/// decoding failed).
pub enum StoredFile {
    Profiles(Option<Vec<StartProfile>>),
    Layout(Option<LayoutSnapshot>),
}

/// Why an existing file must not be overwritten, if it must not: its
/// contents are not UTF-8 or not TOML, its schema field is missing or not
/// a 32-bit unsigned number, it declares another version, or its records
/// do not decode or are not valid.
pub open spec fn overwrite_issue(contents: Seq<u8>, decoded: StoredFile) -> Option<
    WorkspaceErrorView,
> {
    if !valid_utf8(contents) {
        Some(WorkspaceErrorView::InvalidUtf8)
    } else {
        match toml_top_level_integer(decode_utf8(contents), "schema_version"@) {
            None => Some(WorkspaceErrorView::InvalidToml),
            Some(None) => Some(WorkspaceErrorView::InvalidToml),
            Some(Some(v)) => if v < 0 || v > u32::MAX {
                Some(WorkspaceErrorView::InvalidToml)
            } else if v != SCHEMA_VERSION {
                Some(WorkspaceErrorView::UnsupportedVersion(v as u32))
            } else {
                match decoded {
                    StoredFile::Profiles(p) => if decoded_profiles_accepted(p) {
                        None
                    } else {
                        Some(WorkspaceErrorView::InvalidToml)
                    },
                    StoredFile::Layout(None) => Some(WorkspaceErrorView::InvalidToml),
                    StoredFile::Layout(Some(s)) => snapshot_issue(s@),
                }
            },
        }
    }
}

/// Checks that the existing file (`None`: there is none) may be replaced:
/// a file that this version cannot read back is left alone.
pub fn ensure_writable(existing: Option<&[u8]>, decoded: StoredFile) -> (r: Result<
    (),
    WorkspaceError,
>)
    ensures
        match existing {
            None => r is Ok,
            Some(contents) => match overwrite_issue(contents@, decoded) {
                Some(e) => r matches Err(x) && x@ == e,
                None => r is Ok,
            },
        },
{
    let contents = match existing {
        Some(contents) => contents,
        None => return Ok(()),
    };
    let text = match utf8_text(contents) {
        Some(text) => text,
        None => return Err(WorkspaceError::InvalidUtf8),
    };
    let version: u32 = match top_level_integer(text, "schema_version") {
        Some(Some(v)) => {
            if v < 0 || v > 4294967295 {
                return Err(WorkspaceError::InvalidToml);
            }
            v as u32
        },
        _ => return Err(WorkspaceError::InvalidToml),
    };
    if version != SCHEMA_VERSION {
        return Err(WorkspaceError::UnsupportedVersion(version));
    }
    match decoded {
        StoredFile::Profiles(Some(profiles)) => {
            if profiles_are_valid(profiles.as_slice()) {
                Ok(())
            } else {
                Err(WorkspaceError::InvalidToml)
            }
        },
        StoredFile::Profiles(None) => Err(WorkspaceError::InvalidToml),
        StoredFile::Layout(Some(snapshot)) => snapshot.validate(),
        StoredFile::Layout(None) => Err(WorkspaceError::InvalidToml),
    }
}

} // verus!

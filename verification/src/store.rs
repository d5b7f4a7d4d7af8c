//! The on-disk search store: how entry kinds are stored, which migration a
//! database of a given schema version needs, and the pattern that selects a
//! folder's entries. The SQL itself is run by the caller.

use vstd::prelude::*;
use crate::model::EntryKind;
use crate::text::{chars_of, push_char, push_str};

verus! {

/// The schema version of the search database.
pub const SEARCH_DB_VERSION: u32 = 2;

/// What opening a database of some schema version requires.
#[derive(Debug, Clone, Copy, PartialEq, Eq, Structural)]
pub enum Migration {
    /// A new database: create the schema.
    CreateSchema,
    /// The first version: add the unique index on the scan state's root.
    AddScanStateIndex,
    /// The current version: nothing to do.
    Current,
    /// A version this program does not know.
    Unsupported(u32),
}

/// The migration a database of schema `version` needs.
pub fn migration_for(version: u32) -> (m: Migration)
    ensures
        version == 0 ==> m == Migration::CreateSchema,
        version == 1 ==> m == Migration::AddScanStateIndex,
        version == SEARCH_DB_VERSION ==> m == Migration::Current,
        version > SEARCH_DB_VERSION ==> m == Migration::Unsupported(version),
{
    if version == 0 {
        Migration::CreateSchema
    } else if version == 1 {
        Migration::AddScanStateIndex
    } else if version == SEARCH_DB_VERSION {
        Migration::Current
    } else {
        Migration::Unsupported(version)
    }
}

/// `s` without its trailing slashes.
pub open spec fn without_trailing_slashes(s: Seq<char>) -> Seq<char>
    decreases s.len(),
{
    if s.len() > 0 && s.last() == '/' {
        without_trailing_slashes(s.drop_last())
    } else {
        s
    }
}

/// The `LIKE` pattern matching every path under the folder `path`.
pub fn tree_like_pattern(path: &str) -> (p: String)
    ensures
        p@ == without_trailing_slashes(path@) + "/%"@,
{
    let cs = chars_of(path);
    let mut end = cs.len();
    assert(cs@.take(end as int) =~= cs@);
    while end > 0 && cs[end - 1] == '/'
        invariant
            end <= cs@.len(),
            without_trailing_slashes(cs@) == without_trailing_slashes(cs@.take(end as int)),
        decreases end,
    {
        assert(cs@.take(end as int).drop_last() =~= cs@.take(end as int - 1));
        end -= 1;
    }
    let mut out = String::new();
    let mut k: usize = 0;
    while k < end
        invariant
            k <= end <= cs@.len(),
            out@ == cs@.subrange(0, k as int),
        decreases end - k,
    {
        push_char(&mut out, cs[k]);
        assert(out@ =~= cs@.subrange(0, k as int + 1));
        k += 1;
    }
    assert(out@ =~= cs@.take(end as int));
    push_str(&mut out, "/%");
    out
}

// ── Stored entry kinds ──────────────────────────────────────────────────────

/// The number under which an entry kind is stored.
pub open spec fn kind_code(kind: EntryKind) -> i64 {
    match kind {
        EntryKind::File => 0,
        EntryKind::Directory => 1,
        EntryKind::Symlink => 2,
        EntryKind::Other => 3,
    }
}

/// The entry kind stored under a number; unknown numbers read as files.
pub open spec fn kind_of_code(value: i64) -> EntryKind {
    if value == 1 {
        EntryKind::Directory
    } else if value == 2 {
        EntryKind::Symlink
    } else if value == 3 {
        EntryKind::Other
    } else {
        EntryKind::File
    }
}

/// The number under which an entry kind is stored.
pub fn entry_kind_to_i64(kind: EntryKind) -> (r: i64)
    ensures
        r == kind_code(kind),
{
    match kind {
        EntryKind::File => 0,
        EntryKind::Directory => 1,
        EntryKind::Symlink => 2,
        EntryKind::Other => 3,
    }
}

/// The entry kind stored under a number.
pub fn entry_kind_from_i64(value: i64) -> (k: EntryKind)
    ensures
        k == kind_of_code(value),
{
    if value == 1 {
        EntryKind::Directory
    } else if value == 2 {
        EntryKind::Symlink
    } else if value == 3 {
        EntryKind::Other
    } else {
        EntryKind::File
    }
}

/// A stored kind reads back as the kind that was stored.
pub proof fn law_entry_kind_roundtrip(kind: EntryKind)
    ensures
        kind_of_code(kind_code(kind)) == kind,
{
}

} // verus!

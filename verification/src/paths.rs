//! Path operations on UTF-8 path strings, backed by `std::path::Path`.

use vstd::prelude::*;

verus! {

/// What `Path::eq` answers for two paths: equality of their component lists.
pub uninterp spec fn same_path(a: Seq<char>, b: Seq<char>) -> bool;

/// What `Path::parent` returns: the path without its final component.
pub uninterp spec fn parent_of(p: Seq<char>) -> Option<Seq<char>>;

/// What `Path::file_name` returns: the final component when it is a normal one.
pub uninterp spec fn file_name_of(p: Seq<char>) -> Option<Seq<char>>;

/// What `Path::starts_with` answers: `base` is a prefix of `p`, compared by whole components.
pub uninterp spec fn path_has_base(p: Seq<char>, base: Seq<char>) -> bool;

/// What `Path::strip_prefix` returns: the part of `p` after the components of `base`.
pub uninterp spec fn relative_to(p: Seq<char>, base: Seq<char>) -> Option<Seq<char>>;

/// What `Path::components` yields, each component written as its own string
/// (`"/"` for the root, `"."` and `".."` for the current and parent directory).
pub uninterp spec fn components_of(p: Seq<char>) -> Seq<Seq<char>>;

/// What `Path::join` returns.
pub uninterp spec fn joined(base: Seq<char>, tail: Seq<char>) -> Seq<char>;

/// The index of the last `c` in `s`, or -1.
pub open spec fn rfind_char(s: Seq<char>, c: char) -> int
    decreases s.len(),
{
    if s.len() == 0 {
        -1
    } else if s.last() == c {
        s.len() - 1
    } else {
        rfind_char(s.drop_last(), c)
    }
}

/// The extension of a file name as `Path::extension` documents it: none when the
/// name has no `.` other than a leading one, otherwise the text after the final `.`.
pub open spec fn name_extension(name: Seq<char>) -> Option<Seq<char>> {
    let i = rfind_char(name, '.');
    if i <= 0 {
        None
    } else {
        Some(name.subrange(i + 1, name.len() as int))
    }
}

/// The stem of a file name as `Path::file_stem` documents it: the whole name when
/// it has no `.` other than a leading one, otherwise the text before the final `.`.
pub open spec fn name_stem(name: Seq<char>) -> Seq<char> {
    let i = rfind_char(name, '.');
    if i <= 0 {
        name
    } else {
        name.subrange(0, i)
    }
}

/// The extension of the file name of `p`.
pub open spec fn extension_of(p: Seq<char>) -> Option<Seq<char>> {
    match file_name_of(p) {
        Some(n) => name_extension(n),
        None => None,
    }
}

/// The stem of the file name of `p`.
pub open spec fn stem_of(p: Seq<char>) -> Option<Seq<char>> {
    match file_name_of(p) {
        Some(n) => Some(name_stem(n)),
        None => None,
    }
}

/// `Path::eq`. Path equality is an equivalence (`Path: Eq`, comparing the
/// component lists), so equal strings are equal paths and the answer does not
/// depend on the order of the two paths.
#[verifier::external_body]
pub(crate) fn path_eq(a: &str, b: &str) -> (r: bool)
    ensures
        r == same_path(a@, b@),
        r == same_path(b@, a@),
        a@ == b@ ==> r,
{
    std::path::Path::new(a) == std::path::Path::new(b)
}

/// `Path::parent`. The root and the empty path have no parent.
#[verifier::external_body]
pub(crate) fn path_parent(p: &str) -> (r: Option<&str>)
    ensures
        match r {
            Some(q) => parent_of(p@) == Some(q@),
            None => parent_of(p@) == None::<Seq<char>>,
        },
        p@ == Seq::<char>::empty() ==> r is None,
        p@ == seq!['/'] ==> r is None,
{
    std::path::Path::new(p).parent().and_then(|q| q.to_str())
}

/// `Path::file_name`: the final component of the path, if it is a normal component.
#[verifier::external_body]
pub(crate) fn path_file_name(p: &str) -> (r: Option<&str>)
    ensures
        match r {
            Some(n) => file_name_of(p@) == Some(n@),
            None => file_name_of(p@) == None::<Seq<char>>,
        },
{
    std::path::Path::new(p).file_name().and_then(|n| n.to_str())
}

/// `Path::extension`.
#[verifier::external_body]
pub(crate) fn path_extension(p: &str) -> (r: Option<&str>)
    ensures
        match r {
            Some(e) => extension_of(p@) == Some(e@),
            None => extension_of(p@) == None::<Seq<char>>,
        },
{
    std::path::Path::new(p).extension().and_then(|e| e.to_str())
}

/// `Path::file_stem`.
#[verifier::external_body]
pub(crate) fn path_file_stem(p: &str) -> (r: Option<&str>)
    ensures
        match r {
            Some(e) => stem_of(p@) == Some(e@),
            None => stem_of(p@) == None::<Seq<char>>,
        },
{
    std::path::Path::new(p).file_stem().and_then(|e| e.to_str())
}

/// `Path::starts_with`. Every path starts with itself.
#[verifier::external_body]
pub(crate) fn path_starts_with(p: &str, base: &str) -> (r: bool)
    ensures
        r == path_has_base(p@, base@),
        p@ == base@ ==> r,
{
    std::path::Path::new(p).starts_with(base)
}

/// `Path::strip_prefix`, which succeeds exactly when `p` starts with `base`.
#[verifier::external_body]
pub(crate) fn path_strip_prefix<'a>(p: &'a str, base: &str) -> (r: Option<&'a str>)
    ensures
        match r {
            Some(q) => relative_to(p@, base@) == Some(q@),
            None => relative_to(p@, base@) == None::<Seq<char>>,
        },
        r is Some <==> path_has_base(p@, base@),
{
    std::path::Path::new(p).strip_prefix(base).ok().and_then(|q| q.to_str())
}

/// `Path::components`, each component as a string.
#[verifier::external_body]
pub(crate) fn path_components(p: &str) -> (r: Vec<String>)
    ensures
        r@.map_values(|s: String| s@) == components_of(p@),
{
    std::path::Path::new(p).components().map(|c| c.as_os_str().to_string_lossy().into_owned()).collect()
}

/// `Path::join`.
#[verifier::external_body]
pub(crate) fn path_join(base: &str, tail: &str) -> (r: String)
    ensures
        r@ == joined(base@, tail@),
{
    std::path::Path::new(base).join(tail).to_string_lossy().into_owned()
}

/// Folder roots excluded from indexing by default: the virtual kernel
/// filesystems of Linux, so they are not walked when `/` is indexed.
pub open spec fn spec_default_exclude_roots() -> Seq<Seq<char>> {
    seq!["/proc"@, "/sys"@, "/dev"@, "/run"@]
}

/// Pre-populated excluded folder roots (the Linux virtual kernel filesystems).
pub fn default_exclude_roots() -> (v: Vec<String>)
    ensures
        v@.map_values(|s: String| s@) == spec_default_exclude_roots(),
{
    let v = crate::model::owned_strings(&["/proc", "/sys", "/dev", "/run"]);
    assert(v@.map_values(|s: String| s@) =~= spec_default_exclude_roots());
    v
}

} // verus!

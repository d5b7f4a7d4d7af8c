//! The indexer's rules: which paths are kept, how an entry becomes a search
//! item, how the glob sets are built, and how filesystem change events update
//! the index without a full walk. The walks themselves are the caller's.

use vstd::prelude::*;
use crate::matchers::{
    add_glob, build_glob_set, builder_globs, glob_matches, glob_parse_error, glob_set_is_match,
    globset_build_error, new_glob_builder, set_globs, set_matches,
};
use crate::model::{EntryKind, SearchResultItem};
use crate::paths::{
    components_of, file_name_of, parent_of, path_components, path_eq, path_file_name, path_has_base,
    path_parent, path_starts_with, path_strip_prefix, relative_to, same_path,
};
use crate::query::{eval_expr, holds, Expr};
use crate::model::SearchQuery;
use crate::pipeline::{dot_name, duplicate_item, is_dot_name};
use crate::ranking::{relevance_of, relevance_score};
use crate::text::{ascii_lower, has_prefix, str_starts_with, str_trim, trim};
use crate::navigation::str_views;
use crate::target::{any_is_path, lists_path};

verus! {

/// Items are handed to the index in batches of this size while a walk runs.
pub const STREAM_BATCH_SIZE: usize = 2_000;

/// A debounce window with more change events than this triggers a full rebuild.
pub const INCREMENTAL_REBUILD_THRESHOLD: usize = 500;

/// Change events are applied once no new one has come for this many milliseconds.
pub const EVENT_QUIET_MILLIS: u64 = 500;

// ── Roots ───────────────────────────────────────────────────────────────────

/// The mount point of a line of `/proc/mounts`: its second field.
pub open spec fn mount_point_of(line: Seq<char>) -> Option<Seq<char>> {
    if crate::text::words(line).len() >= 2 {
        Some(crate::text::words(line)[1])
    } else {
        None
    }
}

/// The mount point named by a line of the mount table.
pub fn mount_point(line: &str) -> (r: Option<String>)
    ensures
        match r {
            Some(m) => mount_point_of(line@) == Some(m@),
            None => mount_point_of(line@) is None,
        },
{
    let fields = crate::content::split_words(line);
    if fields.len() >= 2 {
        let m = fields[1].clone();
        assert(fields@.map_values(|w: String| w@)[1] == fields@[1]@);
        Some(m)
    } else {
        None
    }
}

/// Removable media are mounted under `/media`, `/mnt` or `/run/media`.
pub open spec fn removable_mount_of(p: Seq<char>) -> bool {
    path_has_base(p, "/media"@) || path_has_base(p, "/mnt"@) || path_has_base(p, "/run/media"@)
}

/// Whether a mount point is one for removable media.
pub fn is_removable_mount(p: &str) -> (r: bool)
    ensures
        r == removable_mount_of(p@),
{
    path_starts_with(p, "/media") || path_starts_with(p, "/mnt") || path_starts_with(p, "/run/media")
}

/// The default roots: `home`, then each removable mount point of `points` in
/// order, each path once.
pub open spec fn removable_roots_of(home: Seq<char>, points: Seq<Seq<char>>) -> Seq<Seq<char>>
    decreases points.len(),
{
    if points.len() == 0 {
        seq![home]
    } else {
        let r = removable_roots_of(home, points.drop_last());
        let m = points.last();
        if removable_mount_of(m) && !lists_path(r, m) {
            r.push(m)
        } else {
            r
        }
    }
}

/// The default roots from the home folder and the mount points of the mount table.
pub fn with_removable_mounts(home: String, points: &Vec<String>) -> (r: Vec<String>)
    ensures
        str_views(r@) == removable_roots_of(home@, str_views(points@)),
{
    let ghost pv = str_views(points@);
    let mut roots: Vec<String> = Vec::new();
    roots.push(home);
    assert(str_views(roots@) =~= removable_roots_of(home@, pv.take(0)));
    let mut i: usize = 0;
    while i < points.len()
        invariant
            pv == str_views(points@),
            i <= points@.len(),
            str_views(roots@) == removable_roots_of(home@, pv.take(i as int)),
        decreases points@.len() - i,
    {
        assert(pv.take(i as int + 1).drop_last() =~= pv.take(i as int));
        assert(pv.take(i as int + 1).last() == points@[i as int]@);
        let m = points[i].as_str();
        if is_removable_mount(m) && !any_is_path(&roots, m) {
            roots.push(m.to_owned());
            assert(str_views(roots@) =~= removable_roots_of(home@, pv.take(i as int + 1)));
        }
        i += 1;
    }
    assert(pv.take(pv.len() as int) =~= pv);
    roots
}

/// A path with the device of its filesystem, when it could be read.
pub open spec fn dev_views(v: Seq<(String, Option<u64>)>) -> Seq<(Seq<char>, Option<u64>)> {
    v.map_values(|e: (String, Option<u64>)| (e.0@, e.1))
}

/// Scanning the mount points for one root: a mount point under the root that
/// was not seen yet is marked seen and, unless it is on the root's own device,
/// becomes a root. Gives the roots and the seen paths.
pub open spec fn mount_scan(
    out: Seq<Seq<char>>,
    seen: Seq<Seq<char>>,
    root: Seq<char>,
    root_dev: Option<u64>,
    mounts: Seq<(Seq<char>, Option<u64>)>,
) -> (Seq<Seq<char>>, Seq<Seq<char>>)
    decreases mounts.len(),
{
    if mounts.len() == 0 {
        (out, seen)
    } else {
        let (o, s) = mount_scan(out, seen, root, root_dev, mounts.drop_last());
        let p = mounts.last().0;
        if !path_has_base(p, root) || lists_path(s, p) {
            (o, s)
        } else if root_dev is Some && mounts.last().1 == root_dev {
            (o, s.push(p))
        } else {
            (o.push(p), s.push(p))
        }
    }
}

/// The scan of the mount points for each root in turn.
pub open spec fn roots_scan(
    out: Seq<Seq<char>>,
    seen: Seq<Seq<char>>,
    roots: Seq<(Seq<char>, Option<u64>)>,
    mounts: Seq<(Seq<char>, Option<u64>)>,
) -> (Seq<Seq<char>>, Seq<Seq<char>>)
    decreases roots.len(),
{
    if roots.len() == 0 {
        (out, seen)
    } else {
        let (o, s) = roots_scan(out, seen, roots.drop_last(), mounts);
        mount_scan(o, s, roots.last().0, roots.last().1, mounts)
    }
}

/// The roots to index: the given roots, then the mount points below them that
/// lie on another device, each path once.
pub open spec fn mount_roots_of(
    roots: Seq<(Seq<char>, Option<u64>)>,
    mounts: Seq<(Seq<char>, Option<u64>)>,
) -> Seq<Seq<char>> {
    let names = roots.map_values(|e: (Seq<char>, Option<u64>)| e.0);
    roots_scan(names, names, roots, mounts).0
}

/// Adds to the roots the mount points below them that lie on another device.
/// Each root and each mount point comes with the device it is on, when known.
pub fn add_mount_roots(roots: &Vec<(String, Option<u64>)>, mounts: &Vec<(String, Option<u64>)>) -> (r: Vec<String>)
    ensures
        str_views(r@) == mount_roots_of(dev_views(roots@), dev_views(mounts@)),
{
    let ghost rv = dev_views(roots@);
    let ghost mv = dev_views(mounts@);
    let mut out: Vec<String> = Vec::new();
    let mut k: usize = 0;
    while k < roots.len()
        invariant
            k <= roots@.len(),
            rv == dev_views(roots@),
            out@.len() == k,
            forall|j: int| 0 <= j < k ==> #[trigger] out@[j]@ == roots@[j].0@,
        decreases roots@.len() - k,
    {
        out.push(roots[k].0.clone());
        k += 1;
    }
    assert(str_views(out@) =~= rv.map_values(|e: (Seq<char>, Option<u64>)| e.0));
    let ghost names = str_views(out@);
    let mut seen = crate::model::copy_strings(&out);
    let mut i: usize = 0;
    while i < roots.len()
        invariant
            i <= roots@.len(),
            rv == dev_views(roots@),
            mv == dev_views(mounts@),
            names == rv.map_values(|e: (Seq<char>, Option<u64>)| e.0),
            (str_views(out@), str_views(seen@)) == roots_scan(names, names, rv.take(i as int), mv),
        decreases roots@.len() - i,
    {
        let root = roots[i].0.as_str();
        let root_dev = roots[i].1;
        assert(rv.take(i as int + 1).drop_last() =~= rv.take(i as int));
        assert(rv.take(i as int + 1).last() == (root@, root_dev));
        let ghost before = (str_views(out@), str_views(seen@));
        let mut j: usize = 0;
        while j < mounts.len()
            invariant
                j <= mounts@.len(),
                i < rv.len(),
                mv == dev_views(mounts@),
                root@ == rv[i as int].0,
                root_dev == rv[i as int].1,
                (str_views(out@), str_views(seen@)) == mount_scan(before.0, before.1, root@, root_dev, mv.take(j as int)),
            decreases mounts@.len() - j,
        {
            assert(mv.take(j as int + 1).drop_last() =~= mv.take(j as int));
            assert(mv.take(j as int + 1).last() == (mounts@[j as int].0@, mounts@[j as int].1));
            let p = mounts[j].0.as_str();
            if path_starts_with(p, root) && !any_is_path(&seen, p) {
                seen.push(p.to_owned());
                let same_device = match (root_dev, mounts[j].1) {
                    (Some(a), Some(b)) => a == b,
                    _ => false,
                };
                if !same_device {
                    out.push(p.to_owned());
                }
                assert(str_views(seen@) =~= mount_scan(before.0, before.1, root@, root_dev, mv.take(j as int)).1.push(p@));
                assert(str_views(out@) =~= mount_scan(before.0, before.1, root@, root_dev, mv.take(j as int + 1)).0);
            }
            j += 1;
        }
        assert(mv.take(mv.len() as int) =~= mv);
        i += 1;
    }
    assert(rv.take(rv.len() as int) =~= rv);
    out
}

/// The roots a search walks, the query's own folder first when it exists, then
/// the indexed roots, each once (by path equality).
pub open spec fn ordered_roots_of(preferred: Option<Seq<char>>, roots: Seq<Seq<char>>) -> Seq<Seq<char>> {
    match preferred {
        None => roots,
        Some(p) => crate::content::common_once(seq![p] + roots),
    }
}

/// Order the roots of a search.
pub fn ordered_query_roots(preferred: Option<&str>, roots: Vec<String>) -> (r: Vec<String>)
    ensures
        r@.map_values(|s: String| s@) == ordered_roots_of(
            match preferred {
                Some(p) => Some(p@),
                None => None,
            },
            roots@.map_values(|s: String| s@),
        ),
{
    match preferred {
        None => roots,
        Some(p) => {
            let mut all: Vec<String> = Vec::new();
            all.push(p.to_owned());
            let mut rest = roots;
            let ghost r0 = rest@;
            all.append(&mut rest);
            assert(all@ =~= seq![all@[0]] + r0);
            assert(all@.map_values(|s: String| s@) =~= seq![p@] + r0.map_values(|s: String| s@));
            crate::content::distinct_paths(&all)
        },
    }
}

// ── Which paths are kept ────────────────────────────────────────────────────

/// `path` relative to `root`, or `path` itself when it is not under `root`.
pub open spec fn rel_path(path: Seq<char>, root: Seq<char>) -> Seq<char> {
    match relative_to(path, root) {
        Some(r) => r,
        None => path,
    }
}

/// The path of `path` relative to `root` (the whole path when it is not under
/// `root`), with `/` separators.
pub fn normalized_rel_path(path: &str, root: &str) -> (s: String)
    ensures
        s@ == rel_path(path@, root@),
{
    match path_strip_prefix(path, root) {
        Some(rel) => rel.to_owned(),
        None => path.to_owned(),
    }
}

/// Below `root`, some component of `path` starts with a dot.
pub open spec fn hidden_component(path: Seq<char>, root: Seq<char>) -> bool {
    match relative_to(path, root) {
        None => false,
        Some(rel) => some_dot_name(components_of(rel)),
    }
}

/// Some of the names starts with a dot.
pub open spec fn some_dot_name(names: Seq<Seq<char>>) -> bool {
    exists|i: int| 0 <= i < names.len() && has_prefix(#[trigger] names[i], seq!['.'])
}

/// Whether some component of `path` below `root` starts with a dot.
pub fn path_has_hidden_component(path: &str, root: &str) -> (r: bool)
    ensures
        r == hidden_component(path@, root@),
{
    let rel = match path_strip_prefix(path, root) {
        Some(rel) => rel,
        None => {
            return false;
        },
    };
    let comps = path_components(rel);
    let ghost cv = comps@.map_values(|s: String| s@);
    proof {
        reveal_strlit(".");
    }
    assert("."@ =~= seq!['.']);
    let mut i: usize = 0;
    while i < comps.len()
        invariant
            cv == comps@.map_values(|s: String| s@),
            cv == components_of(rel@),
            relative_to(path@, root@) == Some(rel@),
            "."@ == seq!['.'],
            i <= comps@.len(),
            forall|j: int| 0 <= j < i ==> !has_prefix(#[trigger] cv[j], seq!['.']),
        decreases comps@.len() - i,
    {
        assert(cv[i as int] == comps@[i as int]@);
        if str_starts_with(comps[i].as_str(), ".") {
            assert(has_prefix(components_of(rel@)[i as int], seq!['.']));
            assert(some_dot_name(components_of(rel@)));
            return true;
        }
        i += 1;
    }
    false
}

/// The rule for keeping a path while walking `root`: the root itself always; not
/// under an excluded root; not hidden unless hidden entries are wanted; and, by
/// its path relative to the root, either matched by no unwanted glob or matched by
/// a wanted glob.
pub open spec fn keep_path(
    path: Seq<char>,
    root: Seq<char>,
    include_hidden: bool,
    wanted: Seq<Seq<char>>,
    unwanted: Seq<Seq<char>>,
    excluded_roots: Seq<Seq<char>>,
) -> bool {
    if same_path(path, root) {
        true
    } else if exists|i: int| 0 <= i < excluded_roots.len() && path_has_base(path, #[trigger] excluded_roots[i]) {
        false
    } else if !include_hidden && hidden_component(path, root) {
        false
    } else {
        let rel = rel_path(path, root);
        !set_matches(unwanted, rel) || set_matches(wanted, rel)
    }
}

/// Whether `path` is kept while walking `root`.
pub fn should_keep_path(
    path: &str,
    root: &str,
    include_hidden_system: bool,
    wanted: &globset::GlobSet,
    unwanted: &globset::GlobSet,
    excluded_roots: &Vec<String>,
) -> (r: bool)
    ensures
        r == keep_path(path@, root@, include_hidden_system, set_globs(*wanted), set_globs(*unwanted), excluded_roots@.map_values(|s: String| s@)),
{
    if path_eq(path, root) {
        return true;
    }
    let ghost ex = excluded_roots@.map_values(|s: String| s@);
    let mut i: usize = 0;
    while i < excluded_roots.len()
        invariant
            ex == excluded_roots@.map_values(|s: String| s@),
            !same_path(path@, root@),
            i <= excluded_roots@.len(),
            forall|j: int| 0 <= j < i ==> !path_has_base(path@, #[trigger] ex[j]),
        decreases excluded_roots@.len() - i,
    {
        if path_starts_with(path, excluded_roots[i].as_str()) {
            assert(path_has_base(path@, excluded_roots@.map_values(|s: String| s@)[i as int]));
            assert(exists|j: int|
                0 <= j < ex.len() && path_has_base(path@, #[trigger] ex[j]));
            return false;
        }
        i += 1;
    }
    if !include_hidden_system && path_has_hidden_component(path, root) {
        return false;
    }
    let rel = normalized_rel_path(path, root);
    !glob_set_is_match(unwanted, rel.as_str()) || glob_set_is_match(wanted, rel.as_str())
}

// ── Glob sets ───────────────────────────────────────────────────────────────

/// The globs of `patterns` collected in order, blank ones skipped; the first one
/// that does not parse gives `"Invalid glob '<pattern>': <error>"`.
pub open spec fn collect_globs(patterns: Seq<Seq<char>>) -> Result<Seq<Seq<char>>, Seq<char>>
    decreases patterns.len(),
{
    if patterns.len() == 0 {
        Ok(seq![])
    } else {
        match collect_globs(patterns.drop_last()) {
            Err(e) => Err(e),
            Ok(acc) => {
                let p = patterns.last();
                if trim(p).len() == 0 {
                    Ok(acc)
                } else {
                    match glob_parse_error(p) {
                        Some(e) => Err("Invalid glob '"@ + p + "': "@ + e),
                        None => Ok(acc.push(p)),
                    }
                }
            },
        }
    }
}

/// What building a glob set from `patterns` gives: the globs it holds, or the
/// error text of the first bad glob or of the set.
pub open spec fn globset_outcome(patterns: Seq<Seq<char>>) -> Result<Seq<Seq<char>>, Seq<char>> {
    match collect_globs(patterns) {
        Err(e) => Err(e),
        Ok(globs) => match globset_build_error(globs) {
            Some(e) => Err(e),
            None => Ok(globs),
        },
    }
}

/// Build a glob set from `patterns`, skipping blank ones.
pub fn build_globset(patterns: &Vec<String>) -> (r: Result<globset::GlobSet, String>)
    ensures
        match r {
            Ok(s) => globset_outcome(patterns@.map_values(|p: String| p@)) == Ok::<Seq<Seq<char>>, Seq<char>>(set_globs(s)),
            Err(m) => globset_outcome(patterns@.map_values(|p: String| p@)) == Err::<Seq<Seq<char>>, Seq<char>>(m@),
        },
{
    let ghost pv = patterns@.map_values(|p: String| p@);
    let mut builder = new_glob_builder();
    let mut i: usize = 0;
    while i < patterns.len()
        invariant
            pv == patterns@.map_values(|p: String| p@),
            i <= patterns@.len(),
            collect_globs(pv.take(i as int)) == Ok::<Seq<Seq<char>>, Seq<char>>(builder_globs(builder)),
        decreases patterns@.len() - i,
    {
        let p = patterns[i].as_str();
        assert(pv.take(i as int + 1).drop_last() =~= pv.take(i as int));
        assert(pv.take(i as int + 1).last() == p@);
        if str_trim(p).is_empty() {
            i += 1;
            continue;
        }
        match add_glob(&mut builder, p) {
            Ok(_) => {},
            Err(e) => {
                let mut m = "Invalid glob '".to_owned();
                crate::text::push_str(&mut m, p);
                crate::text::push_str(&mut m, "': ");
                crate::text::push_str(&mut m, e.as_str());
                assert(collect_globs(pv.take(i as int + 1)) == Err::<Seq<Seq<char>>, Seq<char>>(m@));
                proof {
                    lemma_collect_globs_err(pv, i as int + 1);
                }
                return Err(m);
            },
        }
        i += 1;
    }
    assert(pv.take(pv.len() as int) =~= pv);
    build_glob_set(&builder)
}

/// Once collecting fails on a prefix, it fails the same way on the whole list.
proof fn lemma_collect_globs_err(ps: Seq<Seq<char>>, n: int)
    requires
        0 <= n <= ps.len(),
        collect_globs(ps.take(n)) is Err,
    ensures
        collect_globs(ps) == collect_globs(ps.take(n)),
    decreases ps.len() - n,
{
    if n < ps.len() {
        assert(ps.take(n + 1).drop_last() =~= ps.take(n));
        lemma_collect_globs_err(ps, n + 1);
    } else {
        assert(ps.take(n) =~= ps);
    }
}

// ── Entries ─────────────────────────────────────────────────────────────────

/// What the filesystem reports of an entry, without following a final symlink
/// (except for `target_is_dir`, which says whether a symlink points at a folder).
#[derive(Debug, Clone, Copy, PartialEq, Eq, Structural)]
pub struct EntryMeta {
    pub kind: EntryKind,
    pub len: u64,
    pub modified_unix_secs: Option<u64>,
    pub is_executable: bool,
    pub target_is_dir: bool,
}

/// An entry is executable when it is a regular file with some execute bit set.
pub open spec fn executable_mode(is_file: bool, mode: u32) -> bool {
    is_file && (mode & 0o111u32) != 0
}

/// Whether a regular file with permission bits `mode` is executable.
pub fn is_executable_mode(is_file: bool, mode: u32) -> (r: bool)
    ensures
        r == executable_mode(is_file, mode),
{
    is_file && (mode & 0o111u32) != 0
}

/// The search item for the entry at `path` named `name`, from its metadata:
/// sizes only for files, the symlink target's kind only for symlinks, no
/// snippet, with the lower-cased fields prepared.
pub open spec fn entry_item_of(path: Seq<char>, name: Seq<char>, meta: EntryMeta, item: SearchResultItem) -> bool {
    &&& item.path@ == path
    &&& item.parent_path@ == match parent_of(path) {
        Some(p) => p,
        None => Seq::<char>::empty(),
    }
    &&& item.name@ == name
    &&& item.kind == meta.kind
    &&& item.is_executable == meta.is_executable
    &&& item.symlink_target_is_dir == if meta.kind == EntryKind::Symlink {
        Some(meta.target_is_dir)
    } else {
        None
    }
    &&& item.size_bytes == if meta.kind == EntryKind::File {
        Some(meta.len)
    } else {
        None
    }
    &&& item.modified_unix_secs == meta.modified_unix_secs
    &&& item.content_snippet is None
    &&& item.is_prepared()
}

/// The search item for an entry found by a walk.
pub fn entry_item(path: &str, name: String, meta: EntryMeta) -> (item: SearchResultItem)
    ensures
        entry_item_of(path@, name@, meta, item),
{
    let parent = match path_parent(path) {
        Some(p) => p.to_owned(),
        None => String::new(),
    };
    let mut item = SearchResultItem {
        path: path.to_owned(),
        parent_path: parent,
        name,
        kind: meta.kind,
        is_executable: meta.is_executable,
        symlink_target_is_dir: if meta.kind == EntryKind::Symlink {
            Some(meta.target_is_dir)
        } else {
            None
        },
        size_bytes: if meta.kind == EntryKind::File {
            Some(meta.len)
        } else {
            None
        },
        modified_unix_secs: meta.modified_unix_secs,
        content_snippet: None,
        name_lower: String::new(),
        path_str: String::new(),
        path_lower: String::new(),
    };
    item.prepare();
    item
}

/// The search item for `path` from its metadata; none when the path has no file name.
pub fn make_item_from_path(path: &str, meta: EntryMeta) -> (r: Option<SearchResultItem>)
    ensures
        match r {
            Some(item) => file_name_of(path@) matches Some(n) && entry_item_of(path@, n, meta, item),
            None => file_name_of(path@) is None,
        },
{
    match path_file_name(path) {
        Some(n) => Some(entry_item(path, n.to_owned(), meta)),
        None => None,
    }
}

/// What a bounded walk does with one entry: the root itself and, unless hidden
/// entries are wanted, dot-named entries are passed over, as are entries whose
/// metadata could not be read; the others become items and count as hits when
/// they satisfy the expression.
pub open spec fn walk_hit_of(
    query: SearchQuery,
    expr: Expr,
    root: Seq<char>,
    path: Seq<char>,
    name: Seq<char>,
    meta: Option<EntryMeta>,
    r: Option<(i64, SearchResultItem)>,
) -> bool {
    if same_path(path, root) || (!query.include_hidden_system && has_prefix(name, seq!['.'])) || meta is None {
        r is None
    } else {
        match r {
            Some(h) => entry_item_of(path, name, meta.unwrap(), h.1) && holds(expr@, h.1) && h.0
                == relevance_of(query, h.1),
            None => exists|item: SearchResultItem|
                entry_item_of(path, name, meta.unwrap(), item) && !holds(expr@, item),
        }
    }
}

/// One entry of a bounded walk: its scored hit, if it is one.
pub fn walk_hit(
    query: &SearchQuery,
    expr: &Expr,
    root: &str,
    path: &str,
    name: String,
    meta: Option<EntryMeta>,
) -> (r: Option<(i64, SearchResultItem)>)
    ensures
        walk_hit_of(*query, *expr, root@, path@, name@, meta, r),
{
    proof {
        reveal_strlit(".");
    }
    assert("."@ =~= seq!['.']);
    if path_eq(path, root) {
        return None;
    }
    if !query.include_hidden_system && str_starts_with(name.as_str(), ".") {
        return None;
    }
    let m = match meta {
        Some(m) => m,
        None => {
            return None;
        },
    };
    let item = entry_item(path, name, m);
    if eval_expr(expr, &item) {
        let score = relevance_score(query, &item);
        Some((score, item))
    } else {
        assert(entry_item_of(path@, name@, m, item) && !holds(expr@, item));
        None
    }
}

/// Whether a bounded walk stops: enough entries visited, enough hits, or its time is up.
pub fn walk_exhausted(
    visited: usize,
    max_visited: usize,
    hits: usize,
    target_hits: usize,
    elapsed_millis: u64,
    budget_millis: u64,
) -> (r: bool)
    ensures
        r == (visited >= max_visited || hits >= target_hits || elapsed_millis >= budget_millis),
{
    visited >= max_visited || hits >= target_hits || elapsed_millis >= budget_millis
}

/// Add an item to the batch being built; when the batch is full it is handed
/// back, and a new one begins.
pub fn push_batched(batch: &mut Vec<SearchResultItem>, item: SearchResultItem) -> (full: Option<Vec<SearchResultItem>>)
    ensures
        old(batch)@.len() + 1 >= STREAM_BATCH_SIZE ==> {
            &&& full matches Some(b) && b@ == old(batch)@.push(item)
            &&& final(batch)@.len() == 0
        },
        old(batch)@.len() + 1 < STREAM_BATCH_SIZE ==> full is None && final(batch)@ == old(batch)@.push(item),
{
    batch.push(item);
    if batch.len() >= STREAM_BATCH_SIZE {
        let mut out: Vec<SearchResultItem> = Vec::new();
        std::mem::swap(&mut out, batch);
        Some(out)
    } else {
        None
    }
}

/// Where a resumed walk stands after an entry: entries are skipped until the
/// saved cursor is met (the cursor itself included).
pub open spec fn resume_step_of(skipping: bool, path: Seq<char>, cursor: Option<Seq<char>>) -> (bool, bool, bool) {
    if !skipping {
        (false, false, false)
    } else {
        let hit = match cursor {
            Some(c) => same_path(path, c),
            None => false,
        };
        (true, !hit, hit)
    }
}

/// For one entry of a resumed walk: whether to skip it, whether skipping goes on
/// after it, and whether it was the cursor.
pub fn resume_step(skipping: bool, path: &str, cursor: Option<&str>) -> (r: (bool, bool, bool))
    ensures
        r == resume_step_of(skipping, path@, match cursor {
            Some(c) => Some(c@),
            None => None,
        }),
{
    if !skipping {
        return (false, false, false);
    }
    let hit = match cursor {
        Some(c) => path_eq(path, c),
        None => false,
    };
    (true, !hit, hit)
}

/// `n + 1`, held at `usize::MAX`.
pub open spec fn bump(n: usize) -> usize {
    if n == usize::MAX {
        n
    } else {
        (n + 1) as usize
    }
}

/// How a full walk stands: whether entries are still skipped up to the root's
/// resume cursor, whether the cursor was met, whether the root may still be
/// walked once more from its start, how many entries of the root were seen, how
/// many items were indexed in all, and how many before the root.
pub struct ScanTally {
    pub skipping: bool,
    pub cursor_found: bool,
    pub may_rewalk: bool,
    pub root_seen: usize,
    pub total: usize,
    pub total_before_root: usize,
}

impl ScanTally {
    /// Nothing indexed yet.
    pub fn new() -> (t: Self)
        ensures
            !t.skipping && !t.cursor_found && !t.may_rewalk,
            t.root_seen == 0 && t.total == 0 && t.total_before_root == 0,
    {
        ScanTally {
            skipping: false,
            cursor_found: false,
            may_rewalk: false,
            root_seen: 0,
            total: 0,
            total_before_root: 0,
        }
    }

    /// Begin a root: entries are skipped up to its resume cursor, if it has one.
    pub fn start_root(&mut self, has_cursor: bool)
        ensures
            final(self).skipping == has_cursor,
            !final(self).cursor_found,
            final(self).may_rewalk == has_cursor,
            final(self).root_seen == 0,
            final(self).total == old(self).total,
            final(self).total_before_root == old(self).total,
    {
        self.skipping = has_cursor;
        self.cursor_found = false;
        self.may_rewalk = has_cursor;
        self.root_seen = 0;
        self.total_before_root = self.total;
    }

    /// One entry of the walk of `root`: the root itself is passed over; entries
    /// up to the resume cursor are skipped; any other entry is seen, and becomes
    /// an indexed item unless it is dot-named while hidden entries are not
    /// wanted or its metadata could not be read.
    pub fn scan_entry(
        &mut self,
        root: &str,
        path: &str,
        name: String,
        meta: Option<EntryMeta>,
        cursor: Option<&str>,
        include_hidden: bool,
    ) -> (r: Option<SearchResultItem>)
        ensures
            same_path(path@, root@) ==> *final(self) == *old(self) && r is None,
            !same_path(path@, root@) ==> ({
                let step = resume_step_of(old(self).skipping, path@, match cursor {
                    Some(c) => Some(c@),
                    None => None,
                });
                &&& final(self).skipping == step.1
                &&& final(self).cursor_found == (old(self).cursor_found || step.2)
                &&& final(self).may_rewalk == old(self).may_rewalk
                &&& final(self).total_before_root == old(self).total_before_root
                &&& step.0 ==> final(self).root_seen == old(self).root_seen && final(self).total == old(self).total
                    && r is None
                &&& !step.0 ==> final(self).root_seen == bump(old(self).root_seen)
                &&& !step.0 && ((!include_hidden && has_prefix(name@, seq!['.'])) || meta is None)
                    ==> final(self).total == old(self).total && r is None
                &&& !step.0 && !(!include_hidden && has_prefix(name@, seq!['.'])) && meta is Some
                    ==> final(self).total == bump(old(self).total)
                    && (r matches Some(item) && entry_item_of(path@, name@, meta.unwrap(), item))
            }),
    {
        proof {
            reveal_strlit(".");
        }
        assert("."@ =~= seq!['.']);
        if path_eq(path, root) {
            return None;
        }
        let (skip, still, found) = resume_step(self.skipping, path, cursor);
        self.skipping = still;
        self.cursor_found = self.cursor_found || found;
        if skip {
            return None;
        }
        self.root_seen = self.root_seen.saturating_add(1);
        if !include_hidden && str_starts_with(name.as_str(), ".") {
            return None;
        }
        match meta {
            Some(m) => {
                self.total = self.total.saturating_add(1);
                Some(entry_item(path, name, m))
            },
            None => None,
        }
    }

    /// The end of a walk of the current root: when it was the skipping walk of a
    /// root with a cursor and the cursor was never met, the root's counts are
    /// undone and `true` asks for one more walk from the start, without skipping.
    pub fn finish_walk(&mut self) -> (again: bool)
        ensures
            again == (old(self).may_rewalk && !old(self).cursor_found),
            again ==> final(self).root_seen == 0 && final(self).total == old(self).total_before_root
                && !final(self).skipping && !final(self).may_rewalk
                && final(self).cursor_found == old(self).cursor_found
                && final(self).total_before_root == old(self).total_before_root,
            !again ==> *final(self) == (ScanTally { may_rewalk: false, ..*old(self) }),
    {
        if self.may_rewalk && !self.cursor_found {
            self.root_seen = 0;
            self.total = self.total_before_root;
            self.skipping = false;
            self.may_rewalk = false;
            true
        } else {
            self.may_rewalk = false;
            false
        }
    }
}

// ── Change events ───────────────────────────────────────────────────────────

/// A targeted filesystem change that can be applied without a full rebuild.
#[derive(Debug, Clone, PartialEq, Eq)]
pub enum NotifyAction {
    /// A path was created or modified: its entry is replaced.
    Upsert(String),
    /// A path was removed: it and everything under it leave the index.
    Remove(String),
}

/// The actions for one change event on `paths`: removals for a remove event,
/// upserts for any other.
pub fn actions_for_event(is_remove: bool, paths: Vec<String>) -> (r: Vec<NotifyAction>)
    ensures
        r@.len() == paths@.len(),
        forall|i: int| 0 <= i < paths@.len() ==> #[trigger] r@[i] == if is_remove {
            NotifyAction::Remove(paths@[i])
        } else {
            NotifyAction::Upsert(paths@[i])
        },
{
    let mut out: Vec<NotifyAction> = Vec::new();
    let mut i: usize = 0;
    while i < paths.len()
        invariant
            i <= paths@.len(),
            out@.len() == i,
            forall|j: int| 0 <= j < i ==> #[trigger] out@[j] == if is_remove {
                NotifyAction::Remove(paths@[j])
            } else {
                NotifyAction::Upsert(paths@[j])
            },
        decreases paths@.len() - i,
    {
        let p = paths[i].clone();
        if is_remove {
            out.push(NotifyAction::Remove(p));
        } else {
            out.push(NotifyAction::Upsert(p));
        }
        i += 1;
    }
    out
}

/// Whether a debounce window with `pending` events calls for a full rebuild
/// rather than applying the events one by one.
pub fn needs_full_rebuild(pending: usize) -> (r: bool)
    ensures
        r == (pending > INCREMENTAL_REBUILD_THRESHOLD),
{
    pending > INCREMENTAL_REBUILD_THRESHOLD
}

/// `items` without the entries at `p` or under it.
pub open spec fn without_tree(items: Seq<SearchResultItem>, p: Seq<char>) -> Seq<SearchResultItem>
    decreases items.len(),
{
    if items.len() == 0 {
        items
    } else {
        let r = without_tree(items.drop_last(), p);
        let it = items.last();
        if !same_path(it.path@, p) && !path_has_base(it.path@, p) {
            r.push(it)
        } else {
            r
        }
    }
}

/// `items` without the entry at `p`.
pub open spec fn without_entry(items: Seq<SearchResultItem>, p: Seq<char>) -> Seq<SearchResultItem>
    decreases items.len(),
{
    if items.len() == 0 {
        items
    } else {
        let r = without_entry(items.drop_last(), p);
        let it = items.last();
        if !same_path(it.path@, p) {
            r.push(it)
        } else {
            r
        }
    }
}

/// Whether the pending change events are applied now: there are some, and the
/// last one came at least [`EVENT_QUIET_MILLIS`] ago.
pub fn changes_due(quiet_millis: Option<u64>, pending: usize) -> (r: bool)
    ensures
        r == (pending > 0 && (quiet_millis matches Some(q) && q >= EVENT_QUIET_MILLIS)),
{
    match quiet_millis {
        Some(q) => q >= EVENT_QUIET_MILLIS && pending > 0,
        None => false,
    }
}

/// The first of `roots` that `p` lies under.
pub open spec fn owning_root(p: Seq<char>, roots: Seq<Seq<char>>) -> Option<Seq<char>>
    decreases roots.len(),
{
    if roots.len() == 0 {
        None
    } else if path_has_base(p, roots[0]) {
        Some(roots[0])
    } else {
        owning_root(p, roots.drop_first())
    }
}

/// The settings that decide which paths enter the index.
pub struct IndexFilter {
    pub roots: Vec<String>,
    pub include_hidden_system: bool,
    pub wanted: globset::GlobSet,
    pub unwanted: globset::GlobSet,
    pub excluded_roots: Vec<String>,
}

/// An upserted path is indexed again when it lies under a root, is kept by the
/// path rule for that root, has an item, and is shown (hidden ones only when wanted).
pub open spec fn upsert_entry(
    f: IndexFilter,
    p: Seq<char>,
    stat: Option<SearchResultItem>,
) -> Option<SearchResultItem> {
    match owning_root(p, f.roots@.map_values(|s: String| s@)) {
        None => None,
        Some(root) => if !keep_path(
            p,
            root,
            f.include_hidden_system,
            set_globs(f.wanted),
            set_globs(f.unwanted),
            f.excluded_roots@.map_values(|s: String| s@),
        ) {
            None
        } else {
            match stat {
                Some(item) => if f.include_hidden_system || !dot_name(item) {
                    Some(item)
                } else {
                    None
                },
                None => None,
            }
        },
    }
}

/// The index after one change: a removal drops the path and everything under
/// it; an upsert drops the stale entry and adds the fresh one, if any.
pub open spec fn after_action(
    items: Seq<SearchResultItem>,
    action: NotifyAction,
    stat: Option<SearchResultItem>,
    f: IndexFilter,
) -> Seq<SearchResultItem> {
    match action {
        NotifyAction::Remove(p) => without_tree(items, p@),
        NotifyAction::Upsert(p) => {
            let kept = without_entry(items, p@);
            match upsert_entry(f, p@, stat) {
                Some(item) => kept.push(item),
                None => kept,
            }
        },
    }
}

/// The index after the changes, applied in order.
pub open spec fn after_actions(
    items: Seq<SearchResultItem>,
    actions: Seq<NotifyAction>,
    stats: Seq<Option<SearchResultItem>>,
    f: IndexFilter,
) -> Seq<SearchResultItem>
    decreases actions.len(),
{
    if actions.len() == 0 {
        items
    } else {
        after_action(
            after_actions(items, actions.drop_last(), stats.drop_last(), f),
            actions.last(),
            stats[actions.len() - 1],
            f,
        )
    }
}

fn remove_tree(items: &mut Vec<SearchResultItem>, p: &str)
    ensures
        final(items)@ == without_tree(old(items)@, p@),
{
    let mut kept: Vec<SearchResultItem> = Vec::new();
    let mut i: usize = 0;
    while i < items.len()
        invariant
            i <= items@.len(),
            kept@ == without_tree(items@.take(i as int), p@),
        decreases items@.len() - i,
    {
        let it = &items[i];
        assert(items@.take(i as int + 1).drop_last() =~= items@.take(i as int));
        if !path_eq(it.path.as_str(), p) && !path_starts_with(it.path.as_str(), p) {
            kept.push(duplicate_item(it));
        }
        i += 1;
    }
    assert(items@.take(items@.len() as int) =~= items@);
    *items = kept;
}

fn remove_entry(items: &mut Vec<SearchResultItem>, p: &str)
    ensures
        final(items)@ == without_entry(old(items)@, p@),
{
    let mut kept: Vec<SearchResultItem> = Vec::new();
    let mut i: usize = 0;
    while i < items.len()
        invariant
            i <= items@.len(),
            kept@ == without_entry(items@.take(i as int), p@),
        decreases items@.len() - i,
    {
        let it = &items[i];
        assert(items@.take(i as int + 1).drop_last() =~= items@.take(i as int));
        if !path_eq(it.path.as_str(), p) {
            kept.push(duplicate_item(it));
        }
        i += 1;
    }
    assert(items@.take(items@.len() as int) =~= items@);
    *items = kept;
}

/// The position of the first of `roots` that `p` lies under.
pub fn owning_root_index(p: &str, roots: &Vec<String>) -> (r: Option<usize>)
    ensures
        match r {
            Some(i) => i < roots@.len() && owning_root(p@, roots@.map_values(|s: String| s@)) == Some(roots@[i as int]@),
            None => owning_root(p@, roots@.map_values(|s: String| s@)) is None,
        },
{
    let ghost rv = roots@.map_values(|s: String| s@);
    let mut i: usize = 0;
    assert(rv.skip(0) =~= rv);
    while i < roots.len()
        invariant
            rv == roots@.map_values(|s: String| s@),
            i <= roots@.len(),
            owning_root(p@, rv) == owning_root(p@, rv.skip(i as int)),
        decreases roots@.len() - i,
    {
        assert(rv.skip(i as int)[0] == roots@[i as int]@);
        if path_starts_with(p, roots[i].as_str()) {
            return Some(i);
        }
        assert(rv.skip(i as int).drop_first() =~= rv.skip(i as int + 1));
        i += 1;
    }
    None
}

/// The fresh entry for an upserted path, if it enters the index.
pub fn upsert_item(f: &IndexFilter, p: &str, stat: &Option<SearchResultItem>) -> (r: Option<SearchResultItem>)
    ensures
        r == upsert_entry(*f, p@, *stat),
{
    let root = match owning_root_index(p, &f.roots) {
        Some(k) => f.roots[k].as_str(),
        None => {
            return None;
        },
    };
    if !should_keep_path(p, root, f.include_hidden_system, &f.wanted, &f.unwanted, &f.excluded_roots) {
        return None;
    }
    match stat {
        Some(item) => if f.include_hidden_system || !is_dot_name(item) {
            Some(duplicate_item(item))
        } else {
            None
        },
        None => None,
    }
}

/// Apply a batch of change events to the index without walking the filesystem.
/// `stats[i]` is the item made from the filesystem for the path of `actions[i]`
/// when it is an upsert (none when the path could not be read).
pub fn apply_incremental(
    items: &mut Vec<SearchResultItem>,
    actions: &Vec<NotifyAction>,
    stats: &Vec<Option<SearchResultItem>>,
    filter: &IndexFilter,
)
    requires
        stats@.len() == actions@.len(),
    ensures
        final(items)@ == after_actions(old(items)@, actions@, stats@, *filter),
{
    let ghost start = items@;
    let mut i: usize = 0;
    while i < actions.len()
        invariant
            i <= actions@.len(),
            stats@.len() == actions@.len(),
            items@ == after_actions(start, actions@.take(i as int), stats@.take(i as int), *filter),
            start == old(items)@,
        decreases actions@.len() - i,
    {
        assert(actions@.take(i as int + 1).drop_last() =~= actions@.take(i as int));
        assert(stats@.take(i as int + 1).drop_last() =~= stats@.take(i as int));
        assert(stats@.take(i as int + 1)[i as int] == stats@[i as int]);
        match &actions[i] {
            NotifyAction::Remove(p) => {
                remove_tree(items, p.as_str());
            },
            NotifyAction::Upsert(p) => {
                remove_entry(items, p.as_str());
                match upsert_item(filter, p.as_str(), &stats[i]) {
                    Some(item) => items.push(item),
                    None => {},
                }
            },
        }
        i += 1;
    }
    assert(actions@.take(actions@.len() as int) =~= actions@);
    assert(stats@.take(stats@.len() as int) =~= stats@);
}

/// A removal leaves nothing at the removed path or under it, and keeps every
/// other entry.
pub proof fn law_remove_drops_whole_tree(items: Seq<SearchResultItem>, p: Seq<char>)
    ensures
        forall|k: int| 0 <= k < without_tree(items, p).len() ==> !same_path(#[trigger] without_tree(items, p)[k].path@, p)
            && !path_has_base(without_tree(items, p)[k].path@, p),
        forall|k: int| 0 <= k < items.len() && !same_path(#[trigger] items[k].path@, p) && !path_has_base(items[k].path@, p)
            ==> without_tree(items, p).contains(items[k]),
    decreases items.len(),
{
    if items.len() > 0 {
        law_remove_drops_whole_tree(items.drop_last(), p);
        let r = without_tree(items.drop_last(), p);
        assert forall|k: int| 0 <= k < items.len() && !same_path(#[trigger] items[k].path@, p) && !path_has_base(
            items[k].path@,
            p,
        ) implies without_tree(items, p).contains(items[k]) by {
            if k < items.len() - 1 {
                assert(items[k] == items.drop_last()[k]);
                assert(r.contains(items[k]));
                let w = choose|w: int| 0 <= w < r.len() && r[w] == items[k];
                if !same_path(items.last().path@, p) && !path_has_base(items.last().path@, p) {
                    assert(r.push(items.last())[w] == items[k]);
                }
            } else {
                assert(without_tree(items, p)[r.len() as int] == items[k]);
            }
        }
    }
}

} // verus!

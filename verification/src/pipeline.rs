//! How a search request is answered: which source gives the first hits, which
//! sources supplement them, how supplements are merged without repeating a path,
//! and how the final page is cut. The filesystem walks, the locate database and
//! the content search are run by the caller, which hands their hits in.

use vstd::prelude::*;
use crate::model::{SearchIndexStatus, SearchQuery, SearchResponse, SearchResultItem, SearchScope};
use crate::paths::{path_eq, path_has_base, path_starts_with, same_path};
use crate::query::{eval_expr, holds, Expr, SearchError};
use crate::ranking::{
    byte_len, fuzzy_score, fuzzy_subsequence_score, in_scope, is_simple_single_word, relevance_of,
    relevance_score, scope_match, simple_single_word, utf8_len,
};
use crate::sorting::{sort_results, stable_sort};
use crate::text::{has_prefix, str_starts_with, str_trim, trim};

verus! {

broadcast use vstd::seq_lib::group_to_multiset_ensures;

/// At most this many entries are visited by the walk that stands in for an empty index.
pub const GLOBAL_WALK_MAX_VISITS: usize = 24_000;

/// Time budget, in milliseconds, of the walk that stands in for an empty index.
pub const GLOBAL_WALK_MILLIS: u64 = 140;

/// At most this many entries are visited by the walk that supplements a partial index.
pub const SUPPLEMENT_WALK_MAX_VISITS: usize = 30_000;

/// Time budget, in milliseconds, of the walk that supplements a partial index.
pub const SUPPLEMENT_WALK_MILLIS: u64 = 120;

/// At most this many entries are visited by the walk of the query's own folder.
pub const FOLDER_WALK_MAX_VISITS: usize = 40_000;

/// Time budget, in milliseconds, of the walk of the query's own folder.
pub const FOLDER_WALK_MILLIS: u64 = 120;

/// The score given to a hit found by searching file contents.
pub const CONTENT_HIT_SCORE: i64 = 8_000;

/// A copy of a search hit.
pub fn duplicate_item(item: &SearchResultItem) -> (r: SearchResultItem)
    ensures
        r == *item,
{
    let snippet = match &item.content_snippet {
        Some(s) => Some(s.clone()),
        None => None,
    };
    SearchResultItem {
        path: item.path.clone(),
        parent_path: item.parent_path.clone(),
        name: item.name.clone(),
        kind: item.kind,
        is_executable: item.is_executable,
        symlink_target_is_dir: item.symlink_target_is_dir,
        size_bytes: item.size_bytes,
        modified_unix_secs: item.modified_unix_secs,
        content_snippet: snippet,
        name_lower: item.name_lower.clone(),
        path_str: item.path_str.clone(),
        path_lower: item.path_lower.clone(),
    }
}

// ── Choosing the sources ────────────────────────────────────────────────────

/// `root` lies under one of the indexed roots.
pub open spec fn under_some_root(root: Seq<char>, roots: Seq<Seq<char>>) -> bool {
    exists|i: int| 0 <= i < roots.len() && path_has_base(root, #[trigger] roots[i])
}

/// Whether `root` lies under one of the indexed roots.
pub fn root_is_indexed(root: &str, roots: &Vec<String>) -> (r: bool)
    ensures
        r == under_some_root(root@, roots@.map_values(|s: String| s@)),
{
    let ghost vr = roots@.map_values(|s: String| s@);
    let mut i: usize = 0;
    while i < roots.len()
        invariant
            vr == roots@.map_values(|s: String| s@),
            i <= roots@.len(),
            forall|j: int| 0 <= j < i ==> !path_has_base(root@, #[trigger] vr[j]),
        decreases roots@.len() - i,
    {
        if path_starts_with(root, roots[i].as_str()) {
            assert(path_has_base(root@, vr[i as int]));
            return true;
        }
        i += 1;
    }
    false
}

/// Where the first hits of a search come from.
#[derive(Debug, Clone, Copy, PartialEq, Eq, Structural)]
pub enum PrimarySource {
    /// A bounded walk of the query's folder.
    FolderWalk,
    /// A bounded walk of the indexed roots, while the index is still empty.
    GlobalWalk,
    /// The in-memory index.
    Index,
}

/// Which sources answer a search, decided before any hit is gathered.
#[derive(Debug, Clone, Copy, PartialEq, Eq, Structural)]
pub struct QueryPlan {
    pub primary: PrimarySource,
    /// How many hits the walk of an empty index aims for.
    pub global_walk_target: usize,
    /// How many hits a walk of the query's own folder aims for.
    pub folder_walk_target: usize,
    /// How many hits a supplementary walk of the roots aims for, if one runs.
    pub supplement_walk_hits: Option<usize>,
    /// Whether a walk of the query's folder, outside the index, supplements a global search.
    pub supplement_folder_walk: bool,
    /// The list length at which supplements stop adding hits.
    pub supplement_cap: usize,
    /// Whether fuzzy matches of the index may be added.
    pub fuzzy: bool,
    /// How many content hits to ask for, if contents are searched.
    pub content_limit: Option<usize>,
}

/// The query's folder is not covered by the index (or there is none).
pub open spec fn folder_outside_index(query: SearchQuery, roots: Seq<Seq<char>>) -> bool {
    match query.root_path {
        Some(r) => !under_some_root(r@, roots),
        None => true,
    }
}

/// The query text, trimmed, is at least two bytes long.
pub open spec fn substantial(query: SearchQuery) -> bool {
    utf8_len(trim(query.text@)) >= 2
}

/// `x` limited to `lo..=hi`.
pub open spec fn clamp_nat(x: int, lo: int, hi: int) -> int {
    if x < lo {
        lo
    } else if x > hi {
        hi
    } else {
        x
    }
}

/// `a * b` limited to `usize::MAX`.
pub open spec fn sat_mul(a: int, b: int) -> int {
    if a * b > usize::MAX {
        usize::MAX as int
    } else {
        a * b
    }
}

/// The plan for `query`, given the index's status and size and the indexed roots.
pub open spec fn plan_of(
    query: SearchQuery,
    status: SearchIndexStatus,
    index_len: nat,
    roots: Seq<Seq<char>>,
) -> QueryPlan {
    let primary = if query.scope == SearchScope::CurrentFolder && (status == SearchIndexStatus::Unavailable
        || status == SearchIndexStatus::Indexing || folder_outside_index(query, roots)) {
        PrimarySource::FolderWalk
    } else if query.scope == SearchScope::Global && status == SearchIndexStatus::Indexing && index_len == 0 {
        PrimarySource::GlobalWalk
    } else {
        PrimarySource::Index
    };
    let global_root_outside = query.scope == SearchScope::Global && match query.root_path {
        Some(r) => !under_some_root(r@, roots),
        None => false,
    };
    QueryPlan {
        primary,
        global_walk_target: clamp_nat(sat_mul(query.limit as int, 6), 200, usize::MAX as int) as usize,
        folder_walk_target: clamp_nat(sat_mul(query.limit as int, 4), 200, usize::MAX as int) as usize,
        supplement_walk_hits: if query.scope == SearchScope::Global && status == SearchIndexStatus::Indexing
            && index_len > 0 && substantial(query) {
            Some(clamp_nat(query.limit as int, 64, 256) as usize)
        } else {
            None
        },
        supplement_folder_walk: global_root_outside && substantial(query),
        supplement_cap: clamp_nat(sat_mul(query.limit as int, 2), 200, usize::MAX as int) as usize,
        fuzzy: simple_single_word(query.text@),
        content_limit: if query.content_search && substantial(query) {
            Some(clamp_nat(query.limit as int, 50, usize::MAX as int) as usize)
        } else {
            None
        },
    }
}

/// Decide which sources answer `query`.
pub fn plan_query(
    query: &SearchQuery,
    status: SearchIndexStatus,
    index_len: usize,
    indexed_roots: &Vec<String>,
) -> (p: QueryPlan)
    ensures
        p == plan_of(*query, status, index_len as nat, indexed_roots@.map_values(|s: String| s@)),
{
    let outside = match &query.root_path {
        Some(r) => !root_is_indexed(r.as_str(), indexed_roots),
        None => true,
    };
    let primary = if query.scope == SearchScope::CurrentFolder && (status == SearchIndexStatus::Unavailable
        || status == SearchIndexStatus::Indexing || outside) {
        PrimarySource::FolderWalk
    } else if query.scope == SearchScope::Global && status == SearchIndexStatus::Indexing && index_len == 0 {
        PrimarySource::GlobalWalk
    } else {
        PrimarySource::Index
    };
    let global_root_outside = query.scope == SearchScope::Global && match &query.root_path {
        Some(r) => !root_is_indexed(r.as_str(), indexed_roots),
        None => false,
    };
    let long_enough = byte_len(str_trim(query.text.as_str())) >= 2;
    let six: usize = if query.limit > usize::MAX / 6 {
        usize::MAX
    } else {
        query.limit * 6
    };
    let four: usize = if query.limit > usize::MAX / 4 {
        usize::MAX
    } else {
        query.limit * 4
    };
    let two: usize = if query.limit > usize::MAX / 2 {
        usize::MAX
    } else {
        query.limit * 2
    };
    let supplement_walk_hits = if query.scope == SearchScope::Global && status == SearchIndexStatus::Indexing
        && index_len > 0 && long_enough {
        Some(
            if query.limit < 64 {
                64
            } else if query.limit > 256 {
                256
            } else {
                query.limit
            },
        )
    } else {
        None
    };
    QueryPlan {
        primary,
        global_walk_target: if six < 200 {
            200
        } else {
            six
        },
        folder_walk_target: if four < 200 {
            200
        } else {
            four
        },
        supplement_walk_hits,
        supplement_folder_walk: global_root_outside && long_enough,
        supplement_cap: if two < 200 {
            200
        } else {
            two
        },
        fuzzy: is_simple_single_word(query.text.as_str()),
        content_limit: if query.content_search && long_enough {
            Some(
                if query.limit < 50 {
                    50
                } else {
                    query.limit
                },
            )
        } else {
            None
        },
    }
}

/// The paths of a list of scored hits.
pub open spec fn hit_paths(hits: Seq<(i64, SearchResultItem)>) -> Seq<Seq<char>> {
    hits.map_values(|h: (i64, SearchResultItem)| h.1.path@)
}

/// What a bounded walk has gathered: how many entries it visited and its hits.
pub struct WalkTally {
    pub visited: usize,
    pub hits: Vec<(i64, SearchResultItem)>,
}

/// The tally after one more walked entry with its hit, if any: the root itself
/// is not counted; any other entry counts as visited, and its hit is kept,
/// except, when `distinct`, a hit on a path that an earlier hit has.
pub open spec fn tally_after(
    visited: usize,
    hits: Seq<(i64, SearchResultItem)>,
    root: Seq<char>,
    path: Seq<char>,
    hit: Option<(i64, SearchResultItem)>,
    distinct: bool,
) -> (usize, Seq<(i64, SearchResultItem)>) {
    if same_path(path, root) {
        (visited, hits)
    } else {
        (
            if visited == usize::MAX { visited } else { (visited + 1) as usize },
            match hit {
                Some(h) => if distinct && crate::target::lists_path(hit_paths(hits), h.1.path@) {
                    hits
                } else {
                    hits.push(h)
                },
                None => hits,
            },
        )
    }
}

impl WalkTally {
    /// Nothing visited, no hits.
    pub fn new() -> (t: Self)
        ensures
            t.visited == 0,
            t.hits@.len() == 0,
    {
        WalkTally { visited: 0, hits: Vec::new() }
    }

    /// Record one walked entry of the walk of `root`, with its hit as [`walk_hit`]
    /// gives it.
    ///
    /// [`walk_hit`]: crate::indexer::walk_hit
    pub fn record(&mut self, root: &str, path: &str, hit: Option<(i64, SearchResultItem)>, distinct: bool)
        ensures
            (final(self).visited, final(self).hits@) == tally_after(
                old(self).visited,
                old(self).hits@,
                root@,
                path@,
                hit,
                distinct,
            ),
    {
        if path_eq(path, root) {
            return;
        }
        self.visited = self.visited.saturating_add(1);
        match hit {
            Some(h) => {
                if distinct && has_hit_path(&self.hits, h.1.path.as_str()) {
                    return;
                }
                self.hits.push(h);
            },
            None => {},
        }
    }
}

/// Whether some hit of `hits` is on the path `p`.
fn has_hit_path(hits: &Vec<(i64, SearchResultItem)>, p: &str) -> (r: bool)
    ensures
        r == crate::target::lists_path(hit_paths(hits@), p@),
{
    let mut i: usize = 0;
    while i < hits.len()
        invariant
            i <= hits@.len(),
            forall|j: int| 0 <= j < i ==> !same_path(#[trigger] hit_paths(hits@)[j], p@),
        decreases hits@.len() - i,
    {
        if path_eq(hits[i].1.path.as_str(), p) {
            assert(same_path(hit_paths(hits@)[i as int], p@));
            return true;
        }
        i += 1;
    }
    false
}

/// How many hits to ask of the system's locate database, or none when it is not
/// asked: it is asked only when enabled, the text is at least two bytes, fewer hits
/// than the limit are in hand, and the index is still small and building, or
/// nothing was found at all.
pub open spec fn locate_request_of(
    use_system_locate: bool,
    query: SearchQuery,
    matched: nat,
    status: SearchIndexStatus,
    index_len: nat,
) -> Option<usize> {
    let budget_remaining = matched < query.limit && substantial(query);
    let index_thin = status == SearchIndexStatus::Indexing && index_len < 5_000;
    if use_system_locate && budget_remaining && (index_thin || matched == 0) {
        Some(clamp_nat(query.limit - matched, 50, usize::MAX as int) as usize)
    } else {
        None
    }
}

/// Decide whether, and for how many hits, the locate database is asked.
pub fn locate_request(
    use_system_locate: bool,
    query: &SearchQuery,
    matched: usize,
    status: SearchIndexStatus,
    index_len: usize,
) -> (r: Option<usize>)
    ensures
        r == locate_request_of(use_system_locate, *query, matched as nat, status, index_len as nat),
{
    let budget_remaining = matched < query.limit && byte_len(str_trim(query.text.as_str())) >= 2;
    let index_thin = status == SearchIndexStatus::Indexing && index_len < 5_000;
    if use_system_locate && budget_remaining && (index_thin || matched == 0) {
        let rest = query.limit - matched;
        Some(
            if rest < 50 {
                50
            } else {
                rest
            },
        )
    } else {
        None
    }
}

// ── Gathering hits ──────────────────────────────────────────────────────────

/// The name of an entry starts with a dot.
pub open spec fn dot_name(item: SearchResultItem) -> bool {
    has_prefix(item.name@, seq!['.'])
}

/// Whether the name of `item` starts with a dot.
pub fn is_dot_name(item: &SearchResultItem) -> (r: bool)
    ensures
        r == dot_name(*item),
{
    proof {
        reveal_strlit(".");
    }
    assert("."@ =~= seq!['.']);
    str_starts_with(item.name.as_str(), ".")
}

/// An indexed entry answers the query: it is in scope, shown (hidden entries only
/// when asked for) and satisfies the expression.
pub open spec fn index_hit(query: SearchQuery, expr: Expr, item: SearchResultItem) -> bool {
    &&& in_scope(query, item)
    &&& (query.include_hidden_system || !dot_name(item))
    &&& holds(expr@, item)
}

/// The hits of the index, in index order, each with its relevance score.
pub open spec fn index_hits_of(query: SearchQuery, expr: Expr, items: Seq<SearchResultItem>) -> Seq<(i64, SearchResultItem)>
    decreases items.len(),
{
    if items.len() == 0 {
        seq![]
    } else {
        let r = index_hits_of(query, expr, items.drop_last());
        if index_hit(query, expr, items.last()) {
            r.push((relevance_of(query, items.last()), items.last()))
        } else {
            r
        }
    }
}

/// The entries of the index that answer `query`, scored.
pub fn index_hits(query: &SearchQuery, expr: &Expr, items: &Vec<SearchResultItem>) -> (r: Vec<(i64, SearchResultItem)>)
    ensures
        r@ == index_hits_of(*query, *expr, items@),
{
    let mut out: Vec<(i64, SearchResultItem)> = Vec::new();
    let mut i: usize = 0;
    while i < items.len()
        invariant
            i <= items@.len(),
            out@ == index_hits_of(*query, *expr, items@.take(i as int)),
        decreases items@.len() - i,
    {
        let item = &items[i];
        assert(items@.take(i as int + 1).drop_last() =~= items@.take(i as int));
        if scope_match(query, item) && (query.include_hidden_system || !is_dot_name(item)) && eval_expr(expr, item) {
            let score = relevance_score(query, item);
            out.push((score, duplicate_item(item)));
        }
        i += 1;
    }
    assert(items@.take(items@.len() as int) =~= items@);
    out
}

/// Some hit of `m` has a path equal to `p`.
pub open spec fn has_path(m: Seq<(i64, SearchResultItem)>, p: Seq<char>) -> bool {
    exists|i: int| 0 <= i < m.len() && same_path(#[trigger] m[i].1.path@, p)
}

/// The candidates `c` added in turn to `m`, each only if no hit of the list has its
/// path yet. With a cap, the adding stops once the list holds that many hits:
/// checked after every candidate when `check_each`, else only after an addition.
pub open spec fn absorb(
    m: Seq<(i64, SearchResultItem)>,
    c: Seq<(i64, SearchResultItem)>,
    cap: Option<usize>,
    check_each: bool,
) -> Seq<(i64, SearchResultItem)>
    decreases c.len(),
{
    if c.len() == 0 {
        m
    } else {
        let added = !has_path(m, c[0].1.path@);
        let m2 = if added {
            m.push(c[0])
        } else {
            m
        };
        let full = match cap {
            Some(k) => m2.len() >= k && (check_each || added),
            None => false,
        };
        if full {
            m2
        } else {
            absorb(m2, c.drop_first(), cap, check_each)
        }
    }
}

/// Whether some hit of `m` has a path equal to `p`.
fn seen_path(m: &Vec<(i64, SearchResultItem)>, p: &str) -> (r: bool)
    ensures
        r == has_path(m@, p@),
{
    let mut i: usize = 0;
    while i < m.len()
        invariant
            i <= m@.len(),
            forall|j: int| 0 <= j < i ==> !same_path(#[trigger] m@[j].1.path@, p@),
        decreases m@.len() - i,
    {
        if path_eq(m[i].1.path.as_str(), p) {
            assert(same_path(m@[i as int].1.path@, p@));
            return true;
        }
        i += 1;
    }
    false
}

/// Add the hits of `extra` whose paths are not yet listed, in order; with a cap,
/// stop once the list reaches it (checked after every candidate when `check_each`,
/// else after each addition).
pub fn merge_unseen(
    matched: &mut Vec<(i64, SearchResultItem)>,
    extra: Vec<(i64, SearchResultItem)>,
    cap: Option<usize>,
    check_each: bool,
)
    ensures
        final(matched)@ == absorb(old(matched)@, extra@, cap, check_each),
{
    let ghost target = absorb(matched@, extra@, cap, check_each);
    let mut i: usize = 0;
    assert(extra@.skip(0) =~= extra@);
    while i < extra.len()
        invariant
            i <= extra@.len(),
            absorb(matched@, extra@.skip(i as int), cap, check_each) == target,
            target == absorb(old(matched)@, extra@, cap, check_each),
        decreases extra@.len() - i,
    {
        let ghost rest = extra@.skip(i as int);
        assert(rest[0] == extra@[i as int]);
        assert(rest.drop_first() =~= extra@.skip(i as int + 1));
        let cand = &extra[i];
        let ghost m0 = matched@;
        let added = !seen_path(matched, cand.1.path.as_str());
        if added {
            matched.push((cand.0, duplicate_item(&cand.1)));
            assert(matched@ == m0.push(rest[0]));
        }
        let full = match cap {
            Some(k) => matched.len() >= k && (check_each || added),
            None => false,
        };
        assert(absorb(m0, rest, cap, check_each) == if full {
            matched@
        } else {
            absorb(matched@, rest.drop_first(), cap, check_each)
        });
        if full {
            return;
        }
        i += 1;
    }
}

/// The fuzzy candidates of the index for the trimmed text `q`: entries in scope
/// and shown whose names fuzzily match, each with its fuzzy score.
pub open spec fn fuzzy_candidates(
    query: SearchQuery,
    q: Seq<char>,
    items: Seq<SearchResultItem>,
) -> Seq<(i64, SearchResultItem)>
    decreases items.len(),
{
    if items.len() == 0 {
        seq![]
    } else {
        let it = items[0];
        let rest = fuzzy_candidates(query, q, items.drop_first());
        if in_scope(query, it) && (query.include_hidden_system || !dot_name(it)) && fuzzy_score(q, it.name@) is Some {
            seq![(fuzzy_score(q, it.name@).unwrap(), it)] + rest
        } else {
            rest
        }
    }
}

/// The list after the fuzzy pass: when the plan allows it and fewer hits than the
/// limit are in hand, fuzzy matches of the index are added until the cap is reached.
pub open spec fn with_fuzzy(
    query: SearchQuery,
    plan: QueryPlan,
    m: Seq<(i64, SearchResultItem)>,
    items: Seq<SearchResultItem>,
) -> Seq<(i64, SearchResultItem)> {
    if plan.fuzzy && m.len() < query.limit {
        absorb(m, fuzzy_candidates(query, trim(query.text@), items), Some(plan.supplement_cap), false)
    } else {
        m
    }
}

/// The fuzzy pass over the index.
pub fn fuzzy_supplement(
    query: &SearchQuery,
    plan: &QueryPlan,
    matched: &mut Vec<(i64, SearchResultItem)>,
    items: &Vec<SearchResultItem>,
)
    ensures
        final(matched)@ == with_fuzzy(*query, *plan, old(matched)@, items@),
{
    if !(plan.fuzzy && matched.len() < query.limit) {
        return;
    }
    let q = str_trim(query.text.as_str());
    let ghost target = with_fuzzy(*query, *plan, matched@, items@);
    let cap = plan.supplement_cap;
    let mut i: usize = 0;
    assert(items@.skip(0) =~= items@);
    while i < items.len()
        invariant
            i <= items@.len(),
            q@ == trim(query.text@),
            cap == plan.supplement_cap,
            absorb(matched@, fuzzy_candidates(*query, q@, items@.skip(i as int)), Some(cap), false) == target,
            target == with_fuzzy(*query, *plan, old(matched)@, items@),
        decreases items@.len() - i,
    {
        let item = &items[i];
        let ghost rest = items@.skip(i as int);
        assert(rest[0] == items@[i as int]);
        assert(rest.drop_first() =~= items@.skip(i as int + 1));
        let ghost m0 = matched@;
        let ghost cands = fuzzy_candidates(*query, q@, rest);
        let ghost tail = fuzzy_candidates(*query, q@, rest.drop_first());
        if scope_match(query, item) && (query.include_hidden_system || !is_dot_name(item)) {
            if !seen_path(matched, item.path.as_str()) {
                match fuzzy_subsequence_score(q, item.name.as_str()) {
                    Some(score) => {
                        assert(cands == seq![(score, *item)] + tail);
                        assert(cands[0] == (score, *item));
                        assert(cands.drop_first() =~= tail);
                        matched.push((score, duplicate_item(item)));
                        assert(matched@ == m0.push(cands[0]));
                        if matched.len() >= cap {
                            return;
                        }
                    },
                    None => {
                        assert(cands == tail);
                    },
                }
            } else {
                proof {
                    if fuzzy_score(q@, item.name@) is Some {
                        assert(cands[0] == (fuzzy_score(q@, item.name@).unwrap(), *item));
                        assert(cands.drop_first() =~= tail);
                    } else {
                        assert(cands == tail);
                    }
                }
            }
        } else {
            assert(cands == tail);
        }
        i += 1;
    }
}

/// Content hits as candidates: those in scope, each with the content score.
pub open spec fn content_candidates(query: SearchQuery, items: Seq<SearchResultItem>) -> Seq<(i64, SearchResultItem)>
    decreases items.len(),
{
    if items.len() == 0 {
        seq![]
    } else {
        let rest = content_candidates(query, items.drop_first());
        if in_scope(query, items[0]) {
            seq![(CONTENT_HIT_SCORE, items[0])] + rest
        } else {
            rest
        }
    }
}

/// Add the content hits that are in scope and not yet listed, until the cap.
pub fn content_supplement(
    query: &SearchQuery,
    plan: &QueryPlan,
    matched: &mut Vec<(i64, SearchResultItem)>,
    hits: &Vec<SearchResultItem>,
)
    ensures
        final(matched)@ == absorb(old(matched)@, content_candidates(*query, hits@), Some(plan.supplement_cap), false),
{
    let ghost target = absorb(matched@, content_candidates(*query, hits@), Some(plan.supplement_cap), false);
    let cap = plan.supplement_cap;
    let mut i: usize = 0;
    assert(hits@.skip(0) =~= hits@);
    while i < hits.len()
        invariant
            i <= hits@.len(),
            cap == plan.supplement_cap,
            absorb(matched@, content_candidates(*query, hits@.skip(i as int)), Some(cap), false) == target,
            target == absorb(old(matched)@, content_candidates(*query, hits@), Some(plan.supplement_cap), false),
        decreases hits@.len() - i,
    {
        let item = &hits[i];
        let ghost rest = hits@.skip(i as int);
        assert(rest[0] == hits@[i as int]);
        assert(rest.drop_first() =~= hits@.skip(i as int + 1));
        let ghost m0 = matched@;
        let ghost cands = content_candidates(*query, rest);
        let ghost tail = content_candidates(*query, rest.drop_first());
        if scope_match(query, item) {
            assert(cands[0] == (CONTENT_HIT_SCORE, *item));
            assert(cands.drop_first() =~= tail);
            if !seen_path(matched, item.path.as_str()) {
                matched.push((CONTENT_HIT_SCORE, duplicate_item(item)));
                assert(matched@ == m0.push(cands[0]));
                if matched.len() >= cap {
                    return;
                }
            }
        } else {
            assert(cands == tail);
        }
        i += 1;
    }
}

/// Locate hits as candidates: those satisfying the expression, each with its relevance.
pub open spec fn locate_candidates(query: SearchQuery, expr: Expr, items: Seq<SearchResultItem>) -> Seq<(i64, SearchResultItem)>
    decreases items.len(),
{
    if items.len() == 0 {
        seq![]
    } else {
        let rest = locate_candidates(query, expr, items.drop_first());
        if holds(expr@, items[0]) {
            seq![(relevance_of(query, items[0]), items[0])] + rest
        } else {
            rest
        }
    }
}

/// Add the locate hits that satisfy the expression and are not yet listed.
pub fn locate_supplement(
    query: &SearchQuery,
    expr: &Expr,
    matched: &mut Vec<(i64, SearchResultItem)>,
    hits: &Vec<SearchResultItem>,
)
    ensures
        final(matched)@ == absorb(old(matched)@, locate_candidates(*query, *expr, hits@), None, false),
{
    let ghost target = absorb(matched@, locate_candidates(*query, *expr, hits@), None, false);
    let mut i: usize = 0;
    assert(hits@.skip(0) =~= hits@);
    while i < hits.len()
        invariant
            i <= hits@.len(),
            absorb(matched@, locate_candidates(*query, *expr, hits@.skip(i as int)), None, false) == target,
        decreases hits@.len() - i,
    {
        let item = &hits[i];
        let ghost rest = hits@.skip(i as int);
        assert(rest[0] == hits@[i as int]);
        assert(rest.drop_first() =~= hits@.skip(i as int + 1));
        let ghost m0 = matched@;
        let ghost cands = locate_candidates(*query, *expr, rest);
        let ghost tail = locate_candidates(*query, *expr, rest.drop_first());
        if eval_expr(expr, item) {
            let score = relevance_score(query, item);
            assert(cands[0] == (score, *item));
            assert(cands.drop_first() =~= tail);
            if !seen_path(matched, item.path.as_str()) {
                matched.push((score, duplicate_item(item)));
                assert(matched@ == m0.push(cands[0]));
            }
        } else {
            assert(cands == tail);
        }
        i += 1;
    }
}

// ── The response ────────────────────────────────────────────────────────────

/// Whether a query text is blank: nothing but white space. Such a query is
/// answered with [`blank_response`] without being parsed.
pub fn is_blank_query(text: &str) -> (r: bool)
    ensures
        r == (trim(text@).len() == 0),
{
    str_trim(text).is_empty()
}

/// The response to a query with a blank text: nothing found, no error.
pub fn blank_response(status: SearchIndexStatus) -> (r: SearchResponse)
    ensures
        r.items@.len() == 0,
        r.total == 0,
        r.status == status,
        r.error is None,
{
    SearchResponse { items: Vec::new(), total: 0, status, error: None }
}

/// The response to a query that does not parse: nothing found, and the error's text.
pub fn error_response(status: SearchIndexStatus, err: &SearchError) -> (r: SearchResponse)
    ensures
        r.items@.len() == 0,
        r.total == 0,
        r.status == status,
        r.error matches Some(e) && e@ == "search parser error: "@ + match err {
            SearchError::Parse(m) => m@,
        },
{
    SearchResponse { items: Vec::new(), total: 0, status, error: Some(err.message()) }
}

/// The page of `sorted` that starts at `offset` and holds at most `limit` hits, as entries.
pub open spec fn page_of(sorted: Seq<(i64, SearchResultItem)>, offset: nat, limit: nat) -> Seq<SearchResultItem> {
    let start = if offset < sorted.len() {
        offset as int
    } else {
        sorted.len() as int
    };
    let end = if start + limit < sorted.len() {
        start + limit
    } else {
        sorted.len() as int
    };
    sorted.subrange(start, end).map_values(|x: (i64, SearchResultItem)| x.1)
}

/// Sort the gathered hits as the query asks, count them, and cut the requested page.
pub fn finish_response(
    matched: Vec<(i64, SearchResultItem)>,
    query: &SearchQuery,
    status: SearchIndexStatus,
) -> (r: SearchResponse)
    ensures
        r.items@ == page_of(stable_sort(matched@, query.sort), query.offset as nat, query.limit as nat),
        r.total == matched@.len(),
        r.status == status,
        r.error is None,
{
    let mut sorted = matched;
    sort_results(&mut sorted, query.sort);
    proof {
        crate::sorting::law_sort_results_permutation(matched@, query.sort);
        assert(sorted@.len() == matched@.len()) by {
            assert(sorted@.to_multiset().len() == matched@.to_multiset().len());
        }
    }
    let total = sorted.len();
    let start: usize = if query.offset < total {
        query.offset
    } else {
        total
    };
    let end: usize = if query.limit < total - start {
        start + query.limit
    } else {
        total
    };
    let mut items: Vec<SearchResultItem> = Vec::new();
    let mut k: usize = start;
    while k < end
        invariant
            start <= k <= end <= sorted@.len(),
            items@ == sorted@.subrange(start as int, k as int).map_values(|x: (i64, SearchResultItem)| x.1),
        decreases end - k,
    {
        items.push(duplicate_item(&sorted[k].1));
        assert(items@ =~= sorted@.subrange(start as int, k as int + 1).map_values(|x: (i64, SearchResultItem)| x.1));
        k += 1;
    }
    SearchResponse { items, total, status, error: None }
}

/// No two hits of the list have equal paths.
pub open spec fn paths_distinct(m: Seq<(i64, SearchResultItem)>) -> bool {
    forall|i: int, j: int| 0 <= i < j < m.len() ==> !same_path(#[trigger] m[i].1.path@, #[trigger] m[j].1.path@)
}

/// The index answers a query with exactly the entries that answer it: every hit
/// is in the query's scope (for a current-folder search, under its folder), shown
/// and satisfying the expression, scored by its relevance; and every entry that
/// answers the query is among the hits.
pub proof fn law_index_hits_answer_the_query(query: SearchQuery, expr: Expr, items: Seq<SearchResultItem>)
    ensures
        forall|k: int| 0 <= k < index_hits_of(query, expr, items).len() ==> {
            let h = #[trigger] index_hits_of(query, expr, items)[k];
            &&& index_hit(query, expr, h.1)
            &&& h.0 == relevance_of(query, h.1)
            &&& query.scope == SearchScope::CurrentFolder ==> (query.root_path matches Some(r)
                && path_has_base(h.1.path@, r@))
        },
        forall|i: int| 0 <= i < items.len() && index_hit(query, expr, #[trigger] items[i]) ==> exists|k: int|
            0 <= k < index_hits_of(query, expr, items).len() && index_hits_of(query, expr, items)[k].1 == items[i],
    decreases items.len(),
{
    if items.len() > 0 {
        let rest = items.drop_last();
        law_index_hits_answer_the_query(query, expr, rest);
        let r = index_hits_of(query, expr, rest);
        let all = index_hits_of(query, expr, items);
        assert forall|i: int| 0 <= i < items.len() && index_hit(query, expr, #[trigger] items[i]) implies exists|k: int|
            0 <= k < all.len() && all[k].1 == items[i] by {
            if i < items.len() - 1 {
                assert(rest[i] == items[i]);
                let k = choose|k: int| 0 <= k < r.len() && r[k].1 == rest[i];
                assert(all[k] == r[k]);
            } else {
                assert(all[r.len() as int].1 == items.last());
            }
        }
    }
}

/// The hidden-entry filter of a search from the index: when hidden entries are
/// asked for, every entry in scope that satisfies the expression is a hit,
/// dot-named or not; when they are not, a dot-named entry is never a hit and
/// every other entry in scope that satisfies the expression is. Every hit is in
/// scope and satisfies the expression.
pub proof fn law_index_hits_hidden_only_when_asked(query: SearchQuery, expr: Expr, items: Seq<SearchResultItem>)
    ensures
        forall|i: int|
            0 <= i < items.len() && query.include_hidden_system && in_scope(query, #[trigger] items[i]) && holds(
                expr@,
                items[i],
            ) ==> exists|k: int|
                0 <= k < index_hits_of(query, expr, items).len() && index_hits_of(query, expr, items)[k].1
                    == items[i],
        forall|i: int|
            0 <= i < items.len() && !has_prefix(#[trigger] items[i].name@, seq!['.']) && in_scope(query, items[i])
                && holds(expr@, items[i]) ==> exists|k: int|
                0 <= k < index_hits_of(query, expr, items).len() && index_hits_of(query, expr, items)[k].1
                    == items[i],
        forall|k: int| 0 <= k < index_hits_of(query, expr, items).len() ==> {
            let h = #[trigger] index_hits_of(query, expr, items)[k].1;
            &&& in_scope(query, h)
            &&& holds(expr@, h)
            &&& (query.include_hidden_system || !has_prefix(h.name@, seq!['.']))
        },
{
    law_index_hits_answer_the_query(query, expr, items);
    let hits = index_hits_of(query, expr, items);
    assert forall|i: int|
        0 <= i < items.len() && query.include_hidden_system && in_scope(query, #[trigger] items[i]) && holds(
            expr@,
            items[i],
        ) implies exists|k: int| 0 <= k < hits.len() && hits[k].1 == items[i] by {
        assert(index_hit(query, expr, items[i]));
    }
    assert forall|i: int|
        0 <= i < items.len() && !has_prefix(#[trigger] items[i].name@, seq!['.']) && in_scope(query, items[i])
            && holds(expr@, items[i]) implies exists|k: int| 0 <= k < hits.len() && hits[k].1 == items[i] by {
        assert(index_hit(query, expr, items[i]));
    }
    assert forall|k: int| 0 <= k < hits.len() implies {
        let h = #[trigger] hits[k].1;
        &&& in_scope(query, h)
        &&& holds(expr@, h)
        &&& (query.include_hidden_system || !has_prefix(h.name@, seq!['.']))
    } by {
        assert(index_hit(query, expr, hits[k].1));
    }
}

/// Supplementing never repeats a path and never drops a hit: the list keeps its
/// hits in front, and if no path was listed twice before, none is after.
pub proof fn law_absorb_keeps_hits_and_distinct_paths(
    m: Seq<(i64, SearchResultItem)>,
    c: Seq<(i64, SearchResultItem)>,
    cap: Option<usize>,
    check_each: bool,
)
    ensures
        absorb(m, c, cap, check_each).len() >= m.len(),
        absorb(m, c, cap, check_each).take(m.len() as int) == m,
        paths_distinct(m) ==> paths_distinct(absorb(m, c, cap, check_each)),
    decreases c.len(),
{
    if c.len() > 0 {
        let added = !has_path(m, c[0].1.path@);
        let m2 = if added {
            m.push(c[0])
        } else {
            m
        };
        if paths_distinct(m) && added {
            assert forall|i: int, j: int| 0 <= i < j < m2.len() implies !same_path(
                #[trigger] m2[i].1.path@,
                #[trigger] m2[j].1.path@,
            ) by {
                if j == m.len() {
                    assert(m2[i] == m[i]);
                    assert(!same_path(m[i].1.path@, c[0].1.path@));
                } else {
                    assert(m2[i] == m[i] && m2[j] == m[j]);
                }
            }
        }
        law_absorb_keeps_hits_and_distinct_paths(m2, c.drop_first(), cap, check_each);
        let r = absorb(m, c, cap, check_each);
        assert(m2.take(m.len() as int) =~= m);
        if r != m2 {
            assert(r == absorb(m2, c.drop_first(), cap, check_each));
            assert(r.take(m2.len() as int) == m2);
            assert(r.take(m.len() as int) =~= m2.take(m.len() as int));
        }
    } else {
        assert(m.take(m.len() as int) =~= m);
    }
}

/// A page never holds more hits than the limit, nor more than there are past
/// the offset, and the hits it holds are those at the offset onwards, in order.
pub proof fn law_page_is_a_window(sorted: Seq<(i64, SearchResultItem)>, offset: nat, limit: nat)
    ensures
        page_of(sorted, offset, limit).len() <= limit,
        offset <= sorted.len() ==> page_of(sorted, offset, limit).len() == if sorted.len() - offset < limit {
            (sorted.len() - offset) as nat
        } else {
            limit
        },
        forall|i: int|
            0 <= i < page_of(sorted, offset, limit).len() ==> #[trigger] page_of(sorted, offset, limit)[i]
                == sorted[offset + i].1,
{
}

} // verus!

//! The orders in which search hits are listed, and the stable sort by them.

use vstd::prelude::*;
use std::cmp::Ordering;
use crate::model::{SearchResultItem, SearchSort};
use crate::paths::{components_of, path_components};
use crate::text::str_eq;

verus! {

broadcast use vstd::seq_lib::group_to_multiset_ensures;

/// `a` comes before `b` in the lexicographic order of characters by code point,
/// which is the order of `str` (the byte order of UTF-8).
pub open spec fn chars_lt(a: Seq<char>, b: Seq<char>) -> bool
    decreases a.len(),
{
    if a.len() == 0 {
        b.len() > 0
    } else if b.len() == 0 {
        false
    } else if a[0] != b[0] {
        (a[0] as int) < (b[0] as int)
    } else {
        chars_lt(a.drop_first(), b.drop_first())
    }
}

/// The rank of a path component: the root, `.`, `..`, then normal names.
pub open spec fn comp_rank(c: Seq<char>) -> int {
    if c == seq!['/'] {
        0
    } else if c == seq!['.'] {
        1
    } else if c == seq!['.', '.'] {
        2
    } else {
        3
    }
}

/// The order of path components: by rank, and normal names by their characters.
pub open spec fn comp_lt(a: Seq<char>, b: Seq<char>) -> bool {
    comp_rank(a) < comp_rank(b) || (comp_rank(a) == 3 && comp_rank(b) == 3 && chars_lt(a, b))
}

/// The order of paths: lexicographic over their components.
pub open spec fn comps_lt(a: Seq<Seq<char>>, b: Seq<Seq<char>>) -> bool
    decreases a.len(),
{
    if a.len() == 0 {
        b.len() > 0
    } else if b.len() == 0 {
        false
    } else if comp_lt(a[0], b[0]) {
        true
    } else if comp_lt(b[0], a[0]) {
        false
    } else {
        comps_lt(a.drop_first(), b.drop_first())
    }
}

/// An optional count, with zero for none.
pub open spec fn or_zero(o: Option<u64>) -> u64 {
    match o {
        Some(v) => v,
        None => 0,
    }
}

/// `a` is listed before `b` under `sort`: by descending score and then name, by
/// lower-cased name, by path, or by descending modification time or size.
pub open spec fn scored_lt(a: (i64, SearchResultItem), b: (i64, SearchResultItem), sort: SearchSort) -> bool {
    match sort {
        SearchSort::Relevance => a.0 > b.0 || (a.0 == b.0 && chars_lt(a.1.name@, b.1.name@)),
        SearchSort::Name => chars_lt(a.1.name_lower@, b.1.name_lower@),
        SearchSort::Path => comps_lt(components_of(a.1.path@), components_of(b.1.path@)),
        SearchSort::Modified => or_zero(b.1.modified_unix_secs) < or_zero(a.1.modified_unix_secs),
        SearchSort::Size => or_zero(b.1.size_bytes) < or_zero(a.1.size_bytes),
    }
}

/// The position at which a stable insertion puts `x` into `s`: after every leading
/// element that `x` does not come before.
pub open spec fn insert_pos(x: (i64, SearchResultItem), s: Seq<(i64, SearchResultItem)>, sort: SearchSort) -> int
    decreases s.len(),
{
    if s.len() == 0 {
        0
    } else if scored_lt(x, s[0], sort) {
        0
    } else {
        1 + insert_pos(x, s.drop_first(), sort)
    }
}

/// The stable sort of `s` under `sort`: each element, taken in order, is inserted
/// after all earlier elements it does not come before, so equal elements keep
/// their original order.
pub open spec fn stable_sort(s: Seq<(i64, SearchResultItem)>, sort: SearchSort) -> Seq<(i64, SearchResultItem)>
    decreases s.len(),
{
    if s.len() == 0 {
        s
    } else {
        let r = stable_sort(s.drop_last(), sort);
        r.insert(insert_pos(s.last(), r, sort), s.last())
    }
}

/// No element of `s` comes before an earlier one.
pub open spec fn sorted_by(s: Seq<(i64, SearchResultItem)>, sort: SearchSort) -> bool {
    forall|i: int, j: int| 0 <= i < j < s.len() ==> !scored_lt(#[trigger] s[j], #[trigger] s[i], sort)
}

// ── Exec comparisons ────────────────────────────────────────────────────────

/// `Ord::cmp` for `str`: strings are ordered lexicographically by their bytes,
/// which orders characters by code point.
#[verifier::external_body]
fn str_order(a: &str, b: &str) -> (r: Ordering)
    ensures
        (r == Ordering::Less) == chars_lt(a@, b@),
        (r == Ordering::Greater) == chars_lt(b@, a@),
{
    a.cmp(b)
}

fn rank_of(c: &str) -> (r: u8)
    ensures
        r as int == comp_rank(c@),
{
    proof {
        reveal_strlit("/");
        reveal_strlit(".");
        reveal_strlit("..");
    }
    if str_eq(c, "/") {
        assert("/"@ =~= seq!['/']);
        assert(comp_rank(c@) == 0);
        0
    } else if str_eq(c, ".") {
        assert("."@ =~= seq!['.']);
        assert(c@ != seq!['/']) by {
            assert("/"@ =~= seq!['/']);
        }
        assert(comp_rank(c@) == 1);
        1
    } else if str_eq(c, "..") {
        assert(".."@ =~= seq!['.', '.']);
        assert(c@ != seq!['/']) by {
            assert("/"@ =~= seq!['/']);
        }
        assert(c@ != seq!['.']) by {
            assert("."@ =~= seq!['.']);
        }
        assert(comp_rank(c@) == 2);
        2
    } else {
        assert(c@ != seq!['/']) by {
            assert("/"@ =~= seq!['/']);
        }
        assert(c@ != seq!['.']) by {
            assert("."@ =~= seq!['.']);
        }
        assert(c@ != seq!['.', '.']) by {
            assert(".."@ =~= seq!['.', '.']);
        }
        3
    }
}

/// -1, 0 or 1 as `a` comes before, together with or after `b` among path components.
fn component_rel(a: &str, b: &str) -> (r: i8)
    ensures
        (r == -1) == comp_lt(a@, b@),
        (r == 1) == comp_lt(b@, a@),
{
    let ra = rank_of(a);
    let rb = rank_of(b);
    proof {
        lemma_chars_lt_irreflexive(a@);
        lemma_chars_lt_asymmetric(a@, b@);
    }
    if ra < rb {
        -1
    } else if rb < ra {
        1
    } else if ra == 3 {
        match str_order(a, b) {
            Ordering::Less => -1,
            Ordering::Greater => 1,
            Ordering::Equal => 0,
        }
    } else {
        0
    }
}

/// -1, 0 or 1 as the component list `a` comes before, together with or after `b`.
fn components_rel(a: &Vec<String>, b: &Vec<String>) -> (r: i8)
    ensures
        (r == -1) == comps_lt(a@.map_values(|s: String| s@), b@.map_values(|s: String| s@)),
        (r == 1) == comps_lt(b@.map_values(|s: String| s@), a@.map_values(|s: String| s@)),
{
    let ghost va = a@.map_values(|s: String| s@);
    let ghost vb = b@.map_values(|s: String| s@);
    let mut i: usize = 0;
    assert(va.skip(0) =~= va);
    assert(vb.skip(0) =~= vb);
    while i < a.len() && i < b.len()
        invariant
            va == a@.map_values(|s: String| s@),
            vb == b@.map_values(|s: String| s@),
            i <= a@.len(),
            i <= b@.len(),
            comps_lt(va, vb) == comps_lt(va.skip(i as int), vb.skip(i as int)),
            comps_lt(vb, va) == comps_lt(vb.skip(i as int), va.skip(i as int)),
        decreases a@.len() - i,
    {
        let o = component_rel(a[i].as_str(), b[i].as_str());
        let ghost sa = va.skip(i as int);
        let ghost sb = vb.skip(i as int);
        assert(sa[0] == a@[i as int]@);
        assert(sb[0] == b@[i as int]@);
        if o == -1 {
            return -1;
        } else if o == 1 {
            return 1;
        }
        assert(sa.drop_first() =~= va.skip(i as int + 1));
        assert(sb.drop_first() =~= vb.skip(i as int + 1));
        i += 1;
    }
    if i < b.len() {
        assert(va.skip(i as int).len() == 0);
        -1
    } else if i < a.len() {
        assert(vb.skip(i as int).len() == 0);
        1
    } else {
        assert(va.skip(i as int).len() == 0);
        assert(vb.skip(i as int).len() == 0);
        0
    }
}

/// -1, 0 or 1 as the count `a` (zero when absent) is larger than, equal to or smaller than `b`.
fn count_rel_desc(a: Option<u64>, b: Option<u64>) -> (r: i8)
    ensures
        (r == -1) == (or_zero(b) < or_zero(a)),
        (r == 1) == (or_zero(a) < or_zero(b)),
{
    let x: u64 = match a {
        Some(v) => v,
        None => 0,
    };
    let y: u64 = match b {
        Some(v) => v,
        None => 0,
    };
    if y < x {
        -1
    } else if x < y {
        1
    } else {
        0
    }
}

fn ordering_of(r: i8) -> (o: Ordering)
    ensures
        (o == Ordering::Less) == (r == -1),
        (o == Ordering::Greater) == (r == 1),
{
    if r == -1 {
        Ordering::Less
    } else if r == 1 {
        Ordering::Greater
    } else {
        Ordering::Equal
    }
}

/// The comparison of two scored hits under `sort`.
pub fn order_scored(a: &(i64, SearchResultItem), b: &(i64, SearchResultItem), sort: SearchSort) -> (r: Ordering)
    ensures
        (r == Ordering::Less) == scored_lt(*a, *b, sort),
        (r == Ordering::Greater) == scored_lt(*b, *a, sort),
{
    match sort {
        SearchSort::Relevance => {
            if a.0 > b.0 {
                Ordering::Less
            } else if a.0 < b.0 {
                Ordering::Greater
            } else {
                str_order(a.1.name.as_str(), b.1.name.as_str())
            }
        },
        SearchSort::Name => str_order(a.1.name_lower.as_str(), b.1.name_lower.as_str()),
        SearchSort::Path => {
            let ca = path_components(a.1.path.as_str());
            let cb = path_components(b.1.path.as_str());
            ordering_of(components_rel(&ca, &cb))
        },
        SearchSort::Modified => ordering_of(count_rel_desc(a.1.modified_unix_secs, b.1.modified_unix_secs)),
        SearchSort::Size => ordering_of(count_rel_desc(a.1.size_bytes, b.1.size_bytes)),
    }
}

/// `slice::sort_by` with [`order_scored`] as the comparison. That sort is stable:
/// the hits end up ordered by the comparison, with equal hits in their original
/// order, which is the sequence [`stable_sort`] describes.
#[verifier::external_body]
fn sort_scored_by(v: &mut Vec<(i64, SearchResultItem)>, sort: SearchSort)
    ensures
        final(v)@ == stable_sort(old(v)@, sort),
{
    v.sort_by(|a, b| order_scored(a, b, sort))
}

/// Sort scored hits for display under `sort`.
pub fn sort_results(v: &mut Vec<(i64, SearchResultItem)>, sort: SearchSort)
    ensures
        final(v)@ == stable_sort(old(v)@, sort),
{
    sort_scored_by(v, sort)
}

// ── Properties of the orders ────────────────────────────────────────────────

proof fn lemma_chars_lt_irreflexive(a: Seq<char>)
    ensures
        !chars_lt(a, a),
    decreases a.len(),
{
    if a.len() > 0 {
        lemma_chars_lt_irreflexive(a.drop_first());
    }
}

proof fn lemma_chars_lt_asymmetric(a: Seq<char>, b: Seq<char>)
    ensures
        !(chars_lt(a, b) && chars_lt(b, a)),
        a != b ==> chars_lt(a, b) || chars_lt(b, a),
    decreases a.len(),
{
    if a.len() > 0 && b.len() > 0 {
        lemma_chars_lt_asymmetric(a.drop_first(), b.drop_first());
        if a[0] == b[0] && a != b {
            assert(a.drop_first() != b.drop_first()) by {
                if a.drop_first() == b.drop_first() {
                    assert(a =~= seq![a[0]] + a.drop_first());
                    assert(b =~= seq![b[0]] + b.drop_first());
                }
            }
        }
    } else if a.len() == 0 && b.len() == 0 {
        assert(a =~= b);
    }
}

proof fn lemma_chars_lt_transitive(a: Seq<char>, b: Seq<char>, c: Seq<char>)
    requires
        chars_lt(a, b),
        chars_lt(b, c),
    ensures
        chars_lt(a, c),
    decreases a.len(),
{
    if a.len() > 0 && b.len() > 0 && c.len() > 0 && a[0] == b[0] && b[0] == c[0] {
        lemma_chars_lt_transitive(a.drop_first(), b.drop_first(), c.drop_first());
    }
}

proof fn lemma_comp_lt(a: Seq<char>, b: Seq<char>, c: Seq<char>)
    ensures
        !comp_lt(a, a),
        comp_lt(a, b) && comp_lt(b, c) ==> comp_lt(a, c),
        !comp_lt(a, b) && !comp_lt(b, a) ==> a == b,
{
    lemma_chars_lt_irreflexive(a);
    lemma_chars_lt_asymmetric(a, b);
    if chars_lt(a, b) && chars_lt(b, c) {
        lemma_chars_lt_transitive(a, b, c);
    }
}

proof fn lemma_comps_lt_irreflexive(a: Seq<Seq<char>>)
    ensures
        !comps_lt(a, a),
    decreases a.len(),
{
    if a.len() > 0 {
        lemma_comp_lt(a[0], a[0], a[0]);
        lemma_comps_lt_irreflexive(a.drop_first());
    }
}

proof fn lemma_comps_lt_transitive(a: Seq<Seq<char>>, b: Seq<Seq<char>>, c: Seq<Seq<char>>)
    requires
        comps_lt(a, b),
        comps_lt(b, c),
    ensures
        comps_lt(a, c),
    decreases a.len(),
{
    if a.len() > 0 && b.len() > 0 && c.len() > 0 {
        lemma_comp_lt(a[0], b[0], c[0]);
        lemma_comp_lt(b[0], c[0], a[0]);
        lemma_comp_lt(c[0], a[0], b[0]);
        lemma_comp_lt(a[0], c[0], b[0]);
        lemma_comp_lt(b[0], a[0], c[0]);
        lemma_comp_lt(c[0], b[0], a[0]);
        if !comp_lt(a[0], b[0]) && !comp_lt(b[0], a[0]) && !comp_lt(b[0], c[0]) && !comp_lt(c[0], b[0]) {
            lemma_comps_lt_transitive(a.drop_first(), b.drop_first(), c.drop_first());
        }
    }
}

/// The listing order is a strict order: irreflexive and transitive.
pub proof fn lemma_scored_lt(
    a: (i64, SearchResultItem),
    b: (i64, SearchResultItem),
    c: (i64, SearchResultItem),
    sort: SearchSort,
)
    ensures
        !scored_lt(a, a, sort),
        scored_lt(a, b, sort) && scored_lt(b, c, sort) ==> scored_lt(a, c, sort),
{
    lemma_chars_lt_irreflexive(a.1.name@);
    lemma_chars_lt_irreflexive(a.1.name_lower@);
    lemma_comps_lt_irreflexive(components_of(a.1.path@));
    if scored_lt(a, b, sort) && scored_lt(b, c, sort) {
        match sort {
            SearchSort::Relevance => {
                if a.0 == b.0 && b.0 == c.0 {
                    lemma_chars_lt_transitive(a.1.name@, b.1.name@, c.1.name@);
                }
            },
            SearchSort::Name => {
                lemma_chars_lt_transitive(a.1.name_lower@, b.1.name_lower@, c.1.name_lower@);
            },
            SearchSort::Path => {
                lemma_comps_lt_transitive(
                    components_of(a.1.path@),
                    components_of(b.1.path@),
                    components_of(c.1.path@),
                );
            },
            _ => {},
        }
    }
}

proof fn lemma_insert_pos(x: (i64, SearchResultItem), s: Seq<(i64, SearchResultItem)>, sort: SearchSort)
    ensures
        0 <= insert_pos(x, s, sort) <= s.len(),
        forall|j: int| 0 <= j < insert_pos(x, s, sort) ==> !scored_lt(x, #[trigger] s[j], sort),
        insert_pos(x, s, sort) < s.len() ==> scored_lt(x, s[insert_pos(x, s, sort)], sort),
    decreases s.len(),
{
    if s.len() > 0 && !scored_lt(x, s[0], sort) {
        lemma_insert_pos(x, s.drop_first(), sort);
        assert forall|j: int| 0 <= j < insert_pos(x, s, sort) implies !scored_lt(x, #[trigger] s[j], sort) by {
            if j > 0 {
                assert(s[j] == s.drop_first()[j - 1]);
            }
        }
    }
}

proof fn lemma_insert_sorted(x: (i64, SearchResultItem), s: Seq<(i64, SearchResultItem)>, sort: SearchSort)
    requires
        sorted_by(s, sort),
    ensures
        sorted_by(s.insert(insert_pos(x, s, sort), x), sort),
{
    lemma_insert_pos(x, s, sort);
    let k = insert_pos(x, s, sort);
    let r = s.insert(k, x);
    assert forall|i: int, j: int| 0 <= i < j < r.len() implies !scored_lt(#[trigger] r[j], #[trigger] r[i], sort) by {
        if i < k && j == k {
        } else if i == k {
            // r[j] == s[j - 1] with j - 1 >= k
            lemma_scored_lt(s[j - 1], x, s[k], sort);
            lemma_scored_lt(s[k], s[k], s[k], sort);
            if j - 1 > k {
                assert(!scored_lt(s[j - 1], s[k], sort));
            }
        } else if i < k && j > k {
            assert(!scored_lt(s[j - 1], s[i], sort));
        } else if j < k {
        } else {
            assert(!scored_lt(s[j - 1], s[i - 1], sort));
        }
    }
}

/// Sorting lists the hits in order: no hit comes before an earlier one.
pub proof fn law_sort_results_sorted(s: Seq<(i64, SearchResultItem)>, sort: SearchSort)
    ensures
        sorted_by(stable_sort(s, sort), sort),
    decreases s.len(),
{
    if s.len() > 0 {
        law_sort_results_sorted(s.drop_last(), sort);
        lemma_insert_sorted(s.last(), stable_sort(s.drop_last(), sort), sort);
    }
}

/// What each order means for sorted hits, for any two hits of the result with
/// the first before the second: by relevance the first has the higher score, or
/// the same score and a name not after the second's; by name the first's
/// lower-cased name is not after the second's (by code point); by path the
/// first's components are not after the second's; by modification time and by
/// size the first's value (zero when unknown) is not the smaller.
pub proof fn law_sorted_results_follow_the_key(s: Seq<(i64, SearchResultItem)>, sort: SearchSort)
    ensures
        forall|i: int, j: int| 0 <= i < j < stable_sort(s, sort).len() ==> {
            let a = #[trigger] stable_sort(s, sort)[i];
            let b = #[trigger] stable_sort(s, sort)[j];
            match sort {
                SearchSort::Relevance => a.0 > b.0 || (a.0 == b.0 && !chars_lt(b.1.name@, a.1.name@)),
                SearchSort::Name => !chars_lt(b.1.name_lower@, a.1.name_lower@),
                SearchSort::Path => !comps_lt(components_of(b.1.path@), components_of(a.1.path@)),
                SearchSort::Modified => or_zero(a.1.modified_unix_secs) >= or_zero(b.1.modified_unix_secs),
                SearchSort::Size => or_zero(a.1.size_bytes) >= or_zero(b.1.size_bytes),
            }
        },
{
    law_sort_results_sorted(s, sort);
    let r = stable_sort(s, sort);
    assert forall|i: int, j: int| 0 <= i < j < r.len() implies {
        let a = #[trigger] r[i];
        let b = #[trigger] r[j];
        match sort {
            SearchSort::Relevance => a.0 > b.0 || (a.0 == b.0 && !chars_lt(b.1.name@, a.1.name@)),
            SearchSort::Name => !chars_lt(b.1.name_lower@, a.1.name_lower@),
            SearchSort::Path => !comps_lt(components_of(b.1.path@), components_of(a.1.path@)),
            SearchSort::Modified => or_zero(a.1.modified_unix_secs) >= or_zero(b.1.modified_unix_secs),
            SearchSort::Size => or_zero(a.1.size_bytes) >= or_zero(b.1.size_bytes),
        }
    } by {
        assert(!scored_lt(r[j], r[i], sort));
    }
}

/// Sorting neither loses nor adds hits: the result is a permutation of the input.
pub proof fn law_sort_results_permutation(s: Seq<(i64, SearchResultItem)>, sort: SearchSort)
    ensures
        stable_sort(s, sort).to_multiset() == s.to_multiset(),
    decreases s.len(),
{
    if s.len() > 0 {
        law_sort_results_permutation(s.drop_last(), sort);
        let r = stable_sort(s.drop_last(), sort);
        lemma_insert_pos(s.last(), r, sort);
        assert(s.drop_last().push(s.last()) =~= s);
    }
}

} // verus!

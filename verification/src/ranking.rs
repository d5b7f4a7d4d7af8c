//! Scoring of search hits: scope filtering, relevance tiers, the fuzzy
//! subsequence score and the status texts of the indexer.

use vstd::prelude::*;
use crate::model::{SearchQuery, SearchResultItem, SearchScope};
use crate::paths::{path_has_base, path_starts_with};
use crate::text::{
    ascii_lower, chars_of, decimal, has_prefix, push_decimal, push_str, seq_contains, str_contains,
    str_eq, str_starts_with, str_trim, to_ascii_lower, trim,
};

verus! {

/// Whether `item` lies in the scope of `query`: everything for a global search,
/// for a current-folder search the entries under the query's root (none without one).
pub open spec fn in_scope(query: SearchQuery, item: SearchResultItem) -> bool {
    match query.scope {
        SearchScope::Global => true,
        SearchScope::CurrentFolder => match query.root_path {
            Some(root) => path_has_base(item.path@, root@),
            None => false,
        },
    }
}

/// Whether `item` lies in the scope of `query`.
pub fn scope_match(query: &SearchQuery, item: &SearchResultItem) -> (r: bool)
    ensures
        r == in_scope(*query, *item),
{
    match query.scope {
        SearchScope::Global => true,
        SearchScope::CurrentFolder => match &query.root_path {
            Some(root) => path_starts_with(item.path.as_str(), root.as_str()),
            None => false,
        },
    }
}

/// The relevance tier of a hit for the lower-cased query `q`: an exact name,
/// a name prefix, a name substring, a path substring, or nothing.
pub open spec fn relevance(q: Seq<char>, name_lower: Seq<char>, path_lower: Seq<char>) -> i64 {
    if name_lower == q {
        10_000
    } else if has_prefix(name_lower, q) {
        7_500
    } else if seq_contains(name_lower, q) {
        5_000
    } else if seq_contains(path_lower, q) {
        2_500
    } else {
        0
    }
}

/// The relevance of `item` for `query`, read from the item's lower-cased fields.
pub open spec fn relevance_of(query: SearchQuery, item: SearchResultItem) -> i64 {
    relevance(ascii_lower(query.text@), item.name_lower@, item.path_lower@)
}

/// The relevance score of `item` for `query`.
pub fn relevance_score(query: &SearchQuery, item: &SearchResultItem) -> (r: i64)
    ensures
        r == relevance_of(*query, *item),
{
    let q = to_ascii_lower(query.text.as_str());
    let name = item.name_lower.as_str();
    if str_eq(name, q.as_str()) {
        10_000
    } else if str_starts_with(name, q.as_str()) {
        7_500
    } else if str_contains(name, q.as_str()) {
        5_000
    } else if str_contains(item.path_lower.as_str(), q.as_str()) {
        2_500
    } else {
        0
    }
}

/// The greedy left-to-right embedding of `q` into the first `n` characters of `t`:
/// each character of `t` that equals the next unmatched character of `q` is taken.
/// Gives how many characters of `q` are matched, the position of the first match
/// and the position of the last one.
pub open spec fn greedy(q: Seq<char>, t: Seq<char>, n: nat) -> (nat, Option<nat>, nat)
    decreases n,
{
    if n == 0 {
        (0, None, 0)
    } else {
        let g = greedy(q, t, (n - 1) as nat);
        if g.0 < q.len() && t[n - 1] == q[g.0 as int] {
            (g.0 + 1, if g.1 is None { Some((n - 1) as nat) } else { g.1 }, (n - 1) as nat)
        } else {
            g
        }
    }
}

/// `x` limited to the range `lo..=hi`.
pub open spec fn clamp(x: int, lo: int, hi: int) -> int {
    if x < lo {
        lo
    } else if x > hi {
        hi
    } else {
        x
    }
}

/// The bonus for a match that starts at the beginning of the text or near it.
pub open spec fn start_bonus(first: int) -> int {
    if first == 0 {
        300
    } else if first < 3 {
        150
    } else {
        0
    }
}

/// The fuzzy score of `query` against `text`, compared without ASCII case: none
/// when the query's characters do not all occur in the text in order; otherwise
/// `200 * |query| / span` (the span running from the first to the last matched
/// character) plus the start bonus, limited to `100..=999`. An empty query scores 100.
pub open spec fn fuzzy_score(query: Seq<char>, text: Seq<char>) -> Option<i64> {
    if query.len() == 0 {
        Some(100)
    } else {
        let q = ascii_lower(query);
        let t = ascii_lower(text);
        let g = greedy(q, t, t.len());
        if g.0 < q.len() {
            None
        } else {
            let first: int = match g.1 {
                Some(f) => f as int,
                None => 0,
            };
            let span = g.2 - first + 1;
            Some(clamp(((q.len() * 200) as int) / span + start_bonus(first), 100, 999) as i64)
        }
    }
}

/// The greedy matcher never matches more than the query, and once something is
/// matched the first match lies before the last, which lies before `n`.
proof fn lemma_greedy_shape(q: Seq<char>, t: Seq<char>, n: nat)
    requires
        n <= t.len(),
    ensures
        greedy(q, t, n).0 <= q.len(),
        greedy(q, t, n).0 == 0 <==> greedy(q, t, n).1 is None,
        greedy(q, t, n).0 > 0 ==> greedy(q, t, n).1.unwrap() <= greedy(q, t, n).2 < n,
    decreases n,
{
    if n > 0 {
        lemma_greedy_shape(q, t, (n - 1) as nat);
    }
}

/// The fuzzy subsequence score of `query` against `text`.
pub fn fuzzy_subsequence_score(query: &str, text: &str) -> (r: Option<i64>)
    ensures
        r == fuzzy_score(query@, text@),
{
    if query.is_empty() {
        return Some(100);
    }
    let ql = to_ascii_lower(query);
    let q = chars_of(ql.as_str());
    let tl = to_ascii_lower(text);
    let t = chars_of(tl.as_str());
    let mut qi: usize = 0;
    let mut first: Option<usize> = None;
    let mut last: usize = 0;
    let mut ti: usize = 0;
    while ti < t.len()
        invariant
            q@ == ascii_lower(query@),
            t@ == ascii_lower(text@),
            ti <= t@.len(),
            greedy(q@, t@, ti as nat) == (qi as nat, match first {
                Some(f) => Some(f as nat),
                None => None,
            }, last as nat),
        decreases t@.len() - ti,
    {
        proof {
            lemma_greedy_shape(q@, t@, ti as nat);
        }
        if qi < q.len() && t[ti] == q[qi] {
            if first.is_none() {
                first = Some(ti);
            }
            last = ti;
            qi += 1;
        }
        ti += 1;
    }
    proof {
        lemma_greedy_shape(q@, t@, t@.len());
    }
    if qi < q.len() {
        return None;
    }
    let f: usize = match first {
        Some(f) => f,
        None => 0,
    };
    let span: u128 = (last - f + 1) as u128;
    let compact: u128 = (q.len() as u128) * 200 / span;
    let bonus: u128 = if f == 0 {
        300
    } else if f < 3 {
        150
    } else {
        0
    };
    let total: u128 = compact + bonus;
    let clamped: u128 = if total < 100 {
        100
    } else if total > 999 {
        999
    } else {
        total
    };
    Some(clamped as i64)
}

/// `idx` lists increasing positions of `t` holding the characters of `q` in order.
pub open spec fn embeds(idx: Seq<int>, q: Seq<char>, t: Seq<char>) -> bool {
    &&& idx.len() == q.len()
    &&& forall|i: int| 0 <= i < idx.len() ==> 0 <= #[trigger] idx[i] < t.len() && t[idx[i]] == q[i]
    &&& forall|i: int, j: int| 0 <= i < j < idx.len() ==> #[trigger] idx[i] < #[trigger] idx[j]
}

/// Every character of `q` occurs in `t`, in order.
pub open spec fn is_subsequence(q: Seq<char>, t: Seq<char>) -> bool {
    exists|idx: Seq<int>| #[trigger] embeds(idx, q, t)
}

proof fn lemma_greedy_monotone(q: Seq<char>, t: Seq<char>, n: nat)
    requires
        0 < n <= t.len(),
    ensures
        greedy(q, t, (n - 1) as nat).0 <= greedy(q, t, n).0 <= greedy(q, t, (n - 1) as nat).0 + 1,
{
}

/// What the greedy matcher matches is really there.
proof fn lemma_greedy_sound(q: Seq<char>, t: Seq<char>, n: nat)
    requires
        n <= t.len(),
    ensures
        exists|idx: Seq<int>|
            #[trigger] embeds(idx, q.take(greedy(q, t, n).0 as int), t) && forall|i: int| 0 <= i < idx.len() ==> idx[i]
                < n,
    decreases n,
{
    lemma_greedy_shape(q, t, n);
    if n == 0 {
        let idx = Seq::<int>::empty();
        assert(embeds(idx, q.take(0), t));
    } else {
        let m = (n - 1) as nat;
        lemma_greedy_sound(q, t, m);
        lemma_greedy_shape(q, t, m);
        let g = greedy(q, t, m);
        let idx = choose|idx: Seq<int>|
            #[trigger] embeds(idx, q.take(g.0 as int), t) && forall|i: int| 0 <= i < idx.len() ==> idx[i] < m;
        if g.0 < q.len() && t[m as int] == q[g.0 as int] {
            let idx2 = idx.push(m as int);
            assert(embeds(idx2, q.take(g.0 as int + 1), t)) by {
                assert forall|i: int| 0 <= i < idx2.len() implies 0 <= #[trigger] idx2[i] < t.len() && t[idx2[i]]
                    == q.take(g.0 as int + 1)[i] by {
                    if i < idx.len() {
                        assert(idx2[i] == idx[i]);
                    }
                }
                assert forall|i: int, j: int| 0 <= i < j < idx2.len() implies #[trigger] idx2[i] < #[trigger] idx2[j] by {
                    if j < idx.len() {
                        assert(idx2[i] == idx[i] && idx2[j] == idx[j]);
                    } else {
                        assert(idx2[i] == idx[i]);
                    }
                }
            }
            assert(forall|i: int| 0 <= i < idx2.len() ==> idx2[i] < n);
        } else {
            assert(embeds(idx, q.take(greedy(q, t, n).0 as int), t));
        }
    }
}

/// Whatever can be matched in the first `n` characters, the greedy matcher matches.
proof fn lemma_greedy_complete(q: Seq<char>, t: Seq<char>, n: nat, k: int, idx: Seq<int>)
    requires
        n <= t.len(),
        0 <= k <= q.len(),
        embeds(idx, q.take(k), t),
        forall|i: int| 0 <= i < idx.len() ==> idx[i] < n,
    ensures
        greedy(q, t, n).0 >= k,
    decreases n,
{
    if k > 0 {
        if n == 0 {
            assert(idx[0] < 0);
        } else {
            let m = (n - 1) as nat;
            lemma_greedy_shape(q, t, m);
            lemma_greedy_monotone(q, t, n);
            if idx[k - 1] < m {
                assert forall|i: int| 0 <= i < idx.len() implies idx[i] < m by {
                    if i < k - 1 {
                        assert(idx[i] < idx[k - 1]);
                    }
                }
                lemma_greedy_complete(q, t, m, k, idx);
            } else {
                let idx2 = idx.take(k - 1);
                assert(embeds(idx2, q.take(k - 1), t)) by {
                    assert forall|i: int| 0 <= i < idx2.len() implies 0 <= #[trigger] idx2[i] < t.len() && t[idx2[i]]
                        == q.take(k - 1)[i] by {
                        assert(idx2[i] == idx[i]);
                        assert(q.take(k - 1)[i] == q.take(k)[i]);
                    }
                    assert forall|i: int, j: int| 0 <= i < j < idx2.len() implies #[trigger] idx2[i] < #[trigger] idx2[j] by {
                        assert(idx2[i] == idx[i] && idx2[j] == idx[j]);
                    }
                }
                assert forall|i: int| 0 <= i < idx2.len() implies idx2[i] < m by {
                    assert(idx2[i] == idx[i]);
                    assert(idx[i] < idx[k - 1]);
                }
                lemma_greedy_complete(q, t, m, k - 1, idx2);
                assert(t[idx[k - 1]] == q.take(k)[k - 1]);
            }
        }
    }
}

/// The fuzzy score exists exactly when every character of the query occurs in
/// the text in order, ignoring ASCII case, and it always lies in `100..=999`.
pub proof fn law_fuzzy_score_is_subsequence_match(query: Seq<char>, text: Seq<char>)
    ensures
        (fuzzy_score(query, text) is Some) == is_subsequence(ascii_lower(query), ascii_lower(text)),
        fuzzy_score(query, text) matches Some(s) ==> 100 <= s <= 999,
{
    let q = ascii_lower(query);
    let t = ascii_lower(text);
    if query.len() == 0 {
        assert(embeds(Seq::<int>::empty(), q, t));
    } else {
        lemma_greedy_shape(q, t, t.len());
        lemma_greedy_sound(q, t, t.len());
        let g = greedy(q, t, t.len());
        if g.0 == q.len() {
            assert(q.take(q.len() as int) =~= q);
        }
        if is_subsequence(q, t) {
            let idx = choose|idx: Seq<int>| #[trigger] embeds(idx, q, t);
            assert(q.take(q.len() as int) =~= q);
            lemma_greedy_complete(q, t, t.len(), q.len() as int, idx);
        }
    }
}

/// Fuzzy matches rank below every direct match: any fuzzy score is lower than
/// any non-zero relevance score.
pub proof fn law_fuzzy_ranks_below_direct_matches(
    query: Seq<char>,
    text: Seq<char>,
    q: Seq<char>,
    name_lower: Seq<char>,
    path_lower: Seq<char>,
)
    requires
        relevance(q, name_lower, path_lower) != 0,
    ensures
        fuzzy_score(query, text) matches Some(s) ==> s < relevance(q, name_lower, path_lower),
{
}

/// The number of bytes of the UTF-8 encoding of `c`.
pub open spec fn utf8_width(c: char) -> nat {
    if (c as u32) < 0x80 {
        1
    } else if (c as u32) < 0x800 {
        2
    } else if (c as u32) < 0x10000 {
        3
    } else {
        4
    }
}

/// The number of bytes of the UTF-8 encoding of `s` (what `str::len` returns).
pub open spec fn utf8_len(s: Seq<char>) -> nat
    decreases s.len(),
{
    if s.len() == 0 {
        0
    } else {
        utf8_len(s.drop_last()) + utf8_width(s.last())
    }
}

/// `str::len`: the length of `s` in bytes, that is of its UTF-8 encoding.
#[verifier::external_body]
pub(crate) fn byte_len(s: &str) -> (n: usize)
    ensures
        n == utf8_len(s@),
{
    s.len()
}

/// A query is a single bare word when, trimmed, it is at least two bytes long,
/// holds no space, `(`, `|` or `:`, and does not start with `!`, `/` or `"`.
pub open spec fn simple_single_word(text: Seq<char>) -> bool {
    let t = trim(text);
    &&& utf8_len(t) >= 2
    &&& !t.contains(' ')
    &&& !t.contains('(')
    &&& !t.contains('|')
    &&& !t.contains(':')
    &&& !(t.len() > 0 && (t[0] == '!' || t[0] == '/' || t[0] == '"'))
}

/// Whether the query text is a single bare word (no operators, no field prefixes).
pub fn is_simple_single_word(text: &str) -> (r: bool)
    ensures
        r == simple_single_word(text@),
{
    let t = str_trim(text);
    if byte_len(t) < 2 {
        return false;
    }
    let cs = chars_of(t);
    let mut i: usize = 0;
    while i < cs.len()
        invariant
            cs@ == trim(text@),
            i <= cs@.len(),
            forall|j: int| 0 <= j < i ==> cs@[j] != ' ' && cs@[j] != '(' && cs@[j] != '|' && cs@[j] != ':',
        decreases cs@.len() - i,
    {
        let c = cs[i];
        if c == ' ' || c == '(' || c == '|' || c == ':' {
            assert(cs@[i as int] == c);
            return false;
        }
        i += 1;
    }
    assert(!cs@.contains(' ') && !cs@.contains('(') && !cs@.contains('|') && !cs@.contains(':'));
    if cs.len() > 0 && (cs[0] == '!' || cs[0] == '/' || cs[0] == '"') {
        return false;
    }
    true
}

/// The age text of the indexer's status line.
pub open spec fn age_text(secs: nat) -> Seq<char> {
    if secs < 60 {
        "just now"@
    } else if secs < 3_600 {
        decimal(secs / 60) + "m ago"@
    } else if secs < 86_400 {
        decimal(secs / 3_600) + "h ago"@
    } else {
        decimal(secs / 86_400) + "d ago"@
    }
}

/// A human-readable age: "just now", then whole minutes, hours or days.
pub fn format_age(secs: u64) -> (s: String)
    ensures
        s@ == age_text(secs as nat),
{
    if secs < 60 {
        return "just now".to_owned();
    }
    let mut s = String::new();
    if secs < 3_600 {
        push_decimal(&mut s, secs / 60);
        push_str(&mut s, "m ago");
    } else if secs < 86_400 {
        push_decimal(&mut s, secs / 3_600);
        push_str(&mut s, "h ago");
    } else {
        push_decimal(&mut s, secs / 86_400);
        push_str(&mut s, "d ago");
    }
    s
}

/// The progress line shown while the index is built: the count of files found,
/// and the root being walked when there is more than one.
pub open spec fn progress_text(root_idx: nat, roots_total: nat, indexed: nat) -> Seq<char> {
    if roots_total <= 1 {
        "Indexing · "@ + decimal(indexed) + " files found"@
    } else {
        "Indexing · root "@ + decimal(root_idx) + "/"@ + decimal(roots_total) + " · "@ + decimal(indexed)
            + " files found"@
    }
}

/// The progress line of the indexer.
pub fn format_progress(root_idx: usize, roots_total: usize, indexed: usize, _root_seen: usize) -> (s: String)
    ensures
        s@ == progress_text(root_idx as nat, roots_total as nat, indexed as nat),
{
    let mut s = String::new();
    if roots_total <= 1 {
        push_str(&mut s, "Indexing · ");
        push_decimal(&mut s, indexed as u64);
        push_str(&mut s, " files found");
    } else {
        push_str(&mut s, "Indexing · root ");
        push_decimal(&mut s, root_idx as u64);
        push_str(&mut s, "/");
        push_decimal(&mut s, roots_total as u64);
        push_str(&mut s, " · ");
        push_decimal(&mut s, indexed as u64);
        push_str(&mut s, " files found");
    }
    s
}

} // verus!

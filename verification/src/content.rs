//! Content search: the terms looked for in file contents, and the snippet shown
//! for a file whose contents matched. Running the external content searcher and
//! reading the files is the caller's.

use vstd::prelude::*;
use crate::model::{SearchResultItem, SearchSort};
use crate::navigation::str_views;
use crate::pipeline::duplicate_item;
use crate::sorting::{sort_results, stable_sort};
use crate::query::{eval_expr, holds, Expr};
use crate::ranking::{byte_len, utf8_len};
use crate::target::{any_is_path, lists_path};
use crate::text::{
    decode_utf8, ascii_lower, chars_of, has_prefix, has_suffix, is_whitespace, is_ws, lemma_words_last,
    lemma_words_nonempty, push_char, seq_contains, str_contains, str_ends_with, str_eq,
    str_starts_with, str_trim, to_ascii_lower, trim, words,
};

verus! {

/// The words of `s`, split at white space.
pub fn split_words(s: &str) -> (r: Vec<String>)
    ensures
        r@.map_values(|w: String| w@) == words(s@),
{
    let cs = chars_of(s);
    let mut out: Vec<String> = Vec::new();
    let mut in_word = false;
    let mut i: usize = 0;
    while i < cs.len()
        invariant
            cs@ == s@,
            i <= cs@.len(),
            out@.map_values(|w: String| w@) == words(cs@.take(i as int)),
            in_word == (i > 0 && !is_ws(cs@[i - 1])),
        decreases cs@.len() - i,
    {
        let c = cs[i];
        let ghost p = cs@.take(i as int);
        let ghost q = cs@.take(i as int + 1);
        assert(q.drop_last() =~= p);
        assert(q.last() == c);
        if is_whitespace(c) {
            in_word = false;
        } else if in_word {
            assert(p.last() == cs@[i - 1]);
            assert(q[q.len() - 2] == cs@[i - 1]);
            proof {
                lemma_words_last(p);
            }
            let ghost w = words(p);
            let mut last = out.pop().unwrap();
            push_char(&mut last, c);
            out.push(last);
            assert(out@.map_values(|w: String| w@) =~= w.update(w.len() - 1, w.last().push(c)));
        } else {
            let ghost w = words(p);
            assert(words(q) == w.push(seq![c])) by {
                if q.len() >= 2 {
                    assert(q[q.len() - 2] == cs@[i - 1]);
                }
            }
            let mut nw = String::new();
            push_char(&mut nw, c);
            out.push(nw);
            assert(out@.map_values(|w: String| w@) =~= w.push(seq![c]));
            in_word = true;
        }
        i += 1;
    }
    assert(cs@.take(cs@.len() as int) =~= cs@);
    out
}

/// The terms of a list of words: each lower-cased, kept when at least two bytes
/// long and not already listed.
pub open spec fn term_list(ws: Seq<Seq<char>>) -> Seq<Seq<char>>
    decreases ws.len(),
{
    if ws.len() == 0 {
        seq![]
    } else {
        let r = term_list(ws.drop_last());
        let t = ascii_lower(ws.last());
        if utf8_len(t) >= 2 && !r.contains(t) {
            r.push(t)
        } else {
            r
        }
    }
}

/// The literal terms of a content query: none for a blank text or a `/regex/`,
/// otherwise the distinct lower-cased words of at least two bytes, in order.
pub open spec fn content_terms_of(pattern: Seq<char>) -> Seq<Seq<char>> {
    let t = trim(pattern);
    if t.len() == 0 || (has_prefix(t, seq!['/']) && has_suffix(t, seq!['/'])) {
        seq![]
    } else {
        term_list(words(t))
    }
}

fn listed(list: &Vec<String>, t: &str) -> (r: bool)
    ensures
        r == list@.map_values(|s: String| s@).contains(t@),
{
    let ghost lv = list@.map_values(|s: String| s@);
    let mut i: usize = 0;
    while i < list.len()
        invariant
            lv == list@.map_values(|s: String| s@),
            i <= list@.len(),
            forall|j: int| 0 <= j < i ==> lv[j] != t@,
        decreases list@.len() - i,
    {
        if str_eq(list[i].as_str(), t) {
            assert(lv[i as int] == t@);
            return true;
        }
        i += 1;
    }
    false
}

/// The literal terms a content search looks for.
pub fn content_terms(pattern: &str) -> (r: Vec<String>)
    ensures
        r@.map_values(|s: String| s@) == content_terms_of(pattern@),
{
    let t = str_trim(pattern);
    proof {
        reveal_strlit("/");
    }
    assert("/"@ =~= seq!['/']);
    if t.is_empty() || (str_starts_with(t, "/") && str_ends_with(t, "/")) {
        let r: Vec<String> = Vec::new();
        assert(r@.map_values(|s: String| s@) =~= Seq::<Seq<char>>::empty());
        return r;
    }
    let ws = split_words(t);
    let ghost wv = ws@.map_values(|w: String| w@);
    let mut out: Vec<String> = Vec::new();
    let mut i: usize = 0;
    while i < ws.len()
        invariant
            wv == ws@.map_values(|w: String| w@),
            wv == words(t@),
            i <= ws@.len(),
            out@.map_values(|s: String| s@) == term_list(wv.take(i as int)),
        decreases ws@.len() - i,
    {
        assert(wv.take(i as int + 1).drop_last() =~= wv.take(i as int));
        assert(wv.take(i as int + 1).last() == ws@[i as int]@);
        let term = to_ascii_lower(ws[i].as_str());
        if byte_len(term.as_str()) >= 2 && !listed(&out, term.as_str()) {
            out.push(term);
            assert(out@.map_values(|s: String| s@) =~= term_list(wv.take(i as int + 1)));
        }
        i += 1;
    }
    assert(wv.take(wv.len() as int) =~= wv);
    out
}

/// The paths of `a`, in order and each once, that `b` also holds.
pub open spec fn common_paths(a: Seq<Seq<char>>, b: Seq<Seq<char>>) -> Seq<Seq<char>>
    decreases a.len(),
{
    if a.len() == 0 {
        seq![]
    } else {
        let r = common_paths(a.drop_last(), b);
        let p = a.last();
        if lists_path(b, p) && !lists_path(r, p) {
            r.push(p)
        } else {
            r
        }
    }
}

/// The paths of `a` in order, each only the first time it occurs.
pub open spec fn common_once(a: Seq<Seq<char>>) -> Seq<Seq<char>>
    decreases a.len(),
{
    if a.len() == 0 {
        seq![]
    } else {
        let r = common_once(a.drop_last());
        if lists_path(r, a.last()) {
            r
        } else {
            r.push(a.last())
        }
    }
}

/// The paths of `a` in order, without repeats.
pub fn distinct_paths(a: &Vec<String>) -> (r: Vec<String>)
    ensures
        r@.map_values(|s: String| s@) == common_once(a@.map_values(|s: String| s@)),
{
    let ghost av = a@.map_values(|s: String| s@);
    let mut out: Vec<String> = Vec::new();
    let mut i: usize = 0;
    while i < a.len()
        invariant
            av == a@.map_values(|s: String| s@),
            i <= a@.len(),
            out@.map_values(|s: String| s@) == common_once(av.take(i as int)),
        decreases a@.len() - i,
    {
        assert(av.take(i as int + 1).drop_last() =~= av.take(i as int));
        assert(av.take(i as int + 1).last() == a@[i as int]@);
        if !any_is_path(&out, a[i].as_str()) {
            out.push(a[i].clone());
            assert(out@.map_values(|s: String| s@) =~= common_once(av.take(i as int + 1)));
        }
        i += 1;
    }
    assert(av.take(av.len() as int) =~= av);
    out
}

/// The files that matched every term so far: those of `a` that `b` also holds.
pub fn intersect_paths(a: &Vec<String>, b: &Vec<String>) -> (r: Vec<String>)
    ensures
        r@.map_values(|s: String| s@) == common_paths(a@.map_values(|s: String| s@), b@.map_values(|s: String| s@)),
{
    let ghost av = a@.map_values(|s: String| s@);
    let ghost bv = b@.map_values(|s: String| s@);
    let mut out: Vec<String> = Vec::new();
    let mut i: usize = 0;
    while i < a.len()
        invariant
            av == a@.map_values(|s: String| s@),
            bv == b@.map_values(|s: String| s@),
            i <= a@.len(),
            out@.map_values(|s: String| s@) == common_paths(av.take(i as int), bv),
        decreases a@.len() - i,
    {
        assert(av.take(i as int + 1).drop_last() =~= av.take(i as int));
        assert(av.take(i as int + 1).last() == a@[i as int]@);
        let p = a[i].as_str();
        if any_is_path(b, p) && !any_is_path(&out, p) {
            out.push(a[i].clone());
            assert(out@.map_values(|s: String| s@) =~= common_paths(av.take(i as int + 1), bv));
        }
        i += 1;
    }
    assert(av.take(av.len() as int) =~= av);
    out
}

/// `s` read line by line: the finished lines and the line in progress. A line
/// ends at `'\n'`, and loses a `'\r'` just before it.
pub open spec fn line_scan(s: Seq<char>) -> (Seq<Seq<char>>, Seq<char>)
    decreases s.len(),
{
    if s.len() == 0 {
        (seq![], seq![])
    } else {
        let st = line_scan(s.drop_last());
        if s.last() == '\n' {
            let line = if st.1.len() > 0 && st.1.last() == '\r' {
                st.1.drop_last()
            } else {
                st.1
            };
            (st.0.push(line), seq![])
        } else {
            (st.0, st.1.push(s.last()))
        }
    }
}

/// The lines of `s` as `str::lines` yields them: the last line needs no line end,
/// and a final line end adds no empty line.
pub open spec fn lines_of(s: Seq<char>) -> Seq<Seq<char>> {
    let st = line_scan(s);
    if st.1.len() > 0 {
        st.0.push(st.1)
    } else {
        st.0
    }
}

/// The lines of `s`.
pub fn split_lines(s: &str) -> (r: Vec<String>)
    ensures
        r@.map_values(|l: String| l@) == lines_of(s@),
{
    let cs = chars_of(s);
    let mut out: Vec<String> = Vec::new();
    let mut cur: Vec<char> = Vec::new();
    let mut i: usize = 0;
    while i < cs.len()
        invariant
            cs@ == s@,
            i <= cs@.len(),
            out@.map_values(|l: String| l@) == line_scan(cs@.take(i as int)).0,
            cur@ == line_scan(cs@.take(i as int)).1,
        decreases cs@.len() - i,
    {
        let c = cs[i];
        assert(cs@.take(i as int + 1).drop_last() =~= cs@.take(i as int));
        assert(cs@.take(i as int + 1).last() == c);
        if c == '\n' {
            let mut end = cur.len();
            if end > 0 && cur[end - 1] == '\r' {
                end = end - 1;
            }
            let mut line = String::new();
            let mut k: usize = 0;
            while k < end
                invariant
                    k <= end <= cur@.len(),
                    line@ == cur@.subrange(0, k as int),
                decreases end - k,
            {
                push_char(&mut line, cur[k]);
                assert(line@ =~= cur@.subrange(0, k as int + 1));
                k += 1;
            }
            proof {
                if end < cur@.len() {
                    assert(cur@.subrange(0, end as int) =~= cur@.drop_last());
                } else {
                    assert(cur@.subrange(0, end as int) =~= cur@);
                }
            }
            out.push(line);
            cur = Vec::new();
            assert(out@.map_values(|l: String| l@) =~= line_scan(cs@.take(i as int + 1)).0);
        } else {
            cur.push(c);
        }
        i += 1;
    }
    assert(cs@.take(cs@.len() as int) =~= cs@);
    if cur.len() > 0 {
        let mut line = String::new();
        let mut k: usize = 0;
        while k < cur.len()
            invariant
                k <= cur@.len(),
                line@ == cur@.subrange(0, k as int),
            decreases cur@.len() - k,
        {
            push_char(&mut line, cur[k]);
            assert(line@ =~= cur@.subrange(0, k as int + 1));
            k += 1;
        }
        assert(cur@.subrange(0, cur@.len() as int) =~= cur@);
        out.push(line);
        assert(out@.map_values(|l: String| l@) =~= lines_of(s@));
    }
    out
}

/// The line, lower-cased, contains every term.
pub open spec fn has_all_terms(line: Seq<char>, terms: Seq<Seq<char>>) -> bool {
    forall|k: int| 0 <= k < terms.len() ==> seq_contains(ascii_lower(line), #[trigger] terms[k])
}

/// The line, lower-cased, contains some term.
pub open spec fn has_some_term(line: Seq<char>, terms: Seq<Seq<char>>) -> bool {
    exists|k: int| 0 <= k < terms.len() && seq_contains(ascii_lower(line), #[trigger] terms[k])
}

/// Which kind of line a snippet is looked for in.
pub open spec fn line_fits(line: Seq<char>, terms: Seq<Seq<char>>, kind: int) -> bool {
    if kind == 0 {
        has_all_terms(line, terms)
    } else if kind == 1 {
        has_some_term(line, terms)
    } else {
        trim(line).len() > 0
    }
}

/// The first line of `lines` of the given kind.
pub open spec fn first_fit(lines: Seq<Seq<char>>, terms: Seq<Seq<char>>, kind: int) -> Option<Seq<char>>
    decreases lines.len(),
{
    if lines.len() == 0 {
        None
    } else if line_fits(lines[0], terms, kind) {
        Some(lines[0])
    } else {
        first_fit(lines.drop_first(), terms, kind)
    }
}

/// The snippet for contents that matched: the first line holding all terms, else
/// the first holding some term, else the first non-blank line, trimmed.
pub open spec fn snippet_of(content: Seq<char>, terms: Seq<Seq<char>>) -> Option<Seq<char>> {
    let ls = lines_of(content);
    match first_fit(ls, terms, 0) {
        Some(l) => Some(trim(l)),
        None => match first_fit(ls, terms, 1) {
            Some(l) => Some(trim(l)),
            None => match first_fit(ls, terms, 2) {
                Some(l) => Some(trim(l)),
                None => None,
            },
        },
    }
}

fn fits(line: &str, terms: &Vec<String>, kind: u8) -> (r: bool)
    requires
        kind <= 2,
    ensures
        r == line_fits(line@, terms@.map_values(|s: String| s@), kind as int),
{
    let ghost tv = terms@.map_values(|s: String| s@);
    if kind == 2 {
        return !str_trim(line).is_empty();
    }
    let lower = to_ascii_lower(line);
    let mut i: usize = 0;
    while i < terms.len()
        invariant
            tv == terms@.map_values(|s: String| s@),
            lower@ == ascii_lower(line@),
            kind <= 1,
            i <= terms@.len(),
            kind == 0 ==> forall|k: int| 0 <= k < i ==> seq_contains(lower@, #[trigger] tv[k]),
            kind == 1 ==> forall|k: int| 0 <= k < i ==> !seq_contains(lower@, #[trigger] tv[k]),
        decreases terms@.len() - i,
    {
        let found = str_contains(lower.as_str(), terms[i].as_str());
        assert(tv[i as int] == terms@[i as int]@);
        if kind == 0 && !found {
            return false;
        }
        if kind == 1 && found {
            return true;
        }
        i += 1;
    }
    kind == 0
}

fn first_fitting(lines: &Vec<String>, terms: &Vec<String>, kind: u8) -> (r: Option<usize>)
    requires
        kind <= 2,
    ensures
        match r {
            Some(i) => i < lines@.len() && first_fit(lines@.map_values(|l: String| l@), terms@.map_values(|s: String| s@), kind as int)
                == Some(lines@[i as int]@),
            None => first_fit(lines@.map_values(|l: String| l@), terms@.map_values(|s: String| s@), kind as int) is None,
        },
{
    let ghost lv = lines@.map_values(|l: String| l@);
    let ghost tv = terms@.map_values(|s: String| s@);
    let mut i: usize = 0;
    assert(lv.skip(0) =~= lv);
    while i < lines.len()
        invariant
            lv == lines@.map_values(|l: String| l@),
            tv == terms@.map_values(|s: String| s@),
            kind <= 2,
            i <= lines@.len(),
            first_fit(lv, tv, kind as int) == first_fit(lv.skip(i as int), tv, kind as int),
        decreases lines@.len() - i,
    {
        assert(lv.skip(i as int)[0] == lines@[i as int]@);
        if fits(lines[i].as_str(), terms, kind) {
            return Some(i);
        }
        assert(lv.skip(i as int).drop_first() =~= lv.skip(i as int + 1));
        i += 1;
    }
    None
}

/// The snippet shown for contents that matched the terms.
pub fn pick_snippet(content: &str, terms: &Vec<String>) -> (r: Option<String>)
    ensures
        match r {
            Some(s) => snippet_of(content@, terms@.map_values(|t: String| t@)) == Some(s@),
            None => snippet_of(content@, terms@.map_values(|t: String| t@)) is None,
        },
{
    let lines = split_lines(content);
    let ghost ls = lines_of(content@);
    let ghost tv = terms@.map_values(|t: String| t@);
    let mut kind: u8 = 0;
    while kind < 3
        invariant
            kind <= 3,
            lines@.map_values(|l: String| l@) == ls,
            ls == lines_of(content@),
            tv == terms@.map_values(|t: String| t@),
            forall|k: int| 0 <= k < kind ==> (#[trigger] first_fit(ls, tv, k)) is None,
        decreases 3 - kind,
    {
        match first_fitting(&lines, terms, kind) {
            Some(i) => {
                return Some(str_trim(lines[i].as_str()).to_owned());
            },
            None => {},
        }
        kind += 1;
    }
    None
}

/// A file found by content search, with its contents: none when the contents do
/// not let the entry satisfy the expression; otherwise the entry with its snippet.
pub open spec fn content_hit_of(
    expr: Expr,
    item: SearchResultItem,
    content: Seq<char>,
    terms: Seq<Seq<char>>,
    r: Option<SearchResultItem>,
) -> bool {
    match r {
        None => exists|x: SearchResultItem| #[trigger] carries(x, item, content) && !holds(expr@, x),
        Some(hit) => {
            &&& same_but_snippet(hit, item)
            &&& (exists|x: SearchResultItem| #[trigger] carries(x, item, content) && holds(expr@, x))
            &&& match hit.content_snippet {
                Some(s) => snippet_of(content, terms) == Some(s@),
                None => snippet_of(content, terms) is None,
            }
        },
    }
}

/// `x` is the entry `item` with the whole `content` as its snippet.
pub open spec fn carries(x: SearchResultItem, item: SearchResultItem, content: Seq<char>) -> bool {
    same_but_snippet(x, item) && (x.content_snippet matches Some(c) && c@ == content)
}

/// The two entries agree in everything but the content snippet.
pub open spec fn same_but_snippet(a: SearchResultItem, b: SearchResultItem) -> bool {
    &&& a.path == b.path
    &&& a.parent_path == b.parent_path
    &&& a.name == b.name
    &&& a.kind == b.kind
    &&& a.is_executable == b.is_executable
    &&& a.symlink_target_is_dir == b.symlink_target_is_dir
    &&& a.size_bytes == b.size_bytes
    &&& a.modified_unix_secs == b.modified_unix_secs
    &&& a.name_lower == b.name_lower
    &&& a.path_str == b.path_str
    &&& a.path_lower == b.path_lower
}

/// Check a content match against the expression and give it its snippet.
pub fn content_hit(expr: &Expr, item: SearchResultItem, content: String, terms: &Vec<String>) -> (r: Option<
    SearchResultItem,
>)
    ensures
        content_hit_of(*expr, item, content@, terms@.map_values(|t: String| t@), r),
{
    let mut hit = item;
    let snippet = pick_snippet(content.as_str(), terms);
    hit.content_snippet = Some(content);
    assert(carries(hit, item, content@));
    if !eval_expr(expr, &hit) {
        return None;
    }
    hit.content_snippet = snippet;
    Some(hit)
}

/// The content terms are distinct, and each is at least two bytes long.
pub proof fn law_content_terms_distinct_and_long(pattern: Seq<char>)
    ensures
        forall|i: int, j: int|
            0 <= i < j < content_terms_of(pattern).len() ==> #[trigger] content_terms_of(pattern)[i]
                != #[trigger] content_terms_of(pattern)[j],
        forall|i: int| 0 <= i < content_terms_of(pattern).len() ==> utf8_len(#[trigger] content_terms_of(pattern)[i]) >= 2,
{
    let t = trim(pattern);
    if !(t.len() == 0 || (has_prefix(t, seq!['/']) && has_suffix(t, seq!['/']))) {
        lemma_term_list(words(t));
    }
}

proof fn lemma_term_list(ws: Seq<Seq<char>>)
    ensures
        forall|i: int, j: int| 0 <= i < j < term_list(ws).len() ==> #[trigger] term_list(ws)[i] != #[trigger] term_list(ws)[j],
        forall|i: int| 0 <= i < term_list(ws).len() ==> utf8_len(#[trigger] term_list(ws)[i]) >= 2,
    decreases ws.len(),
{
    if ws.len() > 0 {
        lemma_term_list(ws.drop_last());
        let r = term_list(ws.drop_last());
        let t = ascii_lower(ws.last());
        if utf8_len(t) >= 2 && !r.contains(t) {
            let r2 = r.push(t);
            assert forall|i: int, j: int| 0 <= i < j < r2.len() implies #[trigger] r2[i] != #[trigger] r2[j] by {
                if j == r.len() {
                    assert(r2[i] == r[i]);
                    if r[i] == t {
                        assert(r.contains(t));
                    }
                } else {
                    assert(r2[i] == r[i] && r2[j] == r[j]);
                }
            }
            assert forall|i: int| 0 <= i < r2.len() implies utf8_len(#[trigger] r2[i]) >= 2 by {
                if i < r.len() {
                    assert(r2[i] == r[i]);
                }
            }
        }
    }
}

// ── Running the content searcher ────────────────────────────────────────────

/// The command-line arguments that ask the content searcher (`rg`) for the
/// files under `roots` that contain `term`, ignoring case.
pub open spec fn search_args_of(term: Seq<char>, include_hidden: bool, roots: Seq<Seq<char>>) -> Seq<Seq<char>> {
    seq!["--files-with-matches"@, "--fixed-strings"@, "--ignore-case"@, "--max-count=1"@]
        + (if include_hidden { seq!["--hidden"@] } else { seq![] })
        + seq!["-e"@, term, "--"@]
        + roots
}

/// The arguments for searching the contents of the files under `roots` for `term`.
pub fn content_search_args(term: &str, include_hidden: bool, roots: &Vec<String>) -> (r: Vec<String>)
    ensures
        str_views(r@) == search_args_of(term@, include_hidden, str_views(roots@)),
{
    let mut r: Vec<String> = Vec::new();
    r.push("--files-with-matches".to_owned());
    r.push("--fixed-strings".to_owned());
    r.push("--ignore-case".to_owned());
    r.push("--max-count=1".to_owned());
    if include_hidden {
        r.push("--hidden".to_owned());
    }
    r.push("-e".to_owned());
    r.push(term.to_owned());
    r.push("--".to_owned());
    let ghost head = str_views(r@);
    let mut i: usize = 0;
    while i < roots.len()
        invariant
            i <= roots@.len(),
            str_views(r@) == head + str_views(roots@).take(i as int),
        decreases roots@.len() - i,
    {
        let c = roots[i].clone();
        assert(c@ == str_views(roots@)[i as int]);
        let ghost before = r@;
        r.push(c);
        assert(str_views(r@) =~= str_views(before).push(c@));
        assert(str_views(roots@).take(i as int + 1) =~= str_views(roots@).take(i as int).push(c@));
        assert(str_views(r@) =~= head + str_views(roots@).take(i as int + 1));
        i += 1;
    }
    assert(str_views(roots@).take(roots@.len() as int) =~= str_views(roots@));
    assert(str_views(r@) =~= search_args_of(term@, include_hidden, str_views(roots@)));
    r
}

/// The non-empty lines of `s`.
pub open spec fn nonempty_lines(s: Seq<char>) -> Seq<Seq<char>> {
    lines_of(s).filter(|l: Seq<char>| l.len() > 0)
}

/// The files that a run of the content searcher listed: none at all (`None`) when
/// the run failed without output; otherwise the non-empty lines of its output,
/// or no files when the output is not UTF-8 text.
pub fn listed_paths(exit_ok: bool, stdout: &[u8]) -> (r: Option<Vec<String>>)
    ensures
        !exit_ok && stdout@.len() == 0 ==> r is None,
        exit_ok || stdout@.len() > 0 ==> (r matches Some(v) && ({
            &&& (forall|cs: Seq<char>| vstd::utf8::encode_utf8(cs) != stdout@) ==> v@.len() == 0
            &&& forall|cs: Seq<char>| vstd::utf8::encode_utf8(cs) == stdout@ ==> str_views(v@) == nonempty_lines(cs)
        })),
{
    if !exit_ok && stdout.len() == 0 {
        return None;
    }
    match decode_utf8(stdout) {
        None => Some(Vec::new()),
        Some(text) => {
            let lines = split_lines(text.as_str());
            let ghost lv = str_views(lines@);
            let mut out: Vec<String> = Vec::new();
            let mut i: usize = 0;
            while i < lines.len()
                invariant
                    i <= lines@.len(),
                    lv == str_views(lines@),
                    str_views(out@) == lv.take(i as int).filter(|l: Seq<char>| l.len() > 0),
                decreases lines@.len() - i,
            {
                assert(lv.take(i as int + 1).drop_last() =~= lv.take(i as int));
                reveal_with_fuel(Seq::filter, 1);
                if !lines[i].as_str().is_empty() {
                    out.push(lines[i].clone());
                    assert(str_views(out@) =~= lv.take(i as int + 1).filter(|l: Seq<char>| l.len() > 0));
                } else {
                    assert(lv.take(i as int + 1).last().len() == 0);
                }
                i += 1;
            }
            assert(lv.take(lv.len() as int) =~= lv);
            assert forall|cs: Seq<char>| vstd::utf8::encode_utf8(cs) == stdout@ implies str_views(out@)
                == nonempty_lines(cs) by {
                vstd::utf8::encode_utf8_decode_utf8(cs);
                vstd::utf8::encode_utf8_decode_utf8(text@);
            }
            Some(out)
        },
    }
}

/// The content hits in path order, at most `limit` of them.
pub open spec fn content_page_of(hits: Seq<SearchResultItem>, limit: usize) -> Seq<SearchResultItem> {
    let scored = hits.map_values(|i: SearchResultItem| (0i64, i));
    let items = stable_sort(scored, SearchSort::Path).map_values(|h: (i64, SearchResultItem)| h.1);
    if items.len() > limit {
        items.take(limit as int)
    } else {
        items
    }
}

/// Put the content hits in path order and keep at most `limit` of them.
pub fn content_page(hits: &Vec<SearchResultItem>, limit: usize) -> (r: Vec<SearchResultItem>)
    ensures
        r@ == content_page_of(hits@, limit),
{
    let mut scored: Vec<(i64, SearchResultItem)> = Vec::new();
    let mut i: usize = 0;
    while i < hits.len()
        invariant
            i <= hits@.len(),
            scored@ == hits@.take(i as int).map_values(|it: SearchResultItem| (0i64, it)),
        decreases hits@.len() - i,
    {
        scored.push((0, duplicate_item(&hits[i])));
        assert(scored@ =~= hits@.take(i as int + 1).map_values(|it: SearchResultItem| (0i64, it)));
        i += 1;
    }
    assert(hits@.take(hits@.len() as int) =~= hits@);
    sort_results(&mut scored, SearchSort::Path);
    let ghost items = scored@.map_values(|h: (i64, SearchResultItem)| h.1);
    let mut out: Vec<SearchResultItem> = Vec::new();
    let mut k: usize = 0;
    while k < scored.len() && k < limit
        invariant
            k <= scored@.len(),
            k <= limit,
            items == scored@.map_values(|h: (i64, SearchResultItem)| h.1),
            out@ == items.take(k as int),
        decreases scored@.len() - k,
    {
        out.push(duplicate_item(&scored[k].1));
        assert(out@ =~= items.take(k as int + 1));
        k += 1;
    }
    proof {
        if items.len() <= limit {
            assert(items.take(items.len() as int) =~= items);
        }
    }
    out
}

} // verus!

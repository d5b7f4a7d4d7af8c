use vstd::prelude::*;

verus! {

/// ASCII lower-casing of one character: `A`..=`Z` map to `a`..=`z`, all else is unchanged.
pub open spec fn lower_char(c: char) -> char {
    if 'A' <= c && c <= 'Z' {
        ((c as u32) + 32) as char
    } else {
        c
    }
}

/// ASCII upper-casing of one character: `a`..=`z` map to `A`..=`Z`, all else is unchanged.
pub open spec fn upper_char(c: char) -> char {
    if 'a' <= c && c <= 'z' {
        ((c as u32) - 32) as char
    } else {
        c
    }
}

/// ASCII upper-casing of a character sequence.
pub open spec fn ascii_upper(s: Seq<char>) -> Seq<char> {
    s.map_values(|c: char| upper_char(c))
}

/// ASCII lower-casing of a character sequence.
pub open spec fn ascii_lower(s: Seq<char>) -> Seq<char> {
    s.map_values(|c: char| lower_char(c))
}

/// The characters of `s`, collected into a vector.
pub fn chars_of(s: &str) -> (v: Vec<char>)
    ensures
        v@ == s@,
{
    let mut v: Vec<char> = Vec::new();
    for c in it: s.chars()
        invariant
            v@ == it.seq().take(it.index() as int),
            it.seq() == s@,
    {
        v.push(c);
    }
    assert(v@ =~= s@);
    v
}

} // verus!

verus! {

/// `true` when `x` equals one of the strings of `list`.
pub open spec fn in_list(x: Seq<char>, list: Seq<&str>) -> bool {
    exists|i: int| 0 <= i < list.len() && list[i]@ == x
}

#[verifier::external_body]
pub(crate) fn str_eq(a: &str, b: &str) -> (r: bool)
    ensures
        r == (a@ == b@),
{
    a == b
}

/// Whether `x` equals one of the strings of `list`.
pub fn list_has(x: &str, list: &[&str]) -> (r: bool)
    ensures
        r == in_list(x@, list@),
{
    let mut i: usize = 0;
    while i < list.len()
        invariant
            i <= list@.len(),
            forall|j: int| 0 <= j < i ==> list@[j]@ != x@,
        decreases list@.len() - i,
    {
        if str_eq(list[i], x) {
            return true;
        }
        i += 1;
    }
    false
}

} // verus!

verus! {

/// `needle` occurs as a contiguous run inside `hay`.
pub open spec fn seq_contains(hay: Seq<char>, needle: Seq<char>) -> bool {
    exists|i: int| 0 <= i <= hay.len() - needle.len() && #[trigger] hay.subrange(i, i + needle.len()) == needle
}

/// `p` is a prefix of `s`.
pub open spec fn has_prefix(s: Seq<char>, p: Seq<char>) -> bool {
    p.len() <= s.len() && s.subrange(0, p.len() as int) == p
}

/// `p` is a suffix of `s`.
pub open spec fn has_suffix(s: Seq<char>, p: Seq<char>) -> bool {
    p.len() <= s.len() && s.subrange(s.len() - p.len(), s.len() as int) == p
}

/// The characters with the Unicode `White_Space` property, which is what
/// `char::is_whitespace` tests.
pub open spec fn is_ws(c: char) -> bool {
    ||| ('\u{9}' <= c && c <= '\u{d}')
    ||| c == ' '
    ||| c == '\u{85}'
    ||| c == '\u{a0}'
    ||| c == '\u{1680}'
    ||| ('\u{2000}' <= c && c <= '\u{200a}')
    ||| c == '\u{2028}'
    ||| c == '\u{2029}'
    ||| c == '\u{202f}'
    ||| c == '\u{205f}'
    ||| c == '\u{3000}'
}

/// `s` without its leading white space.
pub open spec fn trim_start(s: Seq<char>) -> Seq<char>
    decreases s.len(),
{
    if s.len() > 0 && is_ws(s[0]) {
        trim_start(s.drop_first())
    } else {
        s
    }
}

/// `s` without its trailing white space.
pub open spec fn trim_end(s: Seq<char>) -> Seq<char>
    decreases s.len(),
{
    if s.len() > 0 && is_ws(s.last()) {
        trim_end(s.drop_last())
    } else {
        s
    }
}

/// `s` without leading and trailing white space.
pub open spec fn trim(s: Seq<char>) -> Seq<char> {
    trim_end(trim_start(s))
}

/// `str::to_ascii_lowercase`: ASCII letters `A`..=`Z` become `a`..=`z`, every other
/// character is copied unchanged.
#[verifier::external_body]
pub(crate) fn to_ascii_lower(s: &str) -> (r: String)
    ensures
        r@ == ascii_lower(s@),
{
    s.to_ascii_lowercase()
}

/// `str::to_ascii_uppercase`: ASCII letters `a`..=`z` become `A`..=`Z`, every other
/// character is copied unchanged.
#[verifier::external_body]
pub(crate) fn to_ascii_upper(s: &str) -> (r: String)
    ensures
        r@ == ascii_upper(s@),
{
    s.to_ascii_uppercase()
}

/// `str::contains` with a string pattern: whether `needle` occurs in `hay`.
#[verifier::external_body]
pub(crate) fn str_contains(hay: &str, needle: &str) -> (r: bool)
    ensures
        r == seq_contains(hay@, needle@),
{
    hay.contains(needle)
}

/// `str::starts_with` with a string pattern.
#[verifier::external_body]
pub(crate) fn str_starts_with(s: &str, p: &str) -> (r: bool)
    ensures
        r == has_prefix(s@, p@),
{
    s.starts_with(p)
}

/// `str::ends_with` with a string pattern.
#[verifier::external_body]
pub(crate) fn str_ends_with(s: &str, p: &str) -> (r: bool)
    ensures
        r == has_suffix(s@, p@),
{
    s.ends_with(p)
}

/// `str::trim`: the slice without leading and trailing white space.
#[verifier::external_body]
pub(crate) fn str_trim(s: &str) -> (r: &str)
    ensures
        r@ == trim(s@),
{
    s.trim()
}

/// `str::trim_end`: the slice without trailing white space.
#[verifier::external_body]
pub(crate) fn str_trim_end(s: &str) -> (r: &str)
    ensures
        r@ == trim_end(s@),
{
    s.trim_end()
}

/// `String::push`: appends one character.
#[verifier::external_body]
pub(crate) fn push_char(s: &mut String, c: char)
    ensures
        final(s)@ == old(s)@.push(c),
{
    s.push(c)
}

/// The decimal digits of `n`, most significant first, without leading zeros
/// (`"0"` for zero).
pub open spec fn decimal(n: nat) -> Seq<char>
    decreases n,
{
    if n < 10 {
        seq![digit_char(n)]
    } else {
        decimal(n / 10).push(digit_char(n % 10))
    }
}

pub open spec fn digit_char(d: nat) -> char {
    (('0' as nat) + d) as char
}

/// Appends the decimal digits of `n` to `out`.
pub fn push_decimal(out: &mut String, n: u64)
    ensures
        final(out)@ == old(out)@ + decimal(n as nat),
    decreases n,
{
    if n >= 10 {
        push_decimal(out, n / 10);
    }
    let d = (n % 10) as u32;
    let c = char_from_digit(d);
    push_char(out, c);
    assert(old(out)@ + decimal(n as nat) =~= final(out)@) by {
        if n >= 10 {
            assert(decimal(n as nat) == decimal((n / 10) as nat).push(digit_char((n % 10) as nat)));
        }
    }
}

fn char_from_digit(d: u32) -> (c: char)
    requires
        d < 10,
    ensures
        c == digit_char(d as nat),
{
    if d == 0 { '0' }
    else if d == 1 { '1' }
    else if d == 2 { '2' }
    else if d == 3 { '3' }
    else if d == 4 { '4' }
    else if d == 5 { '5' }
    else if d == 6 { '6' }
    else if d == 7 { '7' }
    else if d == 8 { '8' }
    else { '9' }
}

/// Appends the characters of `t` to `out`.
pub fn push_str(out: &mut String, t: &str)
    ensures
        final(out)@ == old(out)@ + t@,
{
    out.append(t);
}

} // verus!

verus! {

/// `str::eq_ignore_ascii_case`: the two strings are equal once ASCII letters are
/// lower-cased.
#[verifier::external_body]
pub(crate) fn eq_ignore_ascii_case(a: &str, b: &str) -> (r: bool)
    ensures
        r == (ascii_lower(a@) == ascii_lower(b@)),
{
    a.eq_ignore_ascii_case(b)
}

/// Whether `c` has the Unicode `White_Space` property.
pub fn is_whitespace(c: char) -> (r: bool)
    ensures
        r == is_ws(c),
{
    ('\u{9}' <= c && c <= '\u{d}') || c == ' ' || c == '\u{85}' || c == '\u{a0}' || c == '\u{1680}'
        || ('\u{2000}' <= c && c <= '\u{200a}') || c == '\u{2028}' || c == '\u{2029}' || c == '\u{202f}'
        || c == '\u{205f}' || c == '\u{3000}'
}

/// The maximal runs of non-white-space characters of `s`, in order.
pub open spec fn words(s: Seq<char>) -> Seq<Seq<char>>
    decreases s.len(),
{
    if s.len() == 0 {
        seq![]
    } else if is_ws(s.last()) {
        words(s.drop_last())
    } else if s.len() >= 2 && !is_ws(s[s.len() - 2]) {
        let w = words(s.drop_last());
        w.update(w.len() - 1, w.last().push(s.last()))
    } else {
        words(s.drop_last()).push(seq![s.last()])
    }
}

/// The pieces of `ws` with `sep` between each two neighbours.
pub open spec fn join(ws: Seq<Seq<char>>, sep: Seq<char>) -> Seq<char>
    decreases ws.len(),
{
    if ws.len() == 0 {
        seq![]
    } else if ws.len() == 1 {
        ws[0]
    } else {
        join(ws.drop_last(), sep) + sep + ws.last()
    }
}

/// A string ending in a non-white-space character has at least one word, and
/// that character ends its last word.
pub proof fn lemma_words_last(s: Seq<char>)
    requires
        s.len() > 0,
        !is_ws(s.last()),
    ensures
        words(s).len() > 0,
    decreases s.len(),
{
    if s.len() >= 2 && !is_ws(s[s.len() - 2]) {
        let p = s.drop_last();
        assert(p.last() == s[s.len() - 2]);
        lemma_words_last(p);
    }
}

/// Joining is non-empty exactly when there is a word, as words are never empty.
pub proof fn lemma_join_nonempty(ws: Seq<Seq<char>>, sep: Seq<char>)
    requires
        forall|i: int| 0 <= i < ws.len() ==> (#[trigger] ws[i]).len() > 0,
    ensures
        (join(ws, sep).len() > 0) == (ws.len() > 0),
    decreases ws.len(),
{
    if ws.len() > 1 {
        lemma_join_nonempty(ws.drop_last(), sep);
    }
}

/// Every word is non-empty.
pub proof fn lemma_words_nonempty(s: Seq<char>)
    ensures
        forall|i: int| 0 <= i < words(s).len() ==> (#[trigger] words(s)[i]).len() > 0,
    decreases s.len(),
{
    if s.len() > 0 {
        lemma_words_nonempty(s.drop_last());
        if !is_ws(s.last()) && s.len() >= 2 && !is_ws(s[s.len() - 2]) {
            let p = s.drop_last();
            assert(p.last() == s[s.len() - 2]);
            lemma_words_last(p);
        }
    }
}

/// The words of `s` joined by single spaces: `s` with white space trimmed and each
/// inner run of white space collapsed to one space.
pub fn collapse_whitespace(s: &str) -> (r: String)
    ensures
        r@ == join(words(s@), seq![' ']),
{
    let cs = crate::text::chars_of(s);
    let mut out = String::new();
    let mut in_word = false;
    let mut i: usize = 0;
    while i < cs.len()
        invariant
            cs@ == s@,
            i <= cs@.len(),
            out@ == join(words(cs@.take(i as int)), seq![' ']),
            in_word == (i > 0 && !is_ws(cs@[i - 1])),
            (out@.len() > 0) == (words(cs@.take(i as int)).len() > 0),
        decreases cs@.len() - i,
    {
        let c = cs[i];
        let ghost p = cs@.take(i as int);
        let ghost q = cs@.take(i as int + 1);
        assert(q.drop_last() =~= p);
        assert(q.last() == c);
        proof {
            lemma_words_nonempty(p);
            lemma_words_nonempty(q);
        }
        if is_whitespace(c) {
            in_word = false;
        } else if in_word {
            assert(p.last() == cs@[i - 1]);
            assert(q[q.len() - 2] == cs@[i - 1]);
            proof {
                lemma_words_last(p);
            }
            let ghost w = words(p);
            let ghost w2 = w.update(w.len() - 1, w.last().push(c));
            assert(words(q) == w2);
            push_char(&mut out, c);
            assert(join(w2, seq![' ']) =~= join(w, seq![' ']).push(c)) by {
                if w.len() >= 2 {
                    assert(w2.drop_last() =~= w.drop_last());
                }
            }
        } else {
            let ghost w = words(p);
            assert(words(q) == w.push(seq![c])) by {
                if q.len() >= 2 {
                    assert(q[q.len() - 2] == cs@[i - 1]);
                }
            }
            assert(w.push(seq![c]).drop_last() =~= w);
            if !out.as_str().is_empty() {
                push_char(&mut out, ' ');
            }
            push_char(&mut out, c);
            assert(out@ =~= join(w.push(seq![c]), seq![' ']));
            in_word = true;
        }
        i += 1;
    }
    assert(cs@.take(cs@.len() as int) =~= cs@);
    out
}

/// `str::from_utf8` on the bytes, copied into a string: the text whose UTF-8
/// encoding they are, or none when they are not valid UTF-8.
#[verifier::external_body]
pub(crate) fn decode_utf8(bytes: &[u8]) -> (r: Option<String>)
    ensures
        match r {
            Some(s) => vstd::utf8::encode_utf8(s@) == bytes@,
            None => forall|cs: Seq<char>| vstd::utf8::encode_utf8(cs) != bytes@,
        },
{
    std::str::from_utf8(bytes).ok().map(|s| s.to_owned())
}

/// The strings of `lines` joined by line ends.
pub fn join_lines(lines: &Vec<String>) -> (r: String)
    ensures
        r@ == join(crate::navigation::str_views(lines@), seq!['\n']),
{
    let ghost lv = crate::navigation::str_views(lines@);
    let mut out = String::new();
    let mut i: usize = 0;
    while i < lines.len()
        invariant
            i <= lines@.len(),
            lv == crate::navigation::str_views(lines@),
            out@ == join(lv.take(i as int), seq!['\n']),
        decreases lines@.len() - i,
    {
        assert(lv.take(i as int + 1).drop_last() =~= lv.take(i as int));
        assert(lv.take(i as int + 1).last() == lines@[i as int]@);
        if i > 0 {
            push_char(&mut out, '\n');
        }
        push_str(&mut out, lines[i].as_str());
        proof {
            if i == 0 {
                assert(out@ =~= lv.take(1)[0]);
            } else {
                assert(out@ =~= join(lv.take(i as int), seq!['\n']) + seq!['\n'] + lv.take(i as int + 1).last());
            }
        }
        i += 1;
    }
    assert(lv.take(lv.len() as int) =~= lv);
    out
}

} // verus!

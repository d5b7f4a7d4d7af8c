//! The search query language: words, quoted phrases, `/regex/` literals,
//! `field:value` terms, `!` negation, `|` alternation and parentheses.

use vstd::prelude::*;
use crate::matchers::{compile_regex, regex_build_error, regex_finds, regex_is_match, CompiledRegex};
use crate::model::{EntryKind, SearchResultItem};
use crate::paths::{extension_of, path_extension};
use crate::text::{
    ascii_lower, chars_of, eq_ignore_ascii_case, is_whitespace, is_ws, push_char, push_str, seq_contains,
    str_contains, str_eq, to_ascii_lower,
};

verus! {

/// A search error; its text is `"search parser error: "` followed by the message.
#[derive(Debug, Clone, PartialEq, Eq)]
pub enum SearchError {
    Parse(String),
}

impl SearchError {
    /// The text shown for this error.
    pub fn message(&self) -> (s: String)
        ensures
            s@ == "search parser error: "@ + match self {
                SearchError::Parse(m) => m@,
            },
    {
        match self {
            SearchError::Parse(m) => {
                let mut s = "search parser error: ".to_owned();
                crate::text::push_str(&mut s, m.as_str());
                s
            },
        }
    }
}

#[derive(Debug, Clone, PartialEq, Eq)]
pub enum Tok {
    LParen,
    RParen,
    Or,
    Not,
    Word(String),
}

/// The abstract value of a token.
pub enum TokV {
    LParen,
    RParen,
    Or,
    Not,
    Word(Seq<char>),
}

impl View for Tok {
    type V = TokV;

    open spec fn view(&self) -> TokV {
        match self {
            Tok::LParen => TokV::LParen,
            Tok::RParen => TokV::RParen,
            Tok::Or => TokV::Or,
            Tok::Not => TokV::Not,
            Tok::Word(w) => TokV::Word(w@),
        }
    }
}

pub open spec fn tok_views(v: Seq<Tok>) -> Seq<TokV> {
    v.map_values(|t: Tok| t@)
}

/// A character that ends a bare word.
pub open spec fn ends_word(c: char) -> bool {
    is_ws(c) || c == '(' || c == ')' || c == '|' || c == '!'
}

/// The first position from `i` on that holds `c`, or the length.
pub open spec fn find_from(cs: Seq<char>, i: int, c: char) -> int
    decreases cs.len() - i,
{
    if i >= cs.len() {
        cs.len() as int
    } else if cs[i] == c {
        i
    } else {
        find_from(cs, i + 1, c)
    }
}

/// The end of a bare word starting at `i`: the first position from `i` on that ends a word.
pub open spec fn word_end(cs: Seq<char>, i: int) -> int
    decreases cs.len() - i,
{
    if i >= cs.len() {
        cs.len() as int
    } else if ends_word(cs[i]) {
        i
    } else {
        word_end(cs, i + 1)
    }
}

/// The position of the `/` closing a regex literal whose body starts at `i`; a
/// backslash escapes the character after it. The length when there is none.
pub open spec fn regex_end(cs: Seq<char>, i: int) -> int
    decreases cs.len() - i,
{
    if i >= cs.len() {
        cs.len() as int
    } else if cs[i] == '/' {
        i
    } else if cs[i] == '\\' && i + 1 < cs.len() {
        regex_end(cs, i + 2)
    } else {
        regex_end(cs, i + 1)
    }
}

/// `t` in front of the tokens of `rest`, or the error of `rest`.
pub open spec fn cons_tok(t: TokV, rest: Result<Seq<TokV>, Seq<char>>) -> Result<Seq<TokV>, Seq<char>> {
    match rest {
        Ok(ts) => Ok(seq![t] + ts),
        Err(e) => Err(e),
    }
}

/// The tokens of `cs` from position `i` on, or the message of the first error:
/// white space separates tokens; `(`, `)`, `|` and `!` are tokens of their own; a
/// `"` starts a phrase that runs to the next `"` (a word without the quotes); a `/`
/// starts a regex literal that runs to the next unescaped `/` (a word with both
/// slashes); anything else starts a bare word.
pub open spec fn lex_from(cs: Seq<char>, i: int) -> Result<Seq<TokV>, Seq<char>>
    decreases cs.len() - i,
{
    if i < 0 || i >= cs.len() {
        Ok(seq![])
    } else {
        let c = cs[i];
        if is_ws(c) {
            lex_from(cs, i + 1)
        } else if c == '(' {
            cons_tok(TokV::LParen, lex_from(cs, i + 1))
        } else if c == ')' {
            cons_tok(TokV::RParen, lex_from(cs, i + 1))
        } else if c == '|' {
            cons_tok(TokV::Or, lex_from(cs, i + 1))
        } else if c == '!' {
            cons_tok(TokV::Not, lex_from(cs, i + 1))
        } else if c == '"' {
            let j = find_from(cs, i + 1, '"');
            if j >= cs.len() || j < i + 1 {
                Err("Unclosed quote"@)
            } else {
                cons_tok(TokV::Word(cs.subrange(i + 1, j)), lex_from(cs, j + 1))
            }
        } else if c == '/' {
            let j = regex_end(cs, i + 1);
            if j >= cs.len() || j < i + 1 {
                Err("Unclosed regex literal"@)
            } else {
                cons_tok(TokV::Word(cs.subrange(i, j + 1)), lex_from(cs, j + 1))
            }
        } else {
            let j = word_end(cs, i);
            if j <= i || j > cs.len() {
                Ok(seq![])
            } else {
                cons_tok(TokV::Word(cs.subrange(i, j)), lex_from(cs, j))
            }
        }
    }
}

/// The tokens of a query text.
pub open spec fn lex(s: Seq<char>) -> Result<Seq<TokV>, Seq<char>> {
    lex_from(s, 0)
}

proof fn lemma_find_from(cs: Seq<char>, i: int, c: char)
    requires
        0 <= i,
    ensures
        i <= find_from(cs, i, c) || (i > cs.len() && find_from(cs, i, c) == cs.len()),
        find_from(cs, i, c) <= cs.len() || i > cs.len(),
        find_from(cs, i, c) < cs.len() ==> cs[find_from(cs, i, c)] == c,
    decreases cs.len() - i,
{
    if i < cs.len() && cs[i] != c {
        lemma_find_from(cs, i + 1, c);
    }
}

proof fn lemma_word_end(cs: Seq<char>, i: int)
    requires
        0 <= i <= cs.len(),
    ensures
        i <= word_end(cs, i) <= cs.len(),
    decreases cs.len() - i,
{
    if i < cs.len() && !ends_word(cs[i]) {
        lemma_word_end(cs, i + 1);
    }
}

proof fn lemma_regex_end(cs: Seq<char>, i: int)
    requires
        0 <= i <= cs.len(),
    ensures
        i <= regex_end(cs, i) <= cs.len(),
    decreases cs.len() - i,
{
    if i < cs.len() && cs[i] != '/' {
        if cs[i] == '\\' && i + 1 < cs.len() {
            lemma_regex_end(cs, i + 2);
        } else {
            lemma_regex_end(cs, i + 1);
        }
    }
}

/// The characters `cs[start..end]` as a string.
fn string_of(cs: &Vec<char>, start: usize, end: usize) -> (s: String)
    requires
        start <= end <= cs@.len(),
    ensures
        s@ == cs@.subrange(start as int, end as int),
{
    let mut s = String::new();
    let mut k = start;
    while k < end
        invariant
            start <= k <= end,
            end <= cs@.len(),
            s@ == cs@.subrange(start as int, k as int),
        decreases end - k,
    {
        push_char(&mut s, cs[k]);
        assert(s@ =~= cs@.subrange(start as int, k as int + 1));
        k += 1;
    }
    s
}

/// Split a query text into tokens.
pub fn tokenize(s: &str) -> (r: Result<Vec<Tok>, SearchError>)
    ensures
        match r {
            Ok(ts) => lex(s@) == Ok::<Seq<TokV>, Seq<char>>(tok_views(ts@)),
            Err(SearchError::Parse(m)) => lex(s@) == Err::<Seq<TokV>, Seq<char>>(m@),
        },
{
    let cs = chars_of(s);
    let n = cs.len();
    let mut out: Vec<Tok> = Vec::new();
    let mut i: usize = 0;
    while i < n
        invariant
            cs@ == s@,
            n == cs@.len(),
            i <= n,
            lex(s@) == match lex_from(cs@, i as int) {
                Ok(ts) => Ok::<Seq<TokV>, Seq<char>>(tok_views(out@) + ts),
                Err(e) => Err(e),
            },
        decreases n - i,
    {
        let c = cs[i];
        let ghost ov = tok_views(out@);
        if is_whitespace(c) {
            i += 1;
        } else if c == '(' || c == ')' || c == '|' || c == '!' {
            let t = if c == '(' {
                Tok::LParen
            } else if c == ')' {
                Tok::RParen
            } else if c == '|' {
                Tok::Or
            } else {
                Tok::Not
            };
            let ghost tv = t@;
            out.push(t);
            assert(tok_views(out@) =~= ov.push(tv));
            proof {
                match lex_from(cs@, i as int + 1) {
                    Ok(ts) => {
                        assert(ov + (seq![tv] + ts) =~= ov.push(tv) + ts);
                    },
                    Err(e) => {},
                }
            }
            i += 1;
        } else if c == '"' {
            proof {
                lemma_find_from(cs@, i as int + 1, '"');
            }
            let start = i + 1;
            let mut j = start;
            while j < n && cs[j] != '"'
                invariant
                    start <= j <= n,
                    n == cs@.len(),
                    find_from(cs@, start as int, '"') == find_from(cs@, j as int, '"'),
                decreases n - j,
            {
                j += 1;
            }
            if j >= n {
                proof {
                    reveal_strlit("Unclosed quote");
                }
                return Err(SearchError::Parse("Unclosed quote".to_owned()));
            }
            let w = string_of(&cs, start, j);
            let ghost tv = TokV::Word(w@);
            out.push(Tok::Word(w));
            assert(tok_views(out@) =~= ov.push(tv));
            proof {
                match lex_from(cs@, j as int + 1) {
                    Ok(ts) => {
                        assert(ov + (seq![tv] + ts) =~= ov.push(tv) + ts);
                    },
                    Err(e) => {},
                }
            }
            i = j + 1;
        } else if c == '/' {
            proof {
                lemma_regex_end(cs@, i as int + 1);
            }
            let mut j = i + 1;
            while j < n && cs[j] != '/'
                invariant
                    i + 1 <= j <= n,
                    n == cs@.len(),
                    regex_end(cs@, i as int + 1) == regex_end(cs@, j as int),
                decreases n - j,
            {
                if cs[j] == '\\' && j + 1 < n {
                    j += 2;
                } else {
                    j += 1;
                }
            }
            if j >= n {
                proof {
                    reveal_strlit("Unclosed regex literal");
                }
                return Err(SearchError::Parse("Unclosed regex literal".to_owned()));
            }
            let w = string_of(&cs, i, j + 1);
            let ghost tv = TokV::Word(w@);
            out.push(Tok::Word(w));
            assert(tok_views(out@) =~= ov.push(tv));
            proof {
                match lex_from(cs@, j as int + 1) {
                    Ok(ts) => {
                        assert(ov + (seq![tv] + ts) =~= ov.push(tv) + ts);
                    },
                    Err(e) => {},
                }
            }
            i = j + 1;
        } else {
            proof {
                lemma_word_end(cs@, i as int);
            }
            let mut j = i;
            while j < n && !(is_whitespace(cs[j]) || cs[j] == '(' || cs[j] == ')' || cs[j] == '|' || cs[j] == '!')
                invariant
                    i <= j <= n,
                    n == cs@.len(),
                    word_end(cs@, i as int) == word_end(cs@, j as int),
                decreases n - j,
            {
                j += 1;
            }
            assert(j > i);
            let w = string_of(&cs, i, j);
            let ghost tv = TokV::Word(w@);
            out.push(Tok::Word(w));
            assert(tok_views(out@) =~= ov.push(tv));
            proof {
                match lex_from(cs@, j as int) {
                    Ok(ts) => {
                        assert(ov + (seq![tv] + ts) =~= ov.push(tv) + ts);
                    },
                    Err(e) => {},
                }
            }
            i = j;
        }
    }
    assert(tok_views(out@) + Seq::<TokV>::empty() =~= tok_views(out@));
    Ok(out)
}

/// Which text of an entry a term looks at.
#[derive(Debug, Clone, Copy, PartialEq, Eq, Structural)]
pub enum Field {
    Any,
    Name,
    Path,
    Ext,
}

#[derive(Debug)]
pub enum Term {
    Contains { field: Field, value: String },
    Regex { field: Field, regex: CompiledRegex },
    TypeIs(String),
}

#[derive(Debug)]
pub enum Expr {
    And(Vec<Expr>),
    Or(Vec<Expr>),
    Not(Box<Expr>),
    Term(Term),
}

/// The abstract value of a term; a regex is represented by its pattern text.
pub enum TermV {
    Contains { field: Field, value: Seq<char> },
    Regex { field: Field, pattern: Seq<char> },
    TypeIs(Seq<char>),
}

/// The abstract value of a query expression.
pub enum ExprV {
    And(Seq<ExprV>),
    Or(Seq<ExprV>),
    Not(Box<ExprV>),
    Term(TermV),
}

impl View for Term {
    type V = TermV;

    open spec fn view(&self) -> TermV {
        match self {
            Term::Contains { field, value } => TermV::Contains { field: *field, value: value@ },
            Term::Regex { field, regex } => TermV::Regex { field: *field, pattern: regex@ },
            Term::TypeIs(v) => TermV::TypeIs(v@),
        }
    }
}

pub open spec fn expr_view(e: Expr) -> ExprV
    decreases e,
{
    match e {
        Expr::And(v) => ExprV::And(exprs_view(v@)),
        Expr::Or(v) => ExprV::Or(exprs_view(v@)),
        Expr::Not(b) => ExprV::Not(Box::new(expr_view(*b))),
        Expr::Term(t) => ExprV::Term(t@),
    }
}

pub open spec fn exprs_view(s: Seq<Expr>) -> Seq<ExprV>
    decreases s,
{
    if s.len() == 0 {
        seq![]
    } else {
        exprs_view(s.drop_last()).push(expr_view(s.last()))
    }
}

impl View for Expr {
    type V = ExprV;

    open spec fn view(&self) -> ExprV {
        expr_view(*self)
    }
}

pub proof fn lemma_exprs_view(s: Seq<Expr>)
    ensures
        exprs_view(s).len() == s.len(),
        forall|i: int| 0 <= i < s.len() ==> #[trigger] exprs_view(s)[i] == expr_view(s[i]),
    decreases s.len(),
{
    if s.len() > 0 {
        lemma_exprs_view(s.drop_last());
        assert forall|i: int| 0 <= i < s.len() implies #[trigger] exprs_view(s)[i] == expr_view(s[i]) by {
            if i < s.len() - 1 {
                assert(s.drop_last()[i] == s[i]);
            }
        }
    }
}

pub proof fn lemma_exprs_view_push(s: Seq<Expr>, e: Expr)
    ensures
        exprs_view(s.push(e)) == exprs_view(s).push(expr_view(e)),
{
    assert(s.push(e).drop_last() =~= s);
}

// ── Terms ───────────────────────────────────────────────────────────────────

/// The term a query word stands for, or the error message: `/body/` is a
/// case-insensitive regex over the name, path and content snippet; `name:`,
/// `path:` and `ext:` (any case) restrict a substring match to one field;
/// `type:` tests the entry kind; anything else is a substring to find in the
/// name, path or snippet. Values are compared in lower case.
pub open spec fn term_of(raw: Seq<char>) -> Result<TermV, Seq<char>> {
    if raw.len() >= 2 && raw[0] == '/' && raw.last() == '/' {
        let body = raw.subrange(1, raw.len() - 1);
        match regex_build_error(body) {
            Some(e) => Err("Invalid regex: "@ + e),
            None => Ok(TermV::Regex { field: Field::Any, pattern: body }),
        }
    } else {
        let i = find_from(raw, 0, ':');
        let any = TermV::Contains { field: Field::Any, value: ascii_lower(raw) };
        if 0 <= i < raw.len() {
            let k = ascii_lower(raw.subrange(0, i));
            let v = ascii_lower(raw.subrange(i + 1, raw.len() as int));
            if k == "name"@ {
                Ok(TermV::Contains { field: Field::Name, value: v })
            } else if k == "path"@ {
                Ok(TermV::Contains { field: Field::Path, value: v })
            } else if k == "ext"@ {
                Ok(TermV::Contains { field: Field::Ext, value: v })
            } else if k == "type"@ {
                Ok(TermV::TypeIs(v))
            } else {
                Ok(any)
            }
        } else {
            Ok(any)
        }
    }
}

fn parse_term(raw: &str) -> (r: Result<Term, SearchError>)
    ensures
        match r {
            Ok(t) => term_of(raw@) == Ok::<TermV, Seq<char>>(t@),
            Err(SearchError::Parse(m)) => term_of(raw@) == Err::<TermV, Seq<char>>(m@),
        },
{
    let cs = chars_of(raw);
    let n = cs.len();
    if n >= 2 && cs[0] == '/' && cs[n - 1] == '/' {
        let body = string_of(&cs, 1, n - 1);
        return match compile_regex(body.as_str()) {
            Ok(re) => Ok(Term::Regex { field: Field::Any, regex: re }),
            Err(e) => {
                let mut m = "Invalid regex: ".to_owned();
                push_str(&mut m, e.as_str());
                Err(SearchError::Parse(m))
            },
        };
    }
    proof {
        lemma_find_from(cs@, 0, ':');
    }
    let mut i: usize = 0;
    while i < n && cs[i] != ':'
        invariant
            i <= n,
            n == cs@.len(),
            find_from(cs@, 0, ':') == find_from(cs@, i as int, ':'),
        decreases n - i,
    {
        i += 1;
    }
    if i < n {
        let k = to_ascii_lower(string_of(&cs, 0, i).as_str());
        let v = to_ascii_lower(string_of(&cs, i + 1, n).as_str());
        if str_eq(k.as_str(), "name") {
            return Ok(Term::Contains { field: Field::Name, value: v });
        } else if str_eq(k.as_str(), "path") {
            return Ok(Term::Contains { field: Field::Path, value: v });
        } else if str_eq(k.as_str(), "ext") {
            return Ok(Term::Contains { field: Field::Ext, value: v });
        } else if str_eq(k.as_str(), "type") {
            return Ok(Term::TypeIs(v));
        }
    }
    Ok(Term::Contains { field: Field::Any, value: to_ascii_lower(raw) })
}

// ── Parser ──────────────────────────────────────────────────────────────────

/// A one-part list stands for its part; more parts are joined by `|` or by `and`.
pub open spec fn joined_parts(parts: Seq<ExprV>, alternatives: bool) -> ExprV {
    if parts.len() == 1 {
        parts[0]
    } else if alternatives {
        ExprV::Or(parts)
    } else {
        ExprV::And(parts)
    }
}

/// Parse `a | b | ...` at `pos`: the expression and the position after it, or the
/// error message.
pub open spec fn p_or(ts: Seq<TokV>, pos: int) -> Result<(ExprV, int), Seq<char>>
    decreases ts.len() - pos, 5int,
{
    if pos < 0 || pos > ts.len() {
        Err("Unexpected token"@)
    } else {
        match p_and(ts, pos) {
            Ok((e, q)) => if pos < q <= ts.len() {
                p_or_rest(ts, q, seq![e])
            } else {
                Err("Unexpected token"@)
            },
            Err(m) => Err(m),
        }
    }
}

/// The rest of an alternation whose parts so far are `parts`.
pub open spec fn p_or_rest(ts: Seq<TokV>, pos: int, parts: Seq<ExprV>) -> Result<(ExprV, int), Seq<char>>
    decreases ts.len() - pos, 6int,
{
    if 0 <= pos < ts.len() && ts[pos] is Or {
        match p_and(ts, pos + 1) {
            Ok((e, q)) => if pos < q <= ts.len() {
                p_or_rest(ts, q, parts.push(e))
            } else {
                Err("Unexpected token"@)
            },
            Err(m) => Err(m),
        }
    } else {
        Ok((joined_parts(parts, true), pos))
    }
}

/// Parse a run of juxtaposed (and-ed) unary expressions at `pos`; it ends at `)`,
/// `|` or the end, and must not be empty.
pub open spec fn p_and(ts: Seq<TokV>, pos: int) -> Result<(ExprV, int), Seq<char>>
    decreases ts.len() - pos, 4int,
{
    p_and_rest(ts, pos, seq![])
}

/// The rest of an and-run whose parts so far are `parts`.
pub open spec fn p_and_rest(ts: Seq<TokV>, pos: int, parts: Seq<ExprV>) -> Result<(ExprV, int), Seq<char>>
    decreases ts.len() - pos, 3int,
{
    if 0 <= pos < ts.len() && !(ts[pos] is RParen || ts[pos] is Or) {
        match p_unary(ts, pos) {
            Ok((e, q)) => if pos < q <= ts.len() {
                p_and_rest(ts, q, parts.push(e))
            } else {
                Err("Unexpected token"@)
            },
            Err(m) => Err(m),
        }
    } else if parts.len() == 0 {
        Err("Expected expression"@)
    } else {
        Ok((joined_parts(parts, false), pos))
    }
}

/// Parse `!...` or a primary expression at `pos`.
pub open spec fn p_unary(ts: Seq<TokV>, pos: int) -> Result<(ExprV, int), Seq<char>>
    decreases ts.len() - pos, 2int,
{
    if 0 <= pos < ts.len() && ts[pos] is Not {
        match p_unary(ts, pos + 1) {
            Ok((e, q)) => Ok((ExprV::Not(Box::new(e)), q)),
            Err(m) => Err(m),
        }
    } else {
        p_primary(ts, pos)
    }
}

/// Parse a parenthesized expression or a word at `pos`.
pub open spec fn p_primary(ts: Seq<TokV>, pos: int) -> Result<(ExprV, int), Seq<char>>
    decreases ts.len() - pos, 1int,
{
    if pos < 0 || pos >= ts.len() {
        Err("Unexpected token"@)
    } else {
        match ts[pos] {
            TokV::LParen => match p_or(ts, pos + 1) {
                Ok((e, q)) => if 0 <= q < ts.len() && ts[q] is RParen {
                    Ok((e, q + 1))
                } else {
                    Err("Missing ')'"@)
                },
                Err(m) => Err(m),
            },
            TokV::Word(w) => match term_of(w) {
                Ok(t) => Ok((ExprV::Term(t), pos + 1)),
                Err(m) => Err(m),
            },
            _ => Err("Unexpected token"@),
        }
    }
}

/// The expression a query text parses to, or the error message. Tokens after a
/// complete expression (such as a stray `)`) are ignored.
pub open spec fn parsed(text: Seq<char>) -> Result<ExprV, Seq<char>> {
    match lex(text) {
        Err(m) => Err(m),
        Ok(ts) => match p_or(ts, 0) {
            Ok((e, q)) => Ok(e),
            Err(m) => Err(m),
        },
    }
}

struct Parser {
    tokens: Vec<Tok>,
    pos: usize,
}

/// The outcome of a parser step that started at `pos` and ended at `end`.
pub open spec fn step_result(
    spec_result: Result<(ExprV, int), Seq<char>>,
    r: Result<Expr, SearchError>,
    pos: int,
    end: int,
) -> bool {
    match r {
        Ok(e) => spec_result == Ok::<(ExprV, int), Seq<char>>((e@, end)) && pos < end,
        Err(SearchError::Parse(m)) => spec_result == Err::<(ExprV, int), Seq<char>>(m@),
    }
}

impl Parser {
    spec fn toks(&self) -> Seq<TokV> {
        tok_views(self.tokens@)
    }

    fn at_or(&self) -> (r: bool)
        ensures
            r == (self.pos < self.tokens@.len() && self.toks()[self.pos as int] is Or),
    {
        self.pos < self.tokens.len() && match &self.tokens[self.pos] {
            Tok::Or => true,
            _ => false,
        }
    }

    fn at_operand(&self) -> (r: bool)
        ensures
            r == (self.pos < self.tokens@.len() && !(self.toks()[self.pos as int] is RParen
                || self.toks()[self.pos as int] is Or)),
    {
        self.pos < self.tokens.len() && match &self.tokens[self.pos] {
            Tok::RParen => false,
            Tok::Or => false,
            _ => true,
        }
    }

    fn parse_expr(&mut self) -> (r: Result<Expr, SearchError>)
        requires
            old(self).pos <= old(self).tokens@.len(),
        ensures
            final(self).tokens@ == old(self).tokens@,
            final(self).pos <= final(self).tokens@.len(),
            step_result(p_or(old(self).toks(), old(self).pos as int), r, old(self).pos as int, final(self).pos as int),
        decreases old(self).tokens@.len() - old(self).pos, 7int,
    {
        self.parse_or()
    }

    fn parse_or(&mut self) -> (r: Result<Expr, SearchError>)
        requires
            old(self).pos <= old(self).tokens@.len(),
        ensures
            final(self).tokens@ == old(self).tokens@,
            final(self).pos <= final(self).tokens@.len(),
            step_result(p_or(old(self).toks(), old(self).pos as int), r, old(self).pos as int, final(self).pos as int),
        decreases old(self).tokens@.len() - old(self).pos, 5int,
    {
        let ghost ts = self.toks();
        let ghost start = self.pos as int;
        let first = self.parse_and()?;
        let mut parts: Vec<Expr> = Vec::new();
        parts.push(first);
        proof {
            lemma_exprs_view_push(Seq::<Expr>::empty(), first);
            assert(exprs_view(Seq::<Expr>::empty()) =~= Seq::<ExprV>::empty());
            assert(Seq::<Expr>::empty().push(first) =~= parts@);
        }
        while self.pos < self.tokens.len() && self.at_or()
            invariant
                self.tokens@ == old(self).tokens@,
                ts == self.toks(),
                start == old(self).pos as int,
                start < self.pos <= self.tokens@.len(),
                parts@.len() >= 1,
                p_or(ts, start) == p_or_rest(ts, self.pos as int, exprs_view(parts@)),
            decreases self.tokens@.len() - self.pos,
        {
            let ghost before = self.pos as int;
            self.pos = self.pos + 1;
            let e = self.parse_and()?;
            let ghost ev = e@;
            proof {
                lemma_exprs_view_push(parts@, e);
            }
            parts.push(e);
            assert(p_or_rest(ts, before, exprs_view(parts@.drop_last())) == p_or_rest(ts, self.pos as int, exprs_view(parts@))) by {
                assert(parts@.drop_last() =~= parts@.subrange(0, parts@.len() - 1));
            }
        }
        proof {
            lemma_exprs_view(parts@);
        }
        if parts.len() == 1 {
            let e = parts.remove(0);
            Ok(e)
        } else {
            Ok(Expr::Or(parts))
        }
    }

    fn parse_and(&mut self) -> (r: Result<Expr, SearchError>)
        requires
            old(self).pos <= old(self).tokens@.len(),
        ensures
            final(self).tokens@ == old(self).tokens@,
            final(self).pos <= final(self).tokens@.len(),
            step_result(p_and(old(self).toks(), old(self).pos as int), r, old(self).pos as int, final(self).pos as int),
        decreases old(self).tokens@.len() - old(self).pos, 4int,
    {
        let ghost ts = self.toks();
        let ghost start = self.pos as int;
        let mut parts: Vec<Expr> = Vec::new();
        assert(exprs_view(parts@) =~= Seq::<ExprV>::empty());
        while self.at_operand()
            invariant
                self.tokens@ == old(self).tokens@,
                ts == self.toks(),
                start == old(self).pos as int,
                start <= self.pos <= self.tokens@.len(),
                parts@.len() == 0 <==> self.pos == start,
                p_and(ts, start) == p_and_rest(ts, self.pos as int, exprs_view(parts@)),
            decreases self.tokens@.len() - self.pos,
        {
            let e = self.parse_unary()?;
            proof {
                lemma_exprs_view_push(parts@, e);
            }
            parts.push(e);
        }
        proof {
            lemma_exprs_view(parts@);
        }
        if parts.len() == 0 {
            proof {
                reveal_strlit("Expected expression");
            }
            Err(SearchError::Parse("Expected expression".to_owned()))
        } else if parts.len() == 1 {
            let e = parts.remove(0);
            Ok(e)
        } else {
            Ok(Expr::And(parts))
        }
    }

    fn parse_unary(&mut self) -> (r: Result<Expr, SearchError>)
        requires
            old(self).pos <= old(self).tokens@.len(),
        ensures
            final(self).tokens@ == old(self).tokens@,
            final(self).pos <= final(self).tokens@.len(),
            step_result(p_unary(old(self).toks(), old(self).pos as int), r, old(self).pos as int, final(self).pos as int),
        decreases old(self).tokens@.len() - old(self).pos, 2int,
    {
        let is_not = self.pos < self.tokens.len() && match &self.tokens[self.pos] {
            Tok::Not => true,
            _ => false,
        };
        if is_not {
            self.pos = self.pos + 1;
            let inner = self.parse_unary()?;
            Ok(Expr::Not(Box::new(inner)))
        } else {
            self.parse_primary()
        }
    }

    fn parse_primary(&mut self) -> (r: Result<Expr, SearchError>)
        requires
            old(self).pos <= old(self).tokens@.len(),
        ensures
            final(self).tokens@ == old(self).tokens@,
            final(self).pos <= final(self).tokens@.len(),
            step_result(p_primary(old(self).toks(), old(self).pos as int), r, old(self).pos as int, final(self).pos as int),
        decreases old(self).tokens@.len() - old(self).pos, 1int,
    {
        proof {
            reveal_strlit("Unexpected token");
            reveal_strlit("Missing ')'");
        }
        if self.pos >= self.tokens.len() {
            return Err(SearchError::Parse("Unexpected token".to_owned()));
        }
        let at = self.pos;
        self.pos = self.pos + 1;
        match &self.tokens[at] {
            Tok::LParen => {
                let e = self.parse_expr()?;
                let closed = self.pos < self.tokens.len() && match &self.tokens[self.pos] {
                    Tok::RParen => true,
                    _ => false,
                };
                if closed {
                    self.pos = self.pos + 1;
                    Ok(e)
                } else {
                    Err(SearchError::Parse("Missing ')'".to_owned()))
                }
            },
            Tok::Word(w) => {
                let t = parse_term(w.as_str())?;
                Ok(Expr::Term(t))
            },
            _ => Err(SearchError::Parse("Unexpected token".to_owned())),
        }
    }
}

/// Parse a query text into an expression.
pub fn parse_query(input: &str) -> (r: Result<Expr, SearchError>)
    ensures
        match r {
            Ok(e) => parsed(input@) == Ok::<ExprV, Seq<char>>(e@),
            Err(SearchError::Parse(m)) => parsed(input@) == Err::<ExprV, Seq<char>>(m@),
        },
{
    let tokens = tokenize(input)?;
    let mut p = Parser { tokens, pos: 0 };
    p.parse_expr()
}

// ── Evaluation ──────────────────────────────────────────────────────────────

/// The content snippet of an entry lower-cased contains `value`.
pub open spec fn snippet_contains(item: SearchResultItem, value: Seq<char>) -> bool {
    match item.content_snippet {
        Some(s) => seq_contains(ascii_lower(s@), value),
        None => false,
    }
}

/// The regex `pattern` matches the content snippet of an entry.
pub open spec fn snippet_matches(item: SearchResultItem, pattern: Seq<char>) -> bool {
    match item.content_snippet {
        Some(s) => regex_finds(pattern, s@),
        None => false,
    }
}

/// Whether a term holds of an entry (whose lower-case fields are prepared).
pub open spec fn term_holds(t: TermV, item: SearchResultItem) -> bool {
    match t {
        TermV::Contains { field, value } => match field {
            Field::Any => seq_contains(item.name_lower@, value) || seq_contains(item.path_lower@, value)
                || snippet_contains(item, value),
            Field::Name => seq_contains(item.name_lower@, value),
            Field::Path => seq_contains(item.path_lower@, value),
            Field::Ext => match extension_of(item.path@) {
                Some(e) => ascii_lower(e) == ascii_lower(value),
                None => false,
            },
        },
        TermV::Regex { field, pattern } => match field {
            Field::Any => regex_finds(pattern, item.name@) || regex_finds(pattern, item.path_str@)
                || snippet_matches(item, pattern),
            Field::Name => regex_finds(pattern, item.name@),
            Field::Path => regex_finds(pattern, item.path_str@),
            Field::Ext => match extension_of(item.path@) {
                Some(e) => regex_finds(pattern, e),
                None => false,
            },
        },
        TermV::TypeIs(v) => match item.kind {
            EntryKind::File => v == "file"@,
            EntryKind::Directory => v == "dir"@ || v == "folder"@ || v == "directory"@,
            EntryKind::Symlink => v == "symlink"@ || v == "link"@,
            EntryKind::Other => v == "other"@,
        },
    }
}

/// Each field term reads its own field of an entry, whose lower-case fields are
/// in step with its name and path: a `name:` term holds exactly when the
/// lower-cased file name contains the value, so two entries with the same name
/// agree on it whatever folders they lie in; a `path:` term holds exactly when
/// the lower-cased full path contains the value; a `name:` regex is matched
/// against the file name and a `path:` regex against the full path. A bare term
/// looks at the name, the path and any content snippet; an `ext:` term compares
/// the extension regardless of ASCII case; a `type:` term names the entry's kind.
pub proof fn law_field_terms_read_their_field(
    value: Seq<char>,
    pattern: Seq<char>,
    a: SearchResultItem,
    b: SearchResultItem,
)
    requires
        a.is_prepared(),
        b.is_prepared(),
    ensures
        term_holds(TermV::Contains { field: Field::Name, value }, a) == seq_contains(ascii_lower(a.name@), value),
        a.name@ == b.name@ ==> term_holds(TermV::Contains { field: Field::Name, value }, a) == term_holds(
            TermV::Contains { field: Field::Name, value },
            b,
        ),
        term_holds(TermV::Contains { field: Field::Path, value }, a) == seq_contains(ascii_lower(a.path@), value),
        term_holds(TermV::Regex { field: Field::Name, pattern }, a) == regex_finds(pattern, a.name@),
        term_holds(TermV::Regex { field: Field::Path, pattern }, a) == regex_finds(pattern, a.path@),
        term_holds(TermV::Contains { field: Field::Any, value }, a) == (seq_contains(ascii_lower(a.name@), value)
            || seq_contains(ascii_lower(a.path@), value) || (a.content_snippet matches Some(sn) && seq_contains(
            ascii_lower(sn@),
            value,
        ))),
        term_holds(TermV::Contains { field: Field::Ext, value }, a) == (extension_of(a.path@) matches Some(x)
            && ascii_lower(x) == ascii_lower(value)),
        a.kind == EntryKind::File ==> term_holds(TermV::TypeIs(value), a) == (value == "file"@),
        a.kind == EntryKind::Directory ==> term_holds(TermV::TypeIs(value), a) == (value == "dir"@ || value
            == "folder"@ || value == "directory"@),
        a.kind == EntryKind::Symlink ==> term_holds(TermV::TypeIs(value), a) == (value == "symlink"@ || value
            == "link"@),
{
}

/// Whether a query expression holds of an entry.
pub open spec fn holds(e: ExprV, item: SearchResultItem) -> bool
    decreases e,
{
    match e {
        ExprV::And(v) => all_hold(v, item),
        ExprV::Or(v) => any_holds(v, item),
        ExprV::Not(b) => !holds(*b, item),
        ExprV::Term(t) => term_holds(t, item),
    }
}

/// Every expression of `v` holds.
pub open spec fn all_hold(v: Seq<ExprV>, item: SearchResultItem) -> bool
    decreases v,
{
    if v.len() == 0 {
        true
    } else {
        all_hold(v.drop_last(), item) && holds(v.last(), item)
    }
}

/// Some expression of `v` holds.
pub open spec fn any_holds(v: Seq<ExprV>, item: SearchResultItem) -> bool
    decreases v,
{
    if v.len() == 0 {
        false
    } else {
        any_holds(v.drop_last(), item) || holds(v.last(), item)
    }
}

pub proof fn lemma_all_any(v: Seq<ExprV>, item: SearchResultItem)
    ensures
        all_hold(v, item) == (forall|i: int| 0 <= i < v.len() ==> holds(#[trigger] v[i], item)),
        any_holds(v, item) == (exists|i: int| 0 <= i < v.len() && holds(#[trigger] v[i], item)),
    decreases v.len(),
{
    if v.len() > 0 {
        let p = v.drop_last();
        lemma_all_any(p, item);
        assert forall|i: int| 0 <= i < p.len() implies #[trigger] p[i] == v[i] by {}
        if any_holds(v, item) {
            if holds(v.last(), item) {
                assert(holds(v[v.len() - 1], item));
            } else {
                let i = choose|i: int| 0 <= i < p.len() && holds(#[trigger] p[i], item);
                assert(holds(v[i], item));
            }
        }
        if all_hold(v, item) {
            assert forall|i: int| 0 <= i < v.len() implies holds(#[trigger] v[i], item) by {
                if i < p.len() {
                    assert(holds(p[i], item));
                }
            }
        }
        if exists|i: int| 0 <= i < v.len() && holds(#[trigger] v[i], item) {
            let i = choose|i: int| 0 <= i < v.len() && holds(#[trigger] v[i], item);
            if i < p.len() {
                assert(holds(p[i], item));
            }
        }
        if forall|i: int| 0 <= i < v.len() ==> holds(#[trigger] v[i], item) {
            assert(holds(v[v.len() - 1], item));
            assert forall|i: int| 0 <= i < p.len() implies holds(#[trigger] p[i], item) by {
                assert(holds(v[i], item));
            }
        }
    }
}

fn ext_equals(path: &str, value: &str) -> (r: bool)
    ensures
        r == match extension_of(path@) {
            Some(e) => ascii_lower(e) == ascii_lower(value@),
            None => false,
        },
{
    match path_extension(path) {
        Some(e) => eq_ignore_ascii_case(e, value),
        None => false,
    }
}

fn ext_matches(path: &str, regex: &CompiledRegex) -> (r: bool)
    ensures
        r == match extension_of(path@) {
            Some(e) => regex_finds(regex@, e),
            None => false,
        },
{
    match path_extension(path) {
        Some(e) => regex_is_match(regex, e),
        None => false,
    }
}

/// Whether a term holds of an entry.
pub fn eval_term(t: &Term, item: &SearchResultItem) -> (r: bool)
    ensures
        r == term_holds(t@, *item),
{
    match t {
        Term::Contains { field, value } => match field {
            Field::Any => {
                str_contains(item.name_lower.as_str(), value.as_str()) || str_contains(
                    item.path_lower.as_str(),
                    value.as_str(),
                ) || match &item.content_snippet {
                    Some(snippet) => {
                        let lower = to_ascii_lower(snippet.as_str());
                        str_contains(lower.as_str(), value.as_str())
                    },
                    None => false,
                }
            },
            Field::Name => str_contains(item.name_lower.as_str(), value.as_str()),
            Field::Path => str_contains(item.path_lower.as_str(), value.as_str()),
            Field::Ext => ext_equals(item.path.as_str(), value.as_str()),
        },
        Term::Regex { field, regex } => match field {
            Field::Any => {
                regex_is_match(regex, item.name.as_str()) || regex_is_match(regex, item.path_str.as_str())
                    || match &item.content_snippet {
                    Some(snippet) => regex_is_match(regex, snippet.as_str()),
                    None => false,
                }
            },
            Field::Name => regex_is_match(regex, item.name.as_str()),
            Field::Path => regex_is_match(regex, item.path_str.as_str()),
            Field::Ext => ext_matches(item.path.as_str(), regex),
        },
        Term::TypeIs(v) => match item.kind {
            EntryKind::File => str_eq(v.as_str(), "file"),
            EntryKind::Directory => str_eq(v.as_str(), "dir") || str_eq(v.as_str(), "folder") || str_eq(
                v.as_str(),
                "directory",
            ),
            EntryKind::Symlink => str_eq(v.as_str(), "symlink") || str_eq(v.as_str(), "link"),
            EntryKind::Other => str_eq(v.as_str(), "other"),
        },
    }
}

/// Whether a query expression holds of an entry.
#[verifier::loop_isolation(false)]
pub fn eval_expr(expr: &Expr, item: &SearchResultItem) -> (r: bool)
    ensures
        r == holds(expr@, *item),
    decreases expr,
{
    match expr {
        Expr::And(v) => {
            proof {
                lemma_exprs_view(v@);
                lemma_all_any(exprs_view(v@), *item);
            }
            let mut i: usize = 0;
            while i < v.len()
                invariant
                    i <= v@.len(),
                    exprs_view(v@).len() == v@.len(),
                    forall|j: int| 0 <= j < v@.len() ==> #[trigger] exprs_view(v@)[j] == expr_view(v@[j]),
                    forall|j: int| 0 <= j < i ==> holds(#[trigger] exprs_view(v@)[j], *item),
                decreases v@.len() - i,
            {
                proof {
                    assert(decreases_to!(*v => v[i as int]));
                }
                if !eval_expr(&v[i], item) {
                    assert(!holds(exprs_view(v@)[i as int], *item));
                    return false;
                }
                i += 1;
            }
            true
        },
        Expr::Or(v) => {
            proof {
                lemma_exprs_view(v@);
                lemma_all_any(exprs_view(v@), *item);
            }
            let mut i: usize = 0;
            while i < v.len()
                invariant
                    i <= v@.len(),
                    exprs_view(v@).len() == v@.len(),
                    forall|j: int| 0 <= j < v@.len() ==> #[trigger] exprs_view(v@)[j] == expr_view(v@[j]),
                    forall|j: int| 0 <= j < i ==> !holds(#[trigger] exprs_view(v@)[j], *item),
                decreases v@.len() - i,
            {
                proof {
                    assert(decreases_to!(*v => v[i as int]));
                }
                if eval_expr(&v[i], item) {
                    assert(holds(exprs_view(v@)[i as int], *item));
                    return true;
                }
                i += 1;
            }
            false
        },
        Expr::Not(e) => !eval_expr(e, item),
        Expr::Term(t) => eval_term(t, item),
    }
}

} // verus!

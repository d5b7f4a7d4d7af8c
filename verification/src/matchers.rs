//! Compiled regular expressions (the `regex` crate) and glob sets (the `globset`
//! crate). A compiled regex keeps the pattern text it was built from, and a glob
//! set is described by the pattern texts of its globs, so what each matches can be
//! stated in terms of that text.

use vstd::prelude::*;

verus! {

#[verifier::external_type_specification]
#[verifier::external_body]
pub struct ExRegex(regex::Regex);

#[verifier::external_type_specification]
#[verifier::external_body]
pub struct ExGlobSet(globset::GlobSet);

#[verifier::external_type_specification]
#[verifier::external_body]
pub struct ExGlobSetBuilder(globset::GlobSetBuilder);

/// The error text that `RegexBuilder::new(pattern).case_insensitive(true).build()`
/// reports for `pattern`, or none when the pattern compiles.
pub uninterp spec fn regex_build_error(pattern: Seq<char>) -> Option<Seq<char>>;

/// What `Regex::is_match` answers for the case-insensitive regex built from
/// `pattern`: whether it matches somewhere in `hay`.
pub uninterp spec fn regex_finds(pattern: Seq<char>, hay: Seq<char>) -> bool;

/// The error text that `Glob::new` reports for `pattern`, or none when it parses.
pub uninterp spec fn glob_parse_error(pattern: Seq<char>) -> Option<Seq<char>>;

/// Whether the glob `pattern` matches `path`, as `GlobSet::is_match` decides for
/// each glob of a set.
pub uninterp spec fn glob_matches(pattern: Seq<char>, path: Seq<char>) -> bool;

/// The error text that `GlobSetBuilder::build` reports for a set of these globs,
/// or none when the set builds.
pub uninterp spec fn globset_build_error(patterns: Seq<Seq<char>>) -> Option<Seq<char>>;

/// A case-insensitive regular expression together with its pattern text.
#[derive(Debug)]
pub struct CompiledRegex {
    pattern: String,
    regex: regex::Regex,
}

impl View for CompiledRegex {
    type V = Seq<char>;

    closed spec fn view(&self) -> Seq<char> {
        self.pattern@
    }
}

/// `RegexBuilder::new(pattern).case_insensitive(true).build()`; the error is
/// turned into its display text.
#[verifier::external_body]
pub(crate) fn compile_regex(pattern: &str) -> (r: Result<CompiledRegex, String>)
    ensures
        match r {
            Ok(c) => c@ == pattern@ && regex_build_error(pattern@) is None,
            Err(m) => regex_build_error(pattern@) == Some(m@),
        },
{
    regex::RegexBuilder::new(pattern)
        .case_insensitive(true)
        .build()
        .map(|regex| CompiledRegex { pattern: pattern.to_string(), regex })
        .map_err(|e| e.to_string())
}

/// `Regex::is_match`.
#[verifier::external_body]
pub(crate) fn regex_is_match(r: &CompiledRegex, hay: &str) -> (b: bool)
    ensures
        b == regex_finds(r@, hay@),
{
    r.regex.is_match(hay)
}

/// Some glob of `patterns` matches `path`: what `GlobSet::is_match` answers.
pub open spec fn set_matches(patterns: Seq<Seq<char>>, path: Seq<char>) -> bool {
    exists|i: int| 0 <= i < patterns.len() && glob_matches(#[trigger] patterns[i], path)
}

/// The pattern texts of the globs that a `GlobSetBuilder` holds, in the order
/// they were added.
pub uninterp spec fn builder_globs(b: globset::GlobSetBuilder) -> Seq<Seq<char>>;

/// The pattern texts of the globs that a `GlobSet` was built from, in order.
pub uninterp spec fn set_globs(s: globset::GlobSet) -> Seq<Seq<char>>;

/// `GlobSetBuilder::new`: a builder with no globs.
#[verifier::external_body]
pub(crate) fn new_glob_builder() -> (b: globset::GlobSetBuilder)
    ensures
        builder_globs(b) == Seq::<Seq<char>>::empty(),
{
    globset::GlobSetBuilder::new()
}

/// `Glob::new(pattern)` and, when the pattern parses, `GlobSetBuilder::add` of
/// that glob, which appends it to the builder's list; when it does not parse,
/// the error's display text and the builder unchanged.
#[verifier::external_body]
pub(crate) fn add_glob(b: &mut globset::GlobSetBuilder, pattern: &str) -> (r: Result<(), String>)
    ensures
        match r {
            Ok(_) => glob_parse_error(pattern@) is None
                && builder_globs(*final(b)) == builder_globs(*old(b)).push(pattern@),
            Err(m) => glob_parse_error(pattern@) == Some(m@)
                && builder_globs(*final(b)) == builder_globs(*old(b)),
        },
{
    let glob = globset::Glob::new(pattern).map_err(|e| e.to_string())?;
    b.add(glob);
    Ok(())
}

/// `GlobSetBuilder::build`: a set made of the builder's globs, or the error's
/// display text.
#[verifier::external_body]
pub(crate) fn build_glob_set(b: &globset::GlobSetBuilder) -> (r: Result<globset::GlobSet, String>)
    ensures
        match r {
            Ok(s) => set_globs(s) == builder_globs(*b) && globset_build_error(builder_globs(*b)) is None,
            Err(m) => globset_build_error(builder_globs(*b)) == Some(m@),
        },
{
    b.build().map_err(|e| e.to_string())
}

/// `GlobSet::is_match`: whether any glob of the set matches `path`.
#[verifier::external_body]
pub(crate) fn glob_set_is_match(s: &globset::GlobSet, path: &str) -> (r: bool)
    ensures
        r == (exists|i: int|
            0 <= i < set_globs(*s).len() && glob_matches(#[trigger] set_globs(*s)[i], path@)),
{
    s.is_match(path)
}

} // verus!

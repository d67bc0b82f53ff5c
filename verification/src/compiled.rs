//! Compiled regular expressions, each kept together with the pattern and
//! the options it was built from. A compiled expression is only ever made
//! here, by building from its settings, so what it matches is a function of
//! those settings.

use vstd::prelude::*;
use regex::{Regex, RegexBuilder};
use crate::regexp::{group_names, CaptureSpan, captures_view, strings_view, split_around};

verus! {

#[verifier::external_type_specification]
#[verifier::external_body]
pub struct ExRegex(regex::Regex);

#[verifier::external_type_specification]
#[verifier::external_body]
pub struct ExRegexError(regex::Error);

/// The regex crate's default limit on the size of a compiled expression.
pub const DEFAULT_SIZE_LIMIT: usize = 10485760;

/// The regex crate's default cache capacity of the lazy DFA.
pub const DEFAULT_DFA_SIZE_LIMIT: usize = 2097152;

/// The regex crate's default limit on how deeply a pattern nests.
pub const DEFAULT_NEST_LIMIT: u32 = 250;

/// A pattern and the value of every option a regex builder takes.
#[derive(Debug)]
pub struct BuilderSettings {
    pub pattern: String,
    pub case_insensitive: bool,
    pub dfa_size_limit: usize,
    pub dot_matches_new_line: bool,
    pub ignore_whitespace: bool,
    pub crlf: bool,
    pub line_terminator: u8,
    pub multi_line: bool,
    pub nest_limit: u32,
    pub octal: bool,
    pub size_limit: usize,
    pub unicode: bool,
}

/// The mathematical value of [`BuilderSettings`].
pub struct BuilderV {
    pub pattern: Seq<char>,
    pub case_insensitive: bool,
    pub dfa_size_limit: usize,
    pub dot_matches_new_line: bool,
    pub ignore_whitespace: bool,
    pub crlf: bool,
    pub line_terminator: u8,
    pub multi_line: bool,
    pub nest_limit: u32,
    pub octal: bool,
    pub size_limit: usize,
    pub unicode: bool,
}

impl View for BuilderSettings {
    type V = BuilderV;

    open spec fn view(&self) -> BuilderV {
        BuilderV {
            pattern: self.pattern@,
            case_insensitive: self.case_insensitive,
            dfa_size_limit: self.dfa_size_limit,
            dot_matches_new_line: self.dot_matches_new_line,
            ignore_whitespace: self.ignore_whitespace,
            crlf: self.crlf,
            line_terminator: self.line_terminator,
            multi_line: self.multi_line,
            nest_limit: self.nest_limit,
            octal: self.octal,
            size_limit: self.size_limit,
            unicode: self.unicode,
        }
    }
}

/// The settings of `pattern` with every option at the regex crate's
/// default, those `Regex::new` builds with.
pub open spec fn fresh_builder(pattern: Seq<char>) -> BuilderV {
    BuilderV {
        pattern,
        case_insensitive: false,
        dfa_size_limit: DEFAULT_DFA_SIZE_LIMIT,
        dot_matches_new_line: false,
        ignore_whitespace: false,
        crlf: false,
        line_terminator: 0x0Au8,
        multi_line: false,
        nest_limit: DEFAULT_NEST_LIMIT,
        octal: false,
        size_limit: DEFAULT_SIZE_LIMIT,
        unicode: true,
    }
}

impl BuilderSettings {
    /// The settings of `pattern` with every option at its default.
    pub fn new(pattern: &str) -> (r: Self)
        ensures
            r@ == fresh_builder(pattern@),
    {
        BuilderSettings {
            pattern: pattern.to_owned(),
            case_insensitive: false,
            dfa_size_limit: DEFAULT_DFA_SIZE_LIMIT,
            dot_matches_new_line: false,
            ignore_whitespace: false,
            crlf: false,
            line_terminator: 0x0Au8,
            multi_line: false,
            nest_limit: DEFAULT_NEST_LIMIT,
            octal: false,
            size_limit: DEFAULT_SIZE_LIMIT,
            unicode: true,
        }
    }
}

impl Clone for BuilderSettings {
    fn clone(&self) -> (r: Self)
        ensures
            r@ == self@,
    {
        BuilderSettings {
            pattern: self.pattern.clone(),
            case_insensitive: self.case_insensitive,
            dfa_size_limit: self.dfa_size_limit,
            dot_matches_new_line: self.dot_matches_new_line,
            ignore_whitespace: self.ignore_whitespace,
            crlf: self.crlf,
            line_terminator: self.line_terminator,
            multi_line: self.multi_line,
            nest_limit: self.nest_limit,
            octal: self.octal,
            size_limit: self.size_limit,
            unicode: self.unicode,
        }
    }
}

/// Whether `RegexBuilder::build` compiles a pattern with these options.
pub uninterp spec fn regex_builds(settings: BuilderV) -> bool;

/// The group names `Regex::capture_names` gives for an expression built
/// from these settings, group 0 first.
pub uninterp spec fn regex_capture_names(settings: BuilderV) -> Seq<Option<Seq<char>>>;

/// Whether `Regex::is_match` finds an expression built from these settings
/// in a text.
pub uninterp spec fn regex_finds(settings: BuilderV, haystack: Seq<char>) -> bool;

/// The pieces `Regex::split` cuts a text into.
pub uninterp spec fn regex_split(settings: BuilderV, haystack: Seq<char>) -> Seq<Seq<char>>;

/// The matches `Regex::captures_iter` finds in a text.
pub uninterp spec fn regex_captures(settings: BuilderV, haystack: Seq<char>) -> Seq<
    (int, int, Seq<Option<Seq<char>>>),
>;

/// A compiled regular expression with the settings it was built from.
#[derive(Debug)]
pub struct CompiledRegex {
    regex: Regex,
    settings: BuilderSettings,
}

impl View for CompiledRegex {
    type V = BuilderV;

    closed spec fn view(&self) -> BuilderV {
        self.settings@
    }
}

/// `RegexBuilder::new` on the pattern, told each option, then `build`; the
/// result is kept with the settings. Its source builds from the pattern
/// and the options alone, so whether it succeeds is named by
/// [`regex_builds`].
#[verifier::external_body]
fn build_with(settings: BuilderSettings) -> (r: Result<CompiledRegex, regex::Error>)
    ensures
        r is Ok == regex_builds(settings@),
        r matches Ok(c) ==> c@ == settings@,
{
    let regex = RegexBuilder::new(&settings.pattern).case_insensitive(settings.case_insensitive)
        .dfa_size_limit(settings.dfa_size_limit).dot_matches_new_line(settings.dot_matches_new_line)
        .ignore_whitespace(settings.ignore_whitespace).crlf(settings.crlf)
        .line_terminator(settings.line_terminator).multi_line(settings.multi_line)
        .nest_limit(settings.nest_limit).octal(settings.octal).size_limit(settings.size_limit)
        .unicode(settings.unicode).build()?;
    Ok(CompiledRegex { regex, settings })
}

/// `Regex::new`, which is `RegexBuilder::new(pattern).build()` with every
/// option at its default; the result is kept with the settings.
#[verifier::external_body]
fn compile_default(settings: BuilderSettings) -> (r: Result<CompiledRegex, regex::Error>)
    requires
        settings@ == fresh_builder(settings@.pattern),
    ensures
        r is Ok == regex_builds(settings@),
        r matches Ok(c) ==> c@ == settings@,
{
    let regex = Regex::new(&settings.pattern)?;
    Ok(CompiledRegex { regex, settings })
}

/// `Regex::clone`, kept with a copy of the settings; the copy shares the
/// compiled program and matches as the original does.
#[verifier::external_body]
fn clone_with(c: &CompiledRegex, settings: BuilderSettings) -> (r: CompiledRegex)
    requires
        settings@ == c@,
    ensures
        r@ == c@,
{
    CompiledRegex { regex: c.regex.clone(), settings }
}

/// `Regex::capture_names`: the name of each capture group, group 0 first.
/// The documentation promises at least one entry, the unnamed group 0.
#[verifier::external_body]
fn capture_names_of(c: &CompiledRegex) -> (r: Vec<Option<String>>)
    ensures
        group_names(r@) == regex_capture_names(c@),
        r@.len() >= 1,
        r@[0] is None,
{
    c.regex.capture_names().map(|n| n.map(|s| s.to_owned())).collect()
}

/// `Regex::is_match`: whether the expression matches somewhere in the text.
#[verifier::external_body]
fn is_match_in(c: &CompiledRegex, haystack: &str) -> (r: bool)
    ensures
        r == regex_finds(c@, haystack@),
{
    c.regex.is_match(haystack)
}

/// `Regex::split`: the parts of the text between matches, in order.
#[verifier::external_body]
fn split_of(c: &CompiledRegex, haystack: &str) -> (r: Vec<String>)
    ensures
        strings_view(r@) == regex_split(c@, haystack@),
{
    c.regex.split(haystack).map(|s| s.to_owned()).collect()
}

/// `Regex::captures_iter`: the successive non-overlapping matches, each
/// with its offsets and the text of its groups. They are the matches
/// `Regex::split` cuts the text at (both walk the same searcher over the
/// text): the pieces are the text before, between and after them, in
/// order, as [`split_around`] puts it.
#[verifier::external_body]
fn captures_of(c: &CompiledRegex, haystack: &str) -> (r: Vec<CaptureSpan>)
    ensures
        captures_view(r@) == regex_captures(c@, haystack@),
        split_around(regex_split(c@, haystack@), captures_view(r@), haystack@),
{
    c.regex.captures_iter(haystack).map(
        |m: regex::Captures| CaptureSpan {
            start: m.get_match().start(),
            end: m.get_match().end(),
            groups: m.iter().map(|g| g.map(|x| x.as_str().to_owned())).collect(),
        },
    ).collect()
}

impl CompiledRegex {
    /// Builds the pattern with the options of `settings`.
    pub fn build(settings: BuilderSettings) -> (r: Result<CompiledRegex, regex::Error>)
        ensures
            r is Ok == regex_builds(settings@),
            r matches Ok(c) ==> c@ == settings@,
    {
        build_with(settings)
    }

    /// Compiles `pattern` with the default options, as `Regex::new` does.
    pub fn new(pattern: &str) -> (r: Result<CompiledRegex, regex::Error>)
        ensures
            r is Ok == regex_builds(fresh_builder(pattern@)),
            r matches Ok(c) ==> c@ == fresh_builder(pattern@),
    {
        compile_default(BuilderSettings::new(pattern))
    }

    /// The compiled expression held.
    pub closed spec fn compiled(&self) -> Regex {
        self.regex
    }

    /// The compiled expression.
    pub fn regex(&self) -> (r: &Regex)
        ensures
            *r == self.compiled(),
    {
        &self.regex
    }

    /// The name of each capture group, group 0 first.
    pub fn capture_names(&self) -> (r: Vec<Option<String>>)
        ensures
            group_names(r@) == regex_capture_names(self@),
            r@.len() >= 1,
            r@[0] is None,
    {
        capture_names_of(self)
    }

    /// Whether the expression matches somewhere in `haystack`.
    pub fn is_match(&self, haystack: &str) -> (r: bool)
        ensures
            r == regex_finds(self@, haystack@),
    {
        is_match_in(self, haystack)
    }

    /// The parts of `haystack` between matches, in order.
    pub fn split(&self, haystack: &str) -> (r: Vec<String>)
        ensures
            strings_view(r@) == regex_split(self@, haystack@),
    {
        split_of(self, haystack)
    }

    /// The successive matches in `haystack`.
    pub fn captures(&self, haystack: &str) -> (r: Vec<CaptureSpan>)
        ensures
            captures_view(r@) == regex_captures(self@, haystack@),
            split_around(regex_split(self@, haystack@), captures_view(r@), haystack@),
    {
        captures_of(self, haystack)
    }
}

impl Clone for CompiledRegex {
    fn clone(&self) -> (r: Self)
        ensures
            r@ == self@,
    {
        clone_with(self, self.settings.clone())
    }
}

} // verus!

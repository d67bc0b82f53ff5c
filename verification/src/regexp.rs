//! Regular expressions kept together with their text and options, so they
//! can be compared, written back out, and asked about their capture groups.

use vstd::prelude::*;
use crate::boolean::{Boolean, spec_truth};
use crate::text::{str_eq, str_lt, seq_char_lt};
use crate::compiled::{BuilderSettings, BuilderV, CompiledRegex, fresh_builder, regex_builds,
    regex_capture_names, regex_finds, regex_split, regex_captures, DEFAULT_SIZE_LIMIT,
    DEFAULT_DFA_SIZE_LIMIT, DEFAULT_NEST_LIMIT};
use std::cmp::Ordering;
use regex::Regex;

verus! {

// ---------------------------------------------------------------------
// Options

/// The byte that ends a line for `^`, `$` and `.`.
#[derive(Clone, Copy, Debug, PartialEq, Eq, Structural, PartialOrd, Ord, Hash)]
pub enum LineTerminator {
    Crlf,
    Cr,
    Lf,
    Null,
}

/// A regular expression with the options it is built with; an option left
/// `None` keeps the default.
#[derive(Debug)]
pub struct RegexConfig {
    pub regexp: String,
    pub case_insensitive: Option<Boolean>,
    pub dfa_size_limit: Option<usize>,
    pub dot_matches_new_line: Option<Boolean>,
    pub ignore_whitespace: Option<Boolean>,
    pub line_terminator: Option<LineTerminator>,
    pub multi_line: Option<Boolean>,
    pub nest_limit: Option<u32>,
    pub octal: Option<Boolean>,
    pub size_limit: Option<usize>,
    pub unicode: Option<Boolean>,
}

/// The mathematical value of a [`RegexConfig`].
pub struct RegexConfigV {
    pub regexp: Seq<char>,
    pub case_insensitive: Option<Boolean>,
    pub dfa_size_limit: Option<usize>,
    pub dot_matches_new_line: Option<Boolean>,
    pub ignore_whitespace: Option<Boolean>,
    pub line_terminator: Option<LineTerminator>,
    pub multi_line: Option<Boolean>,
    pub nest_limit: Option<u32>,
    pub octal: Option<Boolean>,
    pub size_limit: Option<usize>,
    pub unicode: Option<Boolean>,
}

impl View for RegexConfig {
    type V = RegexConfigV;

    open spec fn view(&self) -> RegexConfigV {
        RegexConfigV {
            regexp: self.regexp@,
            case_insensitive: self.case_insensitive,
            dfa_size_limit: self.dfa_size_limit,
            dot_matches_new_line: self.dot_matches_new_line,
            ignore_whitespace: self.ignore_whitespace,
            line_terminator: self.line_terminator,
            multi_line: self.multi_line,
            nest_limit: self.nest_limit,
            octal: self.octal,
            size_limit: self.size_limit,
            unicode: self.unicode,
        }
    }
}

/// The configuration of the empty pattern with every option left default.
pub open spec fn default_config() -> RegexConfigV {
    RegexConfigV {
        regexp: Seq::empty(),
        case_insensitive: None,
        dfa_size_limit: None,
        dot_matches_new_line: None,
        ignore_whitespace: None,
        line_terminator: None,
        multi_line: None,
        nest_limit: None,
        octal: None,
        size_limit: None,
        unicode: None,
    }
}

impl Default for RegexConfig {
    fn default() -> (r: Self)
        ensures
            r@ == default_config(),
    {
        RegexConfig {
            regexp: String::new(),
            case_insensitive: None,
            dfa_size_limit: None,
            dot_matches_new_line: None,
            ignore_whitespace: None,
            line_terminator: None,
            multi_line: None,
            nest_limit: None,
            octal: None,
            size_limit: None,
            unicode: None,
        }
    }
}


// ---------------------------------------------------------------------
// Settings of a configuration

/// What setting a line terminator does to a builder's settings: `\r\n`
/// mode for `Crlf`, otherwise the terminating byte.
pub open spec fn with_line_terminator(b: BuilderV, t: LineTerminator) -> BuilderV {
    match t {
        LineTerminator::Crlf => BuilderV { crlf: true, ..b },
        LineTerminator::Cr => BuilderV { line_terminator: 0x0Du8, ..b },
        LineTerminator::Lf => BuilderV { line_terminator: 0x0Au8, ..b },
        LineTerminator::Null => BuilderV { line_terminator: 0x00u8, ..b },
    }
}

/// The value of an optional flag, or `default` when it is absent.
pub open spec fn flag_or(b: Option<Boolean>, default: bool) -> bool {
    match b {
        Some(v) => spec_truth(v),
        None => default,
    }
}

/// The value of an optional size, or `default` when it is absent.
pub open spec fn size_or(n: Option<usize>, default: usize) -> usize {
    match n {
        Some(v) => v,
        None => default,
    }
}

/// The settings a configuration builds with: its pattern, each option that
/// is present, every other option at its default, and its line terminator.
pub open spec fn config_builder(c: RegexConfigV) -> BuilderV {
    let set = BuilderV {
        pattern: c.regexp,
        case_insensitive: flag_or(c.case_insensitive, false),
        dfa_size_limit: size_or(c.dfa_size_limit, DEFAULT_DFA_SIZE_LIMIT),
        dot_matches_new_line: flag_or(c.dot_matches_new_line, false),
        ignore_whitespace: flag_or(c.ignore_whitespace, false),
        crlf: false,
        line_terminator: 0x0Au8,
        multi_line: flag_or(c.multi_line, false),
        nest_limit: match c.nest_limit {
            Some(n) => n,
            None => DEFAULT_NEST_LIMIT,
        },
        octal: flag_or(c.octal, false),
        size_limit: size_or(c.size_limit, DEFAULT_SIZE_LIMIT),
        unicode: flag_or(c.unicode, true),
    };
    match c.line_terminator {
        Some(t) => with_line_terminator(set, t),
        None => set,
    }
}

impl LineTerminator {
    /// Sets this line terminator on a builder's settings: `\r\n` mode for
    /// `Crlf`, otherwise the terminating byte.
    pub fn setup_builder(&self, builder: &mut BuilderSettings)
        ensures
            final(builder)@ == with_line_terminator(old(builder)@, *self),
    {
        match self {
            LineTerminator::Crlf => builder.crlf = true,
            LineTerminator::Cr => builder.line_terminator = 0x0Du8,
            LineTerminator::Lf => builder.line_terminator = 0x0Au8,
            LineTerminator::Null => builder.line_terminator = 0x00u8,
        }
    }
}

impl RegexConfig {
    /// Whether this configuration has to be written out in full: when it
    /// differs from the default one.
    pub fn requires_serialization(&self) -> (r: bool)
        ensures
            r == (self@ != default_config()),
    {
        let same = self.regexp.as_str().is_empty() && self.case_insensitive.is_none()
            && self.dfa_size_limit.is_none() && self.dot_matches_new_line.is_none()
            && self.ignore_whitespace.is_none() && self.line_terminator.is_none()
            && self.multi_line.is_none() && self.nest_limit.is_none() && self.octal.is_none()
            && self.size_limit.is_none() && self.unicode.is_none();
        proof {
            if same {
                assert(self@.regexp =~= Seq::<char>::empty());
            }
        }
        !same
    }

    /// Builds the regular expression, setting each option that is present
    /// and leaving the others at their defaults.
    pub fn build_regex(&self) -> (r: Result<CompiledRegex, regex::Error>)
        ensures
            r is Ok == regex_builds(config_builder(self@)),
            r matches Ok(c) ==> c@ == config_builder(self@),
    {
        let mut builder = BuilderSettings {
            pattern: self.regexp.clone(),
            case_insensitive: flag_value(self.case_insensitive, false),
            dfa_size_limit: size_value(self.dfa_size_limit, DEFAULT_DFA_SIZE_LIMIT),
            dot_matches_new_line: flag_value(self.dot_matches_new_line, false),
            ignore_whitespace: flag_value(self.ignore_whitespace, false),
            crlf: false,
            line_terminator: 0x0Au8,
            multi_line: flag_value(self.multi_line, false),
            nest_limit: match self.nest_limit {
                Some(n) => n,
                None => DEFAULT_NEST_LIMIT,
            },
            octal: flag_value(self.octal, false),
            size_limit: size_value(self.size_limit, DEFAULT_SIZE_LIMIT),
            unicode: flag_value(self.unicode, true),
        };
        if let Some(line_terminator) = self.line_terminator {
            line_terminator.setup_builder(&mut builder);
        }
        CompiledRegex::build(builder)
    }
}

/// The value of an optional flag, or `default` when it is absent.
fn flag_value(b: Option<Boolean>, default: bool) -> (r: bool)
    ensures
        r == flag_or(b, default),
{
    match b {
        Some(v) => v.as_bool(),
        None => default,
    }
}

/// The value of an optional size, or `default` when it is absent.
fn size_value(n: Option<usize>, default: usize) -> (r: usize)
    ensures
        r == size_or(n, default),
{
    match n {
        Some(v) => v,
        None => default,
    }
}

// ---------------------------------------------------------------------
// Capture groups

/// The capture groups of a regular expression beyond the implicit group 0,
/// each with its name if it has one.
#[derive(Clone, Debug, PartialEq, Eq)]
pub struct RegexpCaptureGroups {
    pub groups: Vec<Option<String>>,
}

/// The names of a list of groups, by position.
pub open spec fn group_names(groups: Seq<Option<String>>) -> Seq<Option<Seq<char>>> {
    Seq::new(groups.len(), |i: int| match groups[i] {
        Some(s) => Some(s@),
        None => None,
    })
}

/// Group `n` is present: group 0 always is, group `n > 0` when there are
/// at least `n` groups beyond it.
pub open spec fn group_present(len: nat, n: nat) -> bool {
    n == 0 || n - 1 < len
}

/// The number of the first group named `name`, counting from 1.
pub open spec fn first_group_named(names: Seq<Option<Seq<char>>>, name: Seq<char>) -> Option<nat>
    decreases names.len(),
{
    if names.len() == 0 {
        None
    } else if names[0] == Some(name) {
        Some(1)
    } else {
        match first_group_named(names.drop_first(), name) {
            Some(k) => Some(k + 1),
            None => None,
        }
    }
}

impl RegexpCaptureGroups {
    /// The groups of a regular expression, from its list of group names
    /// (group 0 first, as `Regex::capture_names` gives them).
    pub fn from_names(names: Vec<Option<String>>) -> (r: Self)
        requires
            names@.len() >= 1,
        ensures
            group_names(r.groups@) == group_names(names@).drop_first(),
    {
        let mut groups: Vec<Option<String>> = Vec::new();
        let mut i: usize = 1;
        while i < names.len()
            invariant
                1 <= i <= names@.len(),
                groups@.len() == i - 1,
                forall|j: int| 0 <= j < i - 1 ==> #[trigger] groups@[j] == names@[j + 1],
            decreases names.len() - i,
        {
            let g = match &names[i] {
                Some(s) => Some(s.clone()),
                None => None,
            };
            groups.push(g);
            i = i + 1;
        }
        assert(group_names(groups@) =~= group_names(names@).drop_first());
        RegexpCaptureGroups { groups }
    }

    /// Whether there are capture groups beyond the implicit group 0.
    pub fn has_capture_groups(&self) -> (r: bool)
        ensures
            r == (self.groups@.len() > 0),
    {
        self.groups.len() != 0
    }

    /// Whether some group is called `name`.
    pub fn has_name(&self, name: &str) -> (r: bool)
        ensures
            r == group_names(self.groups@).contains(Some(name@)),
    {
        let ghost names = group_names(self.groups@);
        let mut i: usize = 0;
        while i < self.groups.len()
            invariant
                names == group_names(self.groups@),
                i <= self.groups@.len(),
                forall|j: int| 0 <= j < i ==> names[j] != Some(name@),
            decreases self.groups.len() - i,
        {
            match &self.groups[i] {
                Some(s) => {
                    if str_eq(s.as_str(), name) {
                        assert(names[i as int] == Some(name@));
                        return true;
                    }
                },
                None => {},
            }
            i = i + 1;
        }
        false
    }

    /// Whether group `group` exists; group 0 always does.
    pub fn has_group(&self, group: usize) -> (r: bool)
        ensures
            r == group_present(self.groups@.len(), group as nat),
    {
        if group == 0 {
            return true;
        }
        group - 1 < self.groups.len()
    }

    /// The number of the first group called `name`, counting from 1.
    pub fn name_to_group_number(&self, name: &str) -> (r: Option<usize>)
        ensures
            match first_group_named(group_names(self.groups@), name@) {
                Some(k) => r == Some(k as usize),
                None => r is None,
            },
    {
        let ghost names = group_names(self.groups@);
        let mut i: usize = 0;
        assert(names.skip(0) =~= names);
        while i < self.groups.len()
            invariant
                names == group_names(self.groups@),
                i <= self.groups@.len(),
                first_group_named(names, name@) == match first_group_named(
                    names.skip(i as int),
                    name@,
                ) {
                    Some(k) => Some((k + i) as nat),
                    None => None,
                },
            decreases self.groups.len() - i,
        {
            assert(names.skip(i as int).drop_first() =~= names.skip(i + 1));
            assert(names.skip(i as int)[0] == names[i as int]);
            match &self.groups[i] {
                Some(s) => {
                    if str_eq(s.as_str(), name) {
                        return Some(i + 1);
                    }
                },
                None => {},
            }
            i = i + 1;
        }
        assert(names.skip(i as int).len() == 0);
        None
    }
}

// ---------------------------------------------------------------------
// Compiled expressions

/// The mathematical value of a [`Regexp`]: its pattern and, when it was
/// built from a configuration other than the default one, that
/// configuration. These determine what the expression matches.
pub struct RegexpV {
    pub source: Seq<char>,
    pub options: Option<RegexConfigV>,
}

/// The settings an expression is built with: those of its configuration,
/// or its pattern with the default options when no configuration is kept.
pub open spec fn regexp_settings(v: RegexpV) -> BuilderV {
    match v.options {
        Some(c) => config_builder(c),
        None => fresh_builder(v.source),
    }
}

/// A compiled regular expression together with its pattern, its capture
/// groups and, when they differ from the default, the options it was built
/// with. Equality is by pattern.
#[derive(Debug)]
pub struct Regexp {
    source: String,
    regexp: CompiledRegex,
    caps: RegexpCaptureGroups,
    opts: Option<Box<RegexConfig>>,
}

impl View for Regexp {
    type V = RegexpV;

    closed spec fn view(&self) -> RegexpV {
        RegexpV {
            source: self.source@,
            options: match self.opts {
                Some(c) => Some((*c)@),
                None => None,
            },
        }
    }
}

impl Regexp {
    /// The compiled expression was built from the pattern and options kept.
    #[verifier::type_invariant]
    spec fn built_from_view(self) -> bool {
        self.regexp@ == regexp_settings(self@)
    }
}

/// One match of an expression in a text: where it starts and ends (byte
/// offsets), and the text of each capture group, group 0 first.
#[derive(Clone, Debug, PartialEq, Eq)]
pub struct CaptureSpan {
    pub start: usize,
    pub end: usize,
    pub groups: Vec<Option<String>>,
}

/// The mathematical value of a [`CaptureSpan`].
pub open spec fn capture_view(c: CaptureSpan) -> (int, int, Seq<Option<Seq<char>>>) {
    (c.start as int, c.end as int, group_names(c.groups@))
}

/// The mathematical values of a list of matches.
pub open spec fn captures_view(cs: Seq<CaptureSpan>) -> Seq<(int, int, Seq<Option<Seq<char>>>)> {
    Seq::new(cs.len(), |i: int| capture_view(cs[i]))
}

/// The text each match covers: its group 0.
pub open spec fn match_texts(cs: Seq<(int, int, Seq<Option<Seq<char>>>)>) -> Seq<Seq<char>> {
    Seq::new(cs.len(), |i: int| cs[i].2[0]->0)
}

/// Pieces with what stands between them, alternately, from piece `i` on:
/// piece `i`, then the text after it if there is one, and so on.
pub open spec fn weave(pieces: Seq<Seq<char>>, mids: Seq<Seq<char>>, i: nat) -> Seq<char>
    decreases pieces.len() - i,
{
    if i >= pieces.len() {
        Seq::empty()
    } else if i < mids.len() {
        pieces[i as int] + mids[i as int] + weave(pieces, mids, i + 1)
    } else {
        pieces[i as int] + weave(pieces, mids, i + 1)
    }
}

/// Where the text before match `i` starts: at the start of the text, or
/// where match `i - 1` ends (byte offsets).
pub open spec fn gap_start(cs: Seq<(int, int, Seq<Option<Seq<char>>>)>, i: int) -> int {
    if i == 0 {
        0
    } else {
        cs[i - 1].1
    }
}

/// How the pieces of a text stand around its matches: one piece more than
/// there are matches; each match has its group 0; the matches come in
/// order and do not overlap; a piece is empty exactly when the match after
/// it starts where the one before it ends; and the pieces with the matched
/// texts between them make up the text.
pub open spec fn split_around(
    pieces: Seq<Seq<char>>,
    cs: Seq<(int, int, Seq<Option<Seq<char>>>)>,
    haystack: Seq<char>,
) -> bool {
    &&& pieces.len() == cs.len() + 1
    &&& forall|i: int| 0 <= i < cs.len() ==> (#[trigger] cs[i]).2.len() >= 1 && cs[i].2[0] is Some
    &&& forall|i: int| 0 <= i < cs.len() ==> gap_start(cs, i) <= (#[trigger] cs[i]).0 <= cs[i].1
    &&& forall|i: int| 0 <= i < cs.len() ==> ((#[trigger] pieces[i]).len() == 0 <==> gap_start(cs, i) == cs[i].0)
    &&& weave(pieces, match_texts(cs), 0) == haystack
}

/// The characters of a list of strings.
pub open spec fn strings_view(ss: Seq<String>) -> Seq<Seq<char>> {
    Seq::new(ss.len(), |i: int| ss[i]@)
}

impl Regexp {
    /// The names of the capture groups beyond group 0.
    pub closed spec fn group_names_spec(&self) -> Seq<Option<Seq<char>>> {
        group_names(self.caps.groups@)
    }

    /// Compiles a pattern with the default options.
    pub fn new(pattern: &str) -> (r: Result<Regexp, regex::Error>)
        ensures
            r is Ok == regex_builds(fresh_builder(pattern@)),
            r matches Ok(re) ==> re@ == (RegexpV { source: pattern@, options: None }),
            r matches Ok(re) ==> re.group_names_spec() == regex_capture_names(
                fresh_builder(pattern@),
            ).drop_first(),
    {
        let regexp = CompiledRegex::new(pattern)?;
        let names = regexp.capture_names();
        let re = Regexp {
            source: pattern.to_owned(),
            regexp,
            caps: RegexpCaptureGroups::from_names(names),
            opts: None,
        };
        Ok(re)
    }

    /// Builds an expression from a configuration; the configuration is kept
    /// when it differs from the default one.
    pub fn with_config(config: RegexConfig) -> (r: Result<Regexp, regex::Error>)
        ensures
            r is Ok == regex_builds(config_builder(config@)),
            r matches Ok(re) ==> re@ == (RegexpV {
                source: config@.regexp,
                options: if config@ != default_config() {
                    Some(config@)
                } else {
                    None
                },
            }),
            r matches Ok(re) ==> re.group_names_spec() == regex_capture_names(
                config_builder(config@),
            ).drop_first(),
    {
        let regexp = config.build_regex()?;
        let keep = config.requires_serialization();
        let source = config.regexp.clone();
        proof {
            if !keep {
                assert(config@ == default_config());
                assert(config_builder(config@) == fresh_builder(config@.regexp));
            }
        }
        let opts = if keep {
            Some(Box::new(config))
        } else {
            None
        };
        let names = regexp.capture_names();
        let re = Regexp {
            source,
            regexp,
            caps: RegexpCaptureGroups::from_names(names),
            opts,
        };
        Ok(re)
    }

    /// The compiled expression held, the one that [`Regexp::is_match`],
    /// [`Regexp::split_pieces`] and [`Regexp::captures`] run.
    pub closed spec fn compiled(&self) -> Regex {
        self.regexp.compiled()
    }

    /// The settings the expression was built with.
    pub closed spec fn settings(&self) -> BuilderV {
        self.regexp@
    }

    /// The compiled expression.
    pub fn regexp(&self) -> (r: &Regex)
        ensures
            *r == self.compiled(),
            self.settings() == regexp_settings(self@),
    {
        proof {
            use_type_invariant(self);
        }
        self.regexp.regex()
    }

    /// The capture groups.
    pub fn capture_group_info(&self) -> (r: &RegexpCaptureGroups)
        ensures
            group_names(r.groups@) == self.group_names_spec(),
    {
        &self.caps
    }

    /// The pattern.
    pub fn as_str(&self) -> (r: &str)
        ensures
            r@ == self@.source,
    {
        self.source.as_str()
    }

    /// The configuration to write out in full, if there is one that differs
    /// from the default.
    pub fn should_serialize_opts(&self) -> (r: Option<&RegexConfig>)
        ensures
            r is Some == (self@.options is Some && self@.options->0 != default_config()),
            r matches Some(c) ==> Some(c@) == self@.options,
    {
        match &self.opts {
            Some(c) => {
                if c.requires_serialization() {
                    Some(&**c)
                } else {
                    None
                }
            },
            None => None,
        }
    }

    /// Whether the expression matches somewhere in `haystack`.
    pub fn is_match(&self, haystack: &str) -> (r: bool)
        ensures
            r == regex_finds(regexp_settings(self@), haystack@),
    {
        proof {
            use_type_invariant(self);
        }
        self.regexp.is_match(haystack)
    }

    /// The parts of `haystack` between matches, in order.
    pub fn split_pieces(&self, haystack: &str) -> (r: Vec<String>)
        ensures
            strings_view(r@) == regex_split(regexp_settings(self@), haystack@),
    {
        proof {
            use_type_invariant(self);
        }
        self.regexp.split(haystack)
    }

    /// The successive matches in `haystack`.
    pub fn captures(&self, haystack: &str) -> (r: Vec<CaptureSpan>)
        ensures
            captures_view(r@) == regex_captures(regexp_settings(self@), haystack@),
            split_around(regex_split(regexp_settings(self@), haystack@), captures_view(r@), haystack@),
    {
        proof {
            use_type_invariant(self);
        }
        self.regexp.captures(haystack)
    }
}

impl Clone for RegexConfig {
    fn clone(&self) -> (r: Self)
        ensures
            r@ == self@,
    {
        RegexConfig {
            regexp: self.regexp.clone(),
            case_insensitive: self.case_insensitive,
            dfa_size_limit: self.dfa_size_limit,
            dot_matches_new_line: self.dot_matches_new_line,
            ignore_whitespace: self.ignore_whitespace,
            line_terminator: self.line_terminator,
            multi_line: self.multi_line,
            nest_limit: self.nest_limit,
            octal: self.octal,
            size_limit: self.size_limit,
            unicode: self.unicode,
        }
    }
}

impl Clone for Regexp {
    fn clone(&self) -> (r: Self)
        ensures
            r@ == self@,
    {
        proof {
            use_type_invariant(self);
        }
        let opts = match &self.opts {
            Some(c) => Some(Box::new((**c).clone())),
            None => None,
        };
        Regexp {
            source: self.source.clone(),
            regexp: self.regexp.clone(),
            caps: self.caps.clone(),
            opts,
        }
    }
}

/// How an expression is written in a configuration: its pattern alone, or
/// a configuration with options.
#[derive(Debug)]
pub enum RegexSource {
    Complex(RegexConfig),
    Default(String),
}

impl Regexp {
    /// Builds an expression as it was written: a pattern with the default
    /// options, or a configuration.
    pub fn from_source(source: RegexSource) -> (r: Result<Regexp, regex::Error>)
        ensures
            source matches RegexSource::Default(p) ==> (r is Ok == regex_builds(fresh_builder(p@))),
            source matches RegexSource::Default(p) ==> (r matches Ok(re) ==> re@ == (RegexpV { source: p@, options: None })),
            source matches RegexSource::Complex(c) ==> (r is Ok == regex_builds(config_builder(c@))),
            source matches RegexSource::Complex(c) ==> (r matches Ok(re) ==> re@ == (RegexpV {
                source: c@.regexp,
                options: if c@ != default_config() {
                    Some(c@)
                } else {
                    None
                },
            })),
            r matches Ok(re) ==> re.group_names_spec() == regex_capture_names(regexp_settings(re@)).drop_first(),
    {
        match source {
            RegexSource::Default(p) => Regexp::new(p.as_str()),
            RegexSource::Complex(c) => Regexp::with_config(c),
        }
    }
}

/// Whether `pattern` matches somewhere in `input`; a pattern that does not
/// compile is an error.
pub fn regex_match(input: &str, pattern: &str) -> (r: Result<bool, regex::Error>)
    ensures
        r is Ok == regex_builds(fresh_builder(pattern@)),
        r matches Ok(b) ==> b == regex_finds(fresh_builder(pattern@), input@),
{
    let re = Regexp::new(pattern)?;
    Ok(re.is_match(input))
}

impl PartialEq for Regexp {
    fn eq(&self, other: &Self) -> (r: bool) {
        str_eq(self.source.as_str(), other.source.as_str())
    }
}

impl Eq for Regexp {
}

impl PartialOrd for Regexp {
    fn partial_cmp(&self, other: &Self) -> (r: Option<Ordering>) {
        if str_eq(self.source.as_str(), other.source.as_str()) {
            Some(Ordering::Equal)
        } else if str_lt(self.source.as_str(), other.source.as_str()) {
            Some(Ordering::Less)
        } else {
            Some(Ordering::Greater)
        }
    }
}

impl vstd::std_specs::cmp::PartialOrdSpecImpl for Regexp {
    open spec fn obeys_partial_cmp_spec() -> bool {
        true
    }

    open spec fn partial_cmp_spec(&self, other: &Self) -> Option<Ordering> {
        if self@.source == other@.source {
            Some(Ordering::Equal)
        } else if seq_char_lt(self@.source, other@.source) {
            Some(Ordering::Less)
        } else {
            Some(Ordering::Greater)
        }
    }
}

impl vstd::std_specs::cmp::PartialEqSpecImpl for Regexp {
    open spec fn obeys_eq_spec() -> bool {
        true
    }

    open spec fn eq_spec(&self, other: &Self) -> bool {
        self@.source == other@.source
    }
}

/// Each option of a configuration reaches the builder setting of the same
/// name: a flag that is set gives its truth value and an absent one the
/// regex crate's default, a size or nesting limit that is set is passed
/// on as it is, the line terminator chooses `\r\n` mode or the
/// terminating byte, and the pattern is the configuration's.
pub proof fn law_config_options_reach_builder(c: RegexConfigV)
    ensures
        config_builder(c).pattern == c.regexp,
        c.case_insensitive matches Some(b) ==> config_builder(c).case_insensitive == (b == Boolean::True),
        c.case_insensitive is None ==> !config_builder(c).case_insensitive,
        c.dot_matches_new_line matches Some(b) ==> config_builder(c).dot_matches_new_line == (b
            == Boolean::True),
        c.dot_matches_new_line is None ==> !config_builder(c).dot_matches_new_line,
        c.ignore_whitespace matches Some(b) ==> config_builder(c).ignore_whitespace == (b
            == Boolean::True),
        c.ignore_whitespace is None ==> !config_builder(c).ignore_whitespace,
        c.multi_line matches Some(b) ==> config_builder(c).multi_line == (b == Boolean::True),
        c.multi_line is None ==> !config_builder(c).multi_line,
        c.octal matches Some(b) ==> config_builder(c).octal == (b == Boolean::True),
        c.octal is None ==> !config_builder(c).octal,
        c.unicode matches Some(b) ==> config_builder(c).unicode == (b == Boolean::True),
        c.unicode is None ==> config_builder(c).unicode,
        c.dfa_size_limit matches Some(n) ==> config_builder(c).dfa_size_limit == n,
        c.dfa_size_limit is None ==> config_builder(c).dfa_size_limit == DEFAULT_DFA_SIZE_LIMIT,
        c.size_limit matches Some(n) ==> config_builder(c).size_limit == n,
        c.size_limit is None ==> config_builder(c).size_limit == DEFAULT_SIZE_LIMIT,
        c.nest_limit matches Some(n) ==> config_builder(c).nest_limit == n,
        c.nest_limit is None ==> config_builder(c).nest_limit == DEFAULT_NEST_LIMIT,
        c.line_terminator == Some(LineTerminator::Crlf) ==> config_builder(c).crlf
            && config_builder(c).line_terminator == 0x0Au8,
        c.line_terminator == Some(LineTerminator::Cr) ==> !config_builder(c).crlf
            && config_builder(c).line_terminator == 0x0Du8,
        c.line_terminator == Some(LineTerminator::Lf) ==> !config_builder(c).crlf
            && config_builder(c).line_terminator == 0x0Au8,
        c.line_terminator == Some(LineTerminator::Null) ==> !config_builder(c).crlf
            && config_builder(c).line_terminator == 0x00u8,
        c.line_terminator is None ==> !config_builder(c).crlf && config_builder(c).line_terminator
            == 0x0Au8,
        c == default_config() ==> config_builder(c) == fresh_builder(c.regexp),
{
}

/// Setting a line terminator changes nothing but `\r\n` mode (for `Crlf`)
/// or the terminating byte (for the others).
pub proof fn law_line_terminator_setting(b: BuilderV, t: LineTerminator)
    ensures
        with_line_terminator(b, t).pattern == b.pattern,
        with_line_terminator(b, t).case_insensitive == b.case_insensitive,
        with_line_terminator(b, t).dot_matches_new_line == b.dot_matches_new_line,
        with_line_terminator(b, t).ignore_whitespace == b.ignore_whitespace,
        with_line_terminator(b, t).multi_line == b.multi_line,
        with_line_terminator(b, t).unicode == b.unicode,
        t == LineTerminator::Crlf ==> with_line_terminator(b, t).crlf
            && with_line_terminator(b, t).line_terminator == b.line_terminator,
        t != LineTerminator::Crlf ==> with_line_terminator(b, t).crlf == b.crlf,
        t == LineTerminator::Cr ==> with_line_terminator(b, t).line_terminator == 0x0Du8,
        t == LineTerminator::Lf ==> with_line_terminator(b, t).line_terminator == 0x0Au8,
        t == LineTerminator::Null ==> with_line_terminator(b, t).line_terminator == 0x00u8,
{
}

} // verus!

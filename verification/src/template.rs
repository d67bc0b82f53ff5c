//! Template and expression strings, checked when they are read so that a
//! configuration with a broken template is refused up front.

use vstd::prelude::*;
use crate::text::{chars_of, push_text};

verus! {

#[verifier::external_type_specification]
#[verifier::external_body]
pub struct ExTemplateError(minijinja::Error);

/// Whether a default environment compiles `s` as an expression.
pub uninterp spec fn expression_compiles(s: Seq<char>) -> bool;

/// Whether a default environment compiles `s` as a template.
pub uninterp spec fn template_compiles(s: Seq<char>) -> bool;

/// `Environment::compile_expression` in a new default environment; the
/// compiled expression is dropped. Which strings compile is named by
/// [`expression_compiles`].
#[verifier::external_body]
fn compile_expression_in_default(arg: &str) -> (r: Result<(), minijinja::Error>)
    ensures
        r is Ok == expression_compiles(arg@),
{
    minijinja::Environment::new().compile_expression(arg).map(|_| ())
}

/// `Environment::template_from_str` in a new default environment; the
/// compiled template is dropped. Which strings compile is named by
/// [`template_compiles`].
#[verifier::external_body]
fn template_from_str_in_default(arg: &str) -> (r: Result<(), minijinja::Error>)
    ensures
        r is Ok == template_compiles(arg@),
{
    minijinja::Environment::new().template_from_str(arg).map(|_| ())
}

/// Checks that `arg` is a valid expression.
pub fn is_valid_expression(arg: &str) -> (r: Result<(), minijinja::Error>)
    ensures
        r is Ok == expression_compiles(arg@),
{
    compile_expression_in_default(arg)
}

/// Checks that `arg` is a valid template.
pub fn is_valid_template(arg: &str) -> (r: Result<(), minijinja::Error>)
    ensures
        r is Ok == template_compiles(arg@),
{
    template_from_str_in_default(arg)
}

/// The expression that tests whether a variable is defined:
/// `<name> is defined`.
pub fn defined_check_expression(name: &str) -> (r: String)
    ensures
        r@ == name@ + " is defined"@,
{
    let mut arg = String::new();
    push_text(&mut arg, name);
    push_text(&mut arg, " is defined");
    assert(arg@ =~= name@ + " is defined"@);
    arg
}

/// An expression string that compiles.
#[derive(Clone, Debug)]
pub struct Expression {
    data: String,
}

impl Expression {
    /// The expression text.
    pub closed spec fn text(&self) -> Seq<char> {
        self.data@
    }

    /// Keeps `data` as an expression if it compiles.
    pub fn new(data: String) -> (r: Result<Expression, minijinja::Error>)
        ensures
            r is Ok == expression_compiles(data@),
            r matches Ok(e) ==> e.text() == data@,
    {
        is_valid_expression(data.as_str())?;
        Ok(Expression { data })
    }

    /// The expression, unexpanded.
    pub fn as_str(&self) -> (r: &str)
        ensures
            r@ == self.text(),
    {
        self.data.as_str()
    }
}

/// A template string that compiles.
#[derive(Clone, Debug, PartialEq, Eq, PartialOrd, Ord, Hash)]
pub struct Template {
    data: String,
}

impl Template {
    /// The template text.
    pub closed spec fn text(&self) -> Seq<char> {
        self.data@
    }

    /// Keeps `data` as a template if it compiles.
    pub fn new(data: String) -> (r: Result<Template, minijinja::Error>)
        ensures
            r is Ok == template_compiles(data@),
            r matches Ok(t) ==> t.text() == data@,
    {
        is_valid_template(data.as_str())?;
        Ok(Template { data })
    }

    /// The template, unexpanded.
    pub fn as_str(&self) -> (r: &str)
        ensures
            r@ == self.text(),
    {
        self.data.as_str()
    }
}

/// Whether `s` contains the two characters `a` and `b` next to each other.
pub open spec fn contains_pair(s: Seq<char>, a: char, b: char) -> bool {
    exists|i: int| #[trigger] pair_at(s, i, a, b)
}

/// `a` stands at position `i` of `s` and `b` right after it.
pub open spec fn pair_at(s: Seq<char>, i: int, a: char, b: char) -> bool {
    0 <= i && i + 1 < s.len() && s[i] == a && s[i + 1] == b
}

/// Whether a string holds at least one pair of `{% %}` or of `{{ }}`.
pub open spec fn looks_like_template(s: Seq<char>) -> bool {
    (contains_pair(s, '{', '%') && contains_pair(s, '%', '}')) || (contains_pair(s, '{', '{')
        && contains_pair(s, '}', '}'))
}

fn has_pair(cs: &Vec<char>, a: char, b: char) -> (r: bool)
    ensures
        r == contains_pair(cs@, a, b),
{
    let mut i: usize = 0;
    while i < cs.len() && i + 1 < cs.len()
        invariant
            i <= cs@.len(),
            forall|k: int| 0 <= k < i ==> !#[trigger] pair_at(cs@, k, a, b),
        decreases cs.len() - i,
    {
        if cs[i] == a && cs[i + 1] == b {
            assert(pair_at(cs@, i as int, a, b));
            return true;
        }
        i = i + 1;
    }
    false
}

/// Whether a string is read as a template rather than a plain string.
pub fn is_template_text(arg: &str) -> (r: bool)
    ensures
        r == looks_like_template(arg@),
{
    let cs = chars_of(arg);
    (has_pair(&cs, '{', '%') && has_pair(&cs, '%', '}')) || (has_pair(&cs, '{', '{') && has_pair(
        &cs,
        '}',
        '}',
    ))
}

/// A plain string, or a template when the string holds template markup.
#[derive(Clone, Debug, PartialEq, Eq, PartialOrd, Ord, Hash)]
pub enum StringOrTemplate {
    String(String),
    Template(Template),
}

impl StringOrTemplate {
    /// Reads `data` as a template when it holds at least one pair of
    /// `{% %}` or `{{ }}` (and then it must compile), else as a plain string.
    pub fn new(data: String) -> (r: Result<StringOrTemplate, minijinja::Error>)
        ensures
            !looks_like_template(data@) ==> (r matches Ok(StringOrTemplate::String(s)) && s@
                == data@),
            looks_like_template(data@) ==> (r is Ok == template_compiles(data@)),
            looks_like_template(data@) ==> (r matches Ok(v) ==> (v matches StringOrTemplate::Template(
                t,
            ) && t.text() == data@)),
    {
        if is_template_text(data.as_str()) {
            Ok(StringOrTemplate::Template(Template::new(data)?))
        } else {
            Ok(StringOrTemplate::String(data))
        }
    }

    /// Whether this is a plain string.
    pub fn is_string(&self) -> (r: bool)
        ensures
            r == (self is String),
    {
        match self {
            StringOrTemplate::String(_) => true,
            _ => false,
        }
    }

    /// Whether this is a template.
    pub fn is_template(&self) -> (r: bool)
        ensures
            r == (self is Template),
    {
        match self {
            StringOrTemplate::Template(_) => true,
            _ => false,
        }
    }

    /// The text, unexpanded.
    pub fn as_str(&self) -> (r: &str)
        ensures
            r@ == match self {
                StringOrTemplate::String(s) => s@,
                StringOrTemplate::Template(t) => t.text(),
            },
    {
        match self {
            StringOrTemplate::String(s) => s.as_str(),
            StringOrTemplate::Template(t) => t.as_str(),
        }
    }
}

/// A value that applies only when its condition, if it has one, holds.
#[derive(Clone, Debug)]
pub struct When<T> {
    pub when: Option<Expression>,
    pub data: T,
}

impl<T> When<T> {
    /// The value, given whether the condition evaluated to a true value
    /// (which is not consulted when there is no condition): the value when
    /// there is no condition or it holds, else nothing.
    pub fn interior_given(&self, condition_holds: bool) -> (r: Option<&T>)
        ensures
            (self.when is None || condition_holds) ==> r == Some(&self.data),
            (self.when is Some && !condition_holds) ==> r is None,
    {
        match &self.when {
            Some(_) => {
                if condition_holds {
                    Some(&self.data)
                } else {
                    None
                }
            },
            None => Some(&self.data),
        }
    }
}

} // verus!

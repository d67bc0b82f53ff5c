//! The parts of a chat-completion request, and the decisions of their
//! hand-written wire formats.

use vstd::prelude::*;
use crate::openrouter::providers::Provider;
use crate::openrouter::response::ToolCall;
use crate::openrouter::wire::{WireError, opt_is, unexpected_type, missing_field};
use crate::text::str_eq;

verus! {

/// One or more sequences at which generation stops.
#[derive(Clone, Debug, PartialEq, Eq, Hash)]
pub enum Stop {
    Single(String),
    Multiple(Vec<String>),
}

/// The output format a request can force; written as
/// `{"type": "json_object"}`.
#[derive(Clone, Copy, Debug, PartialEq, Eq, Structural, Hash)]
pub enum ResponseFormat {
    JsonObject,
}

impl ResponseFormat {
    /// The value of the `type` field that stands for this format.
    pub fn type_tag(&self) -> (r: &'static str)
        ensures
            r@ == "json_object"@,
    {
        "json_object"
    }

    /// Reads the format from the `type` field of its map, if one was
    /// present: only `json_object` is accepted.
    pub fn from_type_field(type_value: &Option<String>) -> (r: Result<ResponseFormat, WireError>)
        ensures
            (type_value is Some && type_value->0@ == "json_object"@) ==> r matches Ok(
                ResponseFormat::JsonObject,
            ),
            !(type_value is Some && type_value->0@ == "json_object"@) ==> (r matches Err(WireError::UnexpectedType(t)) && t@ == "json_object"@),
    {
        if opt_is(type_value, "json_object") {
            Ok(ResponseFormat::JsonObject)
        } else {
            Err(unexpected_type("json_object"))
        }
    }
}

/// A predicted output; written as `{"type": "content", "content": ...}`.
#[derive(Debug, PartialEq, Eq, Clone, Hash)]
pub struct Prediction {
    pub content: String,
}

impl Prediction {
    /// Reads a prediction from the `type` and `content` fields of its map:
    /// the tag must be `content`, then the content must be present.
    pub fn from_fields(type_value: &Option<String>, content: Option<String>) -> (r: Result<
        Prediction,
        WireError,
    >)
        ensures
            !(type_value is Some && type_value->0@ == "content"@) ==> (r matches Err(WireError::UnexpectedType(t)) && t@ == "content"@),
            (type_value is Some && type_value->0@ == "content"@) ==> match content {
                Some(c) => r matches Ok(p) && p.content == c,
                None => r matches Err(WireError::MissingField(f)) && f@ == "content"@,
            },
    {
        if !opt_is(type_value, "content") {
            return Err(unexpected_type("content"));
        }
        match content {
            Some(c) => Ok(Prediction { content: c }),
            None => Err(missing_field("content")),
        }
    }
}

/// The only routing mode, written `fallback`.
#[derive(Debug, PartialEq, Eq, Structural, Clone, Copy, Hash)]
pub enum Route {
    Fallback,
}

/// How requests are routed among providers.
#[derive(Debug, Default, PartialEq, Eq, Clone, Hash)]
pub struct ProviderPreferences {
    /// Whether backup providers may serve the request.
    pub allow_fallbacks: Option<bool>,
    /// Whether only providers that support every given parameter are used.
    pub require_parameters: Option<bool>,
    pub data_collection: Option<DataCollection>,
    /// Providers to try, in order.
    pub order: Vec<Provider>,
    /// Providers to leave out.
    pub ignore: Vec<Provider>,
    pub quantizations: Vec<Quantization>,
    pub sort: Option<Sorting>,
}

/// Whether providers that store user data may serve the request.
#[derive(Clone, Copy, Debug, Default, PartialEq, Eq, Structural, Hash)]
pub enum DataCollection {
    #[default]
    Allow,
    Deny,
}

/// Quantization levels providers can be filtered by.
#[derive(Clone, Copy, Debug, PartialEq, Eq, Structural, Hash)]
pub enum Quantization {
    Int8,
    Fp6,
    Int4,
    Fp8,
    Fp16,
    Bf16,
    Fp32,
    Unknown,
}

/// How providers are ranked when no order is given.
#[derive(Clone, Copy, Debug, PartialEq, Eq, Structural, Hash)]
pub enum Sorting {
    Price,
    Throughput,
    Latency,
}

/// A message of the chat history, tagged by role.
#[derive(Clone, Debug, PartialEq, Eq, Hash)]
pub enum Message {
    User { content: Content, name: Option<String>, cache_control: Option<CacheControl> },
    Assistant {
        content: Option<Content>,
        name: Option<String>,
        tool_calls: Option<Vec<ToolCall>>,
    },
    System { content: Content, name: Option<String>, cache_control: Option<CacheControl> },
    Tool { content: String, tool_call_id: String, name: Option<String> },
}

/// The content of a non-tool message: plain text or a list of parts.
#[derive(Clone, Debug, PartialEq, Eq, Hash)]
pub enum Content {
    Plain(String),
    Parts(Vec<ContentPart>),
}

/// A part of a message: text, an image, or a file.
#[derive(Clone, Debug, PartialEq, Eq, Hash)]
pub enum ContentPart {
    Text { text: String },
    ImageUrl { image_url: ImageUrl },
    File { filename: String, file_data: String },
}

/// An image, by URL or as encoded data.
#[derive(Clone, Debug, PartialEq, Eq, Hash)]
pub struct ImageUrl {
    pub url: String,
    /// Level of detail; `auto` when absent.
    pub detail: Option<String>,
}

/// A part carries nothing: all of its text is empty.
pub open spec fn part_is_empty(p: ContentPart) -> bool {
    match p {
        ContentPart::Text { text } => text@.len() == 0,
        ContentPart::ImageUrl { image_url } => image_url.url@.len() == 0 && match image_url.detail {
            None => true,
            Some(d) => d@.len() == 0,
        },
        ContentPart::File { filename, file_data } => filename@.len() == 0 && file_data@.len()
            == 0,
    }
}

/// Content carries nothing: it is absent, empty text, or parts that all
/// carry nothing.
pub open spec fn content_is_empty(c: Option<Content>) -> bool {
    match c {
        None => true,
        Some(Content::Plain(s)) => s@.len() == 0,
        Some(Content::Parts(ps)) => parts_are_empty(ps@),
    }
}

/// Every part carries nothing.
pub open spec fn parts_are_empty(ps: Seq<ContentPart>) -> bool {
    forall|i: int| 0 <= i < ps.len() ==> #[trigger] part_is_empty(ps[i])
}

fn part_empty(p: &ContentPart) -> (r: bool)
    ensures
        r == part_is_empty(*p),
{
    match p {
        ContentPart::Text { text } => text.as_str().is_empty(),
        ContentPart::ImageUrl { image_url } => {
            image_url.url.as_str().is_empty() && match &image_url.detail {
                None => true,
                Some(d) => d.as_str().is_empty(),
            }
        },
        ContentPart::File { filename, file_data } => filename.as_str().is_empty()
            && file_data.as_str().is_empty(),
    }
}

/// Whether the content of an assistant message is left out when it is
/// written: when it carries nothing.
pub fn skip_content_if_empty(content: &Option<Content>) -> (r: bool)
    ensures
        r == content_is_empty(*content),
{
    match content {
        None => true,
        Some(Content::Plain(c)) => c.as_str().is_empty(),
        Some(Content::Parts(p)) => {
            let mut i: usize = 0;
            while i < p.len()
                invariant
                    *content == Some(Content::Parts(*p)),
                    i <= p@.len(),
                    forall|j: int| 0 <= j < i ==> #[trigger] part_is_empty(p@[j]),
                decreases p.len() - i,
            {
                if !part_empty(&p[i]) {
                    assert(!parts_are_empty(p@));
                    return false;
                }
                i = i + 1;
            }
            true
        },
    }
}

/// Whether an image's detail is left out when it is written: when it is
/// absent or `auto`.
pub fn is_auto(detail: &Option<String>) -> (r: bool)
    ensures
        r == match *detail {
            None => true,
            Some(d) => d@ == "auto"@,
        },
{
    match detail {
        None => true,
        Some(d) => str_eq(d.as_str(), "auto"),
    }
}

/// A function the model may call; written as
/// `{"type": "function", "function": ...}`.
#[derive(Clone, Debug, PartialEq, Eq, Hash)]
pub struct Tool {
    pub function: FunctionDescription,
}

/// A callable function: its name, description and parameters, the
/// parameters being the text of a JSON Schema object.
#[derive(Debug, Clone, PartialEq, Eq, Hash)]
pub struct FunctionDescription {
    pub name: String,
    pub description: Option<String>,
    pub parameters: String,
}

impl Tool {
    /// Reads a tool from the `type` and `function` fields of its map: the
    /// tag must be `function`, then the function must be present.
    pub fn from_fields(type_value: &Option<String>, function: Option<FunctionDescription>) -> (r:
        Result<Tool, WireError>)
        ensures
            !(type_value is Some && type_value->0@ == "function"@) ==> (r matches Err(WireError::UnexpectedType(t)) && t@ == "function"@),
            (type_value is Some && type_value->0@ == "function"@) ==> match function {
                Some(f) => r matches Ok(t) && t.function == f,
                None => r matches Err(WireError::MissingField(f)) && f@ == "function"@,
            },
    {
        if !opt_is(type_value, "function") {
            return Err(unexpected_type("function"));
        }
        match function {
            Some(f) => Ok(Tool { function: f }),
            None => Err(missing_field("function")),
        }
    }
}

/// Whether and which tool the model must call. The first three are
/// written as the keywords `none`, `auto` and `required`; a function as
/// `{"type": "function", "function": {"name": ...}}`.
#[derive(Debug, Clone, PartialEq, Eq, Hash)]
pub enum ToolChoice {
    /// Written `none`.
    NoTool,
    Auto,
    Required,
    Function(String),
}

/// The keyword that stands for a tool choice, where it has one.
pub open spec fn tool_choice_keyword(c: ToolChoice) -> Option<Seq<char>> {
    match c {
        ToolChoice::NoTool => Some("none"@),
        ToolChoice::Auto => Some("auto"@),
        ToolChoice::Required => Some("required"@),
        ToolChoice::Function(_) => None,
    }
}

/// The choice a keyword stands for, if any.
pub open spec fn keyword_choice(s: Seq<char>) -> Option<ToolChoice> {
    if s == "none"@ {
        Some(ToolChoice::NoTool)
    } else if s == "auto"@ {
        Some(ToolChoice::Auto)
    } else if s == "required"@ {
        Some(ToolChoice::Required)
    } else {
        None
    }
}

/// Reading a tool choice back from how it is written gives it back: the
/// keyword of a keyword choice, and the `function` tag with the name of a
/// function choice.
pub proof fn law_tool_choice_round_trip(c: ToolChoice)
    ensures
        tool_choice_keyword(c) matches Some(k) ==> keyword_choice(k) == Some(c),
        tool_choice_keyword(c) is None <==> c is Function,
{
    reveal_strlit("none");
    reveal_strlit("auto");
    reveal_strlit("required");
    assert("auto"@[0] != "none"@[0]);
    assert("required"@.len() != "none"@.len());
    assert("required"@.len() != "auto"@.len());
}

impl ToolChoice {
    /// The keyword this choice is written as, or `None` for a function,
    /// which is written as a map.
    pub fn keyword(&self) -> (r: Option<&'static str>)
        ensures
            match tool_choice_keyword(*self) {
                Some(k) => r matches Some(s) && s@ == k,
                None => r is None,
            },
    {
        match self {
            ToolChoice::NoTool => Some("none"),
            ToolChoice::Auto => Some("auto"),
            ToolChoice::Required => Some("required"),
            ToolChoice::Function(_) => None,
        }
    }

    /// Reads a tool choice written as a keyword.
    pub fn from_keyword(value: &str) -> (r: Result<ToolChoice, WireError>)
        ensures
            match keyword_choice(value@) {
                Some(c) => r == Ok::<ToolChoice, WireError>(c),
                None => r matches Err(WireError::UnknownVariant(v)) && v@ == value@,
            },
    {
        proof {
            reveal_strlit("none");
            reveal_strlit("auto");
            reveal_strlit("required");
            assert("auto"@[0] != "none"@[0]);
            assert("required"@.len() != "none"@.len());
            assert("required"@.len() != "auto"@.len());
        }
        if str_eq(value, "none") {
            Ok(ToolChoice::NoTool)
        } else if str_eq(value, "auto") {
            Ok(ToolChoice::Auto)
        } else if str_eq(value, "required") {
            Ok(ToolChoice::Required)
        } else {
            Err(WireError::UnknownVariant(value.to_owned()))
        }
    }

    /// Reads a tool choice written as a map, from its `type` field and the
    /// name inside its `function` field: the tag must be `function`, then
    /// the function must be present.
    pub fn from_fields(type_value: &Option<String>, function_name: Option<String>) -> (r: Result<
        ToolChoice,
        WireError,
    >)
        ensures
            !(type_value is Some && type_value->0@ == "function"@) ==> (r matches Err(WireError::UnexpectedType(t)) && t@ == "function"@),
            (type_value is Some && type_value->0@ == "function"@) ==> match function_name {
                Some(n) => r matches Ok(ToolChoice::Function(m)) && m == n,
                None => r matches Err(WireError::MissingField(f)) && f@ == "function"@,
            },
    {
        if !opt_is(type_value, "function") {
            return Err(unexpected_type("function"));
        }
        match function_name {
            Some(name) => Ok(ToolChoice::Function(name)),
            None => Err(missing_field("function")),
        }
    }
}

/// Reasoning settings; only one of `effort` and `max_tokens` should be set.
#[derive(Debug, Default, Clone, PartialEq, Eq, Hash)]
pub struct Reasoning {
    pub effort: Option<Effort>,
    pub max_tokens: Option<usize>,
    pub exclude: Option<bool>,
}

/// How much reasoning to do.
#[derive(Debug, Default, Clone, Copy, PartialEq, Eq, Structural, Hash)]
pub enum Effort {
    High,
    #[default]
    Medium,
    Low,
}

/// Whether usage accounting is returned.
#[derive(Debug, Default, Clone, Copy, PartialEq, Eq, Structural, Hash)]
pub struct Usage {
    /// Written as the `include` field.
    pub requested: bool,
}

/// Prompt-caching control; `kind` is written as the `type` field.
#[derive(Debug, Default, Clone, PartialEq, Eq, Hash)]
pub struct CacheControl {
    pub kind: String,
}

/// A text part is empty exactly when its text is; an image or file part is
/// empty only when its URL, or its name and data, are. Content is left out
/// only when it carries nothing: absent, empty plain text, or no part that
/// carries something, so content with a non-empty text part is written.
pub proof fn law_empty_content(c: Option<Content>, p: ContentPart)
    ensures
        p matches ContentPart::Text { text } ==> part_is_empty(p) == (text@.len() == 0),
        p matches ContentPart::ImageUrl { image_url } ==> (part_is_empty(p) ==> image_url.url@.len()
            == 0),
        p matches ContentPart::File { filename, file_data } ==> (part_is_empty(p) ==> filename@.len()
            == 0 && file_data@.len() == 0),
        c is None ==> content_is_empty(c),
        c matches Some(Content::Plain(s)) ==> content_is_empty(c) == (s@.len() == 0),
        c matches Some(Content::Parts(ps)) ==> ((exists|i: int|
            0 <= i < ps@.len() && (#[trigger] ps@[i] matches ContentPart::Text { text } && text@.len()
                > 0)) ==> !content_is_empty(c)),
        c matches Some(Content::Parts(ps)) ==> (ps@.len() == 0 ==> content_is_empty(c)),
{
    match c {
        Some(Content::Parts(ps)) => {
            if exists|i: int|
                0 <= i < ps@.len() && (#[trigger] ps@[i] matches ContentPart::Text { text }
                    && text@.len() > 0) {
                let i = choose|i: int|
                    0 <= i < ps@.len() && (#[trigger] ps@[i] matches ContentPart::Text { text }
                        && text@.len() > 0);
                assert(!part_is_empty(ps@[i]));
            }
        },
        _ => {},
    }
}

} // verus!

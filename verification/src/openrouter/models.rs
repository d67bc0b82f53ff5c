//! Model listings: architectures, tokenizers, supported parameters, and
//! the request paths of the listing endpoints.

use vstd::prelude::*;
use crate::text::{str_eq, push_text, join_seqs};

verus! {

/// Input and output kinds of a model, and how it tokenizes and is
/// instructed.
#[derive(Debug, PartialEq)]
pub struct Architecture {
    pub modality: Option<String>,
    pub input_modalities: Vec<Modality>,
    pub output_modalities: Vec<Modality>,
    pub tokenizer: Tokenizer,
    pub instruct_type: Option<InstructType>,
}

/// A kind of input or output; unknown kinds are kept by name.
#[derive(Debug, PartialEq)]
pub enum Modality {
    Text,
    Image,
    File,
    Unknown(String),
}

/// A tokenizer family; unknown families are kept by name.
#[derive(Debug, PartialEq)]
pub enum Tokenizer {
    Router,
    Media,
    Other,
    GPT,
    Claude,
    Gemini,
    Grok,
    Cohere,
    Nova,
    Qwen,
    Qwen3,
    Yi,
    DeepSeek,
    Mistral,
    Llama2,
    Llama3,
    Llama4,
    PaLM,
    RWKV,
    Unknown(String),
}

/// An instruction format; unknown formats are kept by name.
#[derive(Debug, PartialEq)]
pub enum InstructType {
    /// Written `None` (or `none`).
    NoFormat,
    Airoboros,
    Alpaca,
    AlpacaModif,
    ChatML,
    Claude,
    CodeLlama,
    DeepSeekR1,
    Gemma,
    Llama2,
    Llama3,
    Mistral,
    Nemotron,
    Neural,
    OpenChat,
    Phi3,
    Qwen3,
    QwQ,
    RWKV,
    Vicuna,
    Zephyr,
    Unknown(String),
}

/// Limits of the provider a model is served by first.
#[derive(Debug, PartialEq, Eq, Structural, Clone, Copy)]
pub struct TopProvider {
    pub context_length: Option<usize>,
    pub max_completion_tokens: Option<usize>,
    pub is_moderated: bool,
}

/// Per-request token limits.
#[derive(Debug, PartialEq, Eq, Structural, Clone, Copy)]
pub struct PerRequestLimits {
    pub prompt_tokens: Option<usize>,
    pub completion_tokens: Option<usize>,
}

/// A request parameter a model may support; unknown ones are kept by name.
#[derive(Debug, PartialEq, Eq)]
pub enum Parameter {
    FrequencyPenalty,
    IncludeReasoning,
    LogitBias,
    LogProbs,
    MaxTokens,
    MinP,
    PresencePenalty,
    Reasoning,
    RepetitionPenalty,
    ResponseFormat,
    Seed,
    Stop,
    StructuredOutputs,
    Temperature,
    ToolChoice,
    Tools,
    TopA,
    TopK,
    TopLogProbs,
    TopP,
    WebSearchOptions,
    Unknown(String),
}

/// The name a parameter is written as.
pub open spec fn parameter_name(p: Parameter) -> Seq<char> {
    match p {
        Parameter::FrequencyPenalty => "frequency_penalty"@,
        Parameter::IncludeReasoning => "include_reasoning"@,
        Parameter::LogitBias => "logit_bias"@,
        Parameter::LogProbs => "logprobs"@,
        Parameter::MaxTokens => "max_tokens"@,
        Parameter::MinP => "min_p"@,
        Parameter::PresencePenalty => "presence_penalty"@,
        Parameter::Reasoning => "reasoning"@,
        Parameter::RepetitionPenalty => "repetition_penalty"@,
        Parameter::ResponseFormat => "response_format"@,
        Parameter::Seed => "seed"@,
        Parameter::Stop => "stop"@,
        Parameter::StructuredOutputs => "structured_outputs"@,
        Parameter::Temperature => "temperature"@,
        Parameter::ToolChoice => "tool_choice"@,
        Parameter::Tools => "tools"@,
        Parameter::TopA => "top_a"@,
        Parameter::TopK => "top_k"@,
        Parameter::TopLogProbs => "top_logprobs"@,
        Parameter::TopP => "top_p"@,
        Parameter::WebSearchOptions => "web_search_options"@,
        Parameter::Unknown(u) => u@,
    }
}

/// The known parameter a name stands for, if any.
pub open spec fn known_parameter(s: Seq<char>) -> Option<Parameter> {
    if s == "frequency_penalty"@ {
        Some(Parameter::FrequencyPenalty)
    } else     if s == "include_reasoning"@ {
        Some(Parameter::IncludeReasoning)
    } else     if s == "logit_bias"@ {
        Some(Parameter::LogitBias)
    } else     if s == "logprobs"@ {
        Some(Parameter::LogProbs)
    } else     if s == "max_tokens"@ {
        Some(Parameter::MaxTokens)
    } else     if s == "min_p"@ {
        Some(Parameter::MinP)
    } else     if s == "presence_penalty"@ {
        Some(Parameter::PresencePenalty)
    } else     if s == "reasoning"@ {
        Some(Parameter::Reasoning)
    } else     if s == "repetition_penalty"@ {
        Some(Parameter::RepetitionPenalty)
    } else     if s == "response_format"@ {
        Some(Parameter::ResponseFormat)
    } else     if s == "seed"@ {
        Some(Parameter::Seed)
    } else     if s == "stop"@ {
        Some(Parameter::Stop)
    } else     if s == "structured_outputs"@ {
        Some(Parameter::StructuredOutputs)
    } else     if s == "temperature"@ {
        Some(Parameter::Temperature)
    } else     if s == "tool_choice"@ {
        Some(Parameter::ToolChoice)
    } else     if s == "tools"@ {
        Some(Parameter::Tools)
    } else     if s == "top_a"@ {
        Some(Parameter::TopA)
    } else     if s == "top_k"@ {
        Some(Parameter::TopK)
    } else     if s == "top_logprobs"@ {
        Some(Parameter::TopLogProbs)
    } else     if s == "top_p"@ {
        Some(Parameter::TopP)
    } else     if s == "web_search_options"@ {
        Some(Parameter::WebSearchOptions)
    } else {
        None
    }
}

impl Parameter {
    /// The name this parameter is written as.
    pub fn name(&self) -> (r: &str)
        ensures
            r@ == parameter_name(*self),
    {
        match self {
            Parameter::FrequencyPenalty => "frequency_penalty",
            Parameter::IncludeReasoning => "include_reasoning",
            Parameter::LogitBias => "logit_bias",
            Parameter::LogProbs => "logprobs",
            Parameter::MaxTokens => "max_tokens",
            Parameter::MinP => "min_p",
            Parameter::PresencePenalty => "presence_penalty",
            Parameter::Reasoning => "reasoning",
            Parameter::RepetitionPenalty => "repetition_penalty",
            Parameter::ResponseFormat => "response_format",
            Parameter::Seed => "seed",
            Parameter::Stop => "stop",
            Parameter::StructuredOutputs => "structured_outputs",
            Parameter::Temperature => "temperature",
            Parameter::ToolChoice => "tool_choice",
            Parameter::Tools => "tools",
            Parameter::TopA => "top_a",
            Parameter::TopK => "top_k",
            Parameter::TopLogProbs => "top_logprobs",
            Parameter::TopP => "top_p",
            Parameter::WebSearchOptions => "web_search_options",
            Parameter::Unknown(u) => u.as_str(),
        }
    }

    /// The parameter a name stands for; a name that is not known is kept.
    pub fn from_name(s: &str) -> (r: Parameter)
        ensures
            match known_parameter(s@) {
                Some(p) => r == p,
                None => r matches Parameter::Unknown(u) && u@ == s@,
            },
    {
        if str_eq(s, "frequency_penalty") {
            Parameter::FrequencyPenalty
        } else if str_eq(s, "include_reasoning") {
            Parameter::IncludeReasoning
        } else if str_eq(s, "logit_bias") {
            Parameter::LogitBias
        } else if str_eq(s, "logprobs") {
            Parameter::LogProbs
        } else if str_eq(s, "max_tokens") {
            Parameter::MaxTokens
        } else if str_eq(s, "min_p") {
            Parameter::MinP
        } else if str_eq(s, "presence_penalty") {
            Parameter::PresencePenalty
        } else if str_eq(s, "reasoning") {
            Parameter::Reasoning
        } else if str_eq(s, "repetition_penalty") {
            Parameter::RepetitionPenalty
        } else if str_eq(s, "response_format") {
            Parameter::ResponseFormat
        } else if str_eq(s, "seed") {
            Parameter::Seed
        } else if str_eq(s, "stop") {
            Parameter::Stop
        } else if str_eq(s, "structured_outputs") {
            Parameter::StructuredOutputs
        } else if str_eq(s, "temperature") {
            Parameter::Temperature
        } else if str_eq(s, "tool_choice") {
            Parameter::ToolChoice
        } else if str_eq(s, "tools") {
            Parameter::Tools
        } else if str_eq(s, "top_a") {
            Parameter::TopA
        } else if str_eq(s, "top_k") {
            Parameter::TopK
        } else if str_eq(s, "top_logprobs") {
            Parameter::TopLogProbs
        } else if str_eq(s, "top_p") {
            Parameter::TopP
        } else if str_eq(s, "web_search_options") {
            Parameter::WebSearchOptions
        } else {
            Parameter::Unknown(s.to_owned())
        }
    }
}

/// Reading a parameter's name gives the parameter back: a known parameter
/// exactly, and an unknown one by the same name, as long as that name is
/// not one of the known names.
pub proof fn law_parameter_name_round_trip(p: Parameter)
    requires
        p is Unknown ==> known_parameter(p->Unknown_0@) is None,
    ensures
        match p {
            Parameter::Unknown(_) => known_parameter(parameter_name(p)) is None,
            _ => known_parameter(parameter_name(p)) == Some(p),
        },
{
    reveal_strlit("frequency_penalty");
    reveal_strlit("include_reasoning");
    reveal_strlit("logit_bias");
    reveal_strlit("logprobs");
    reveal_strlit("max_tokens");
    reveal_strlit("min_p");
    reveal_strlit("presence_penalty");
    reveal_strlit("reasoning");
    reveal_strlit("repetition_penalty");
    reveal_strlit("response_format");
    reveal_strlit("seed");
    reveal_strlit("stop");
    reveal_strlit("structured_outputs");
    reveal_strlit("temperature");
    reveal_strlit("tool_choice");
    reveal_strlit("tools");
    reveal_strlit("top_a");
    reveal_strlit("top_k");
    reveal_strlit("top_logprobs");
    reveal_strlit("top_p");
    reveal_strlit("web_search_options");
    assert("frequency_penalty"@.len() == 17);
    assert("include_reasoning"@.len() == 17);
    assert("logit_bias"@.len() == 10);
    assert("logprobs"@.len() == 8);
    assert("max_tokens"@.len() == 10);
    assert("min_p"@.len() == 5);
    assert("presence_penalty"@.len() == 16);
    assert("reasoning"@.len() == 9);
    assert("repetition_penalty"@.len() == 18);
    assert("response_format"@.len() == 15);
    assert("seed"@.len() == 4);
    assert("stop"@.len() == 4);
    assert("structured_outputs"@.len() == 18);
    assert("temperature"@.len() == 11);
    assert("tool_choice"@.len() == 11);
    assert("tools"@.len() == 5);
    assert("top_a"@.len() == 5);
    assert("top_k"@.len() == 5);
    assert("top_logprobs"@.len() == 12);
    assert("top_p"@.len() == 5);
    assert("web_search_options"@.len() == 18);
    assert("include_reasoning"@[0] != "frequency_penalty"@[0]);
    assert("max_tokens"@[0] != "logit_bias"@[0]);
    assert("stop"@[1] != "seed"@[1]);
    assert("structured_outputs"@[0] != "repetition_penalty"@[0]);
    assert("tool_choice"@[1] != "temperature"@[1]);
    assert("tools"@[0] != "min_p"@[0]);
    assert("top_a"@[0] != "min_p"@[0]);
    assert("top_a"@[2] != "tools"@[2]);
    assert("top_k"@[0] != "min_p"@[0]);
    assert("top_k"@[2] != "tools"@[2]);
    assert("top_k"@[4] != "top_a"@[4]);
    assert("top_p"@[0] != "min_p"@[0]);
    assert("top_p"@[2] != "tools"@[2]);
    assert("top_p"@[4] != "top_a"@[4]);
    assert("top_p"@[4] != "top_k"@[4]);
    assert("web_search_options"@[0] != "repetition_penalty"@[0]);
    assert("web_search_options"@[0] != "structured_outputs"@[0]);
}

/// The path of the model listing, filtered by the given parameters when
/// there are any.
pub open spec fn models_path_spec(names: Seq<Seq<char>>) -> Seq<char> {
    if names.len() == 0 {
        "api/v1/models"@
    } else {
        "api/v1/models?supported_parameters="@ + join_seqs(names, ","@)
    }
}

/// The names of a list of parameters.
pub open spec fn parameter_names(ps: Seq<Parameter>) -> Seq<Seq<char>> {
    Seq::new(ps.len(), |i: int| parameter_name(ps[i]))
}

/// The request path that lists the models supporting all of `parameters`
/// (all models when the list is empty).
pub fn models_path(parameters: &[Parameter]) -> (r: String)
    ensures
        r@ == models_path_spec(parameter_names(parameters@)),
{
    if parameters.len() == 0 {
        return "api/v1/models".to_owned();
    }
    let mut out = "api/v1/models?supported_parameters=".to_owned();
    let ghost prefix = out@;
    let mut i: usize = 0;
    while i < parameters.len()
        invariant
            i <= parameters@.len(),
            parameters@.len() > 0,
            prefix == "api/v1/models?supported_parameters="@,
            out@ == prefix + join_seqs(parameter_names(parameters@.subrange(0, i as int)), ","@),
        decreases parameters.len() - i,
    {
        let ghost before = parameter_names(parameters@.subrange(0, i as int));
        let ghost after = parameter_names(parameters@.subrange(0, i + 1));
        assert(after.subrange(0, after.len() - 1) =~= before);
        if i > 0 {
            push_text(&mut out, ",");
        }
        push_text(&mut out, parameters[i].name());
        proof {
            assert(after[after.len() - 1] == parameter_name(parameters@[i as int]));
            if i == 0 {
                assert(join_seqs(after, ","@) == after[0]);
                assert(join_seqs(before, ","@) =~= Seq::<char>::empty());
            }
        }
        i = i + 1;
    }
    assert(parameters@.subrange(0, parameters@.len() as int) =~= parameters@);
    out
}

/// The request path listing the endpoints of one model.
pub fn model_endpoints_path(id: &str) -> (r: String)
    ensures
        r@ == "api/v1/models/"@ + id@ + "/endpoints"@,
{
    let mut out = "api/v1/models/".to_owned();
    push_text(&mut out, id);
    push_text(&mut out, "/endpoints");
    out
}

/// The request path describing one earlier generation.
pub fn generation_path(id: &str) -> (r: String)
    ensures
        r@ == "api/v1/generation?id="@ + id@,
{
    let mut out = "api/v1/generation?id=".to_owned();
    push_text(&mut out, id);
    out
}

/// The number of models available.
#[derive(Debug, Clone, Copy, PartialEq, Eq, Structural)]
pub struct Count {
    pub count: usize,
}

impl Count {
    /// The number of models.
    pub fn count(&self) -> (r: usize)
        ensures
            r == self.count,
    {
        self.count
    }
}

/// The rate limit of an API key: so many requests per interval.
#[derive(Debug, PartialEq, Clone)]
pub struct RateLimit {
    pub requests: usize,
    pub interval: String,
}

/// Why a generation ended.
#[derive(Debug, PartialEq, Eq, Structural, Clone, Copy)]
pub enum FinishReason {
    ToolCalls,
    Stop,
    Length,
    ContentFilter,
    Error,
}

} // verus!

//! The parts of a chat-completion response.

use vstd::prelude::*;

verus! {

/// The kind of a response object: `chat.completion` or
/// `chat.completion.chunk`.
#[derive(Clone, Copy, Debug, PartialEq, Eq, Structural, Hash)]
pub enum Object {
    Completion,
    Chunk,
}

/// Token accounting of a response.
#[derive(Clone, Copy, Debug, PartialEq, Eq, Structural, Hash)]
pub struct ResponseUsage {
    pub prompt_tokens: u32,
    pub completion_tokens: u32,
    pub cost: Option<u32>,
    pub prompt_tokens_details: Option<PromptTokenDetails>,
    pub completion_tokens_details: Option<CompletionTokenDetails>,
    pub total_tokens: u32,
}

#[derive(Clone, Copy, Debug, PartialEq, Eq, Structural, Hash)]
pub struct PromptTokenDetails {
    pub cached_tokens: u32,
}

#[derive(Clone, Copy, Debug, PartialEq, Eq, Structural, Hash)]
pub struct CompletionTokenDetails {
    pub reasoning_tokens: u32,
}

/// A complete message of a non-streaming choice.
#[derive(Clone, Debug, PartialEq, Eq, Hash)]
pub struct Message {
    pub role: String,
    pub content: Option<String>,
    pub refusal: Option<String>,
    pub reasoning: Option<String>,
    pub tool_calls: Option<Vec<ToolCall>>,
}

/// An increment of a streaming choice.
#[derive(Clone, Debug, PartialEq, Eq, Hash)]
pub struct Delta {
    pub content: Option<String>,
    pub role: Option<String>,
    pub tool_calls: Option<Vec<ToolCall>>,
}

/// A call of a tool by the model; `kind` is written as the `type` field.
#[derive(Clone, Debug, PartialEq, Eq, Hash)]
pub struct ToolCall {
    pub id: String,
    pub index: usize,
    pub kind: String,
    pub function: FunctionCall,
}

/// The function of a tool call and its arguments, as JSON text.
#[derive(Clone, Debug, PartialEq, Eq, Hash)]
pub struct FunctionCall {
    pub name: String,
    pub arguments: Option<String>,
}

} // verus!

//! The model providers that requests can be routed to.

use vstd::prelude::*;

verus! {

/// A model provider. Providers not in this list are kept by name.
#[derive(Debug, Clone, PartialEq, Eq, Hash)]
pub enum Provider {
    AI21,
    AionLabs,
    Alibaba,
    AmazonBedrock,
    Anthropic,
    AnyScale,
    Atoma,
    Avian,
    Azure,
    BaseTen,
    CentML,
    Cerebras,
    Chutes,
    Cloudflare,
    Cohere,
    Crusoe,
    DeepInfra,
    DeepSeek,
    Enfer,
    Featherless,
    Fireworks,
    Friendli,
    GMICloud,
    Google,
    GoogleAIStudio,
    Groq,
    HuggingFace,
    Hyperbolic,
    Hyperbolic2,
    Inception,
    InferenceNet,
    Infermatic,
    Inflection,
    InoCloud,
    Kluster,
    Lambda,
    Lepton,
    Liquid,
    Lynn,
    Lynn2,
    Mancer,
    Mancer2,
    Meta,
    Minimax,
    Mistral,
    Modal,
    NCompass,
    Nebius,
    NextBit,
    Nineteen,
    Novita,
    OctoAI,
    OpenAI,
    OpenInference,
    Parasail,
    Perplexity,
    Phala,
    Recursal,
    Reflection,
    Replicate,
    SambaNova,
    SambaNova2,
    SFCompute,
    Stealth,
    Targon,
    Together,
    Together2,
    Ubicloud,
    XAI,
    ZeroOneAI,
    Custom(String),
}

} // verus!

//! What identifies a chat provider and what it can do.

use vstd::prelude::*;

verus! {

/// The service family behind a provider.
#[derive(Debug, Clone, Copy, PartialEq, Eq, Structural)]
pub enum ProviderKind {
    OpenAi,
    AzureOpenAi,
    Ollama,
}

/// The features a provider offers.
#[derive(Debug, Clone, Copy, PartialEq, Eq, Structural)]
pub struct ProviderCapabilities {
    pub streaming: bool,
    pub embeddings: bool,
    pub tool_calls: bool,
    pub multimodal: bool,
}

} // verus!

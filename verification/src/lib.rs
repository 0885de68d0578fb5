//! `llmrc`: a provider-neutral LLM runtime core with verified contracts.
//!
//! The library holds the domain types of chat providers, bounded retry
//! policies, token accounting, the decision logic of the tool-using agent
//! loop, conversation handling for chat bots and the naming and result
//! mapping of MCP tool bridges. Everything that talks to the network, spawns
//! processes or awaits lives outside this crate and drives the state
//! machines defined here.

pub mod duration;
pub mod json;
pub mod error;
pub mod types;
pub mod text;
pub mod agent;
pub mod bots;
pub mod token;
pub mod budget;
pub mod retry;
pub mod registry;
pub mod run;
pub mod adapters;
pub mod mcp;
pub mod openai;
pub mod ollama;
pub mod provider;
pub mod store;
pub mod table;

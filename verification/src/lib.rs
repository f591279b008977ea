//! Extension surfaces of the Grok Build agent: hook, provider, command and
//! tool registries, the pager-side adapters, and the logic of the bundled
//! extensions (dynamic model discovery and the Ollama extension).

pub mod agent;
pub mod command;
pub mod dynamic_models;
pub mod hook;
pub mod json;
pub mod ollama;
pub mod opaque;
pub mod pager;
pub mod provider;
pub mod session;
pub mod text;
pub mod theme;
pub mod tool;
pub mod tool_bridge;
pub mod types;
pub mod ui;
pub mod worktree;

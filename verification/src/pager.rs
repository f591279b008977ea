//! Pager-side implementations of the extension API: the agent handle, the
//! headless UI handle, the slash-command adapter for extension commands and
//! the `/reload` command.

pub mod agent_handle;
pub mod extension_adapter;
pub mod reload;
pub mod slash;
pub mod ui_handle;

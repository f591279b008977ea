//! UI interaction types for the extension API.
//!
//! UI interactions are available in TUI and RPC modes; in JSON and print
//! modes dialogs answer at once with their non-interactive defaults.

use vstd::prelude::*;

use crate::theme::Theme;

verus! {

/// Notification severity levels.
#[derive(Debug, Clone, Copy, PartialEq, Eq, Structural)]
pub enum NotifyLevel {
    Info,
    Warning,
    Error,
}

/// Current run mode.
#[derive(Debug, Clone, Copy, PartialEq, Eq, Structural)]
pub enum RunMode {
    /// Full TUI with terminal rendering.
    Tui,
    /// RPC mode (JSON protocol over stdio).
    Rpc,
    /// JSON mode (event stream to stdout).
    Json,
    /// Headless print mode (`-p`).
    Print,
}

/// Context passed to custom component renderers.
pub struct CustomComponentCtx {
    /// Terminal width/height.
    pub terminal_size: (u16, u16),
    /// Theme for styling.
    pub theme: Box<dyn Theme>,
}

/// Whether UI interactions are available in `mode`: true for TUI and RPC.
pub fn mode_has_ui(mode: RunMode) -> (r: bool)
    ensures
        r == (mode == RunMode::Tui || mode == RunMode::Rpc),
{
    match mode {
        RunMode::Tui | RunMode::Rpc => true,
        RunMode::Json | RunMode::Print => false,
    }
}

/// UI interaction handle: notifications, footer status, widgets and the
/// run mode. In TUI mode it is backed by the rendering loop; in headless and
/// JSON modes notifications are dropped. The dialogs (select, confirm,
/// input) are asynchronous and belong to the host's event loop.
pub trait UiHandle: Send + Sync {
    /// The run mode the handle reports.
    spec fn run_mode(&self) -> RunMode;

    /// Show a non-blocking notification.
    fn notify(&self, message: &str, level: NotifyLevel);

    /// Set a persistent status in the footer; `None` clears it.
    fn set_status(&self, key: &str, message: Option<&str>);

    /// Set a widget above or below the editor; `None` removes it.
    fn set_widget(&self, key: &str, lines: Option<Vec<String>>);

    /// Whether UI interactions are available; never in a mode without UI,
    /// and by default exactly in TUI and RPC modes.
    fn has_ui(&self) -> (r: bool)
        ensures
            r ==> (self.run_mode() == RunMode::Tui || self.run_mode() == RunMode::Rpc),
        default_ensures
            r == (self.run_mode() == RunMode::Tui || self.run_mode() == RunMode::Rpc),
    {
        let mode = self.mode();
        mode_has_ui(mode)
    }

    /// The current run mode.
    fn mode(&self) -> (r: RunMode)
        ensures
            r == self.run_mode(),
    ;
}

/// Answer of a selection dialog without UI: cancelled.
pub fn non_interactive_select() -> (r: Option<usize>)
    ensures
        r is None,
{
    None
}

/// Answer of a confirmation dialog without UI: confirmed.
pub fn non_interactive_confirm() -> (r: bool)
    ensures
        r,
{
    true
}

/// Answer of a text input dialog without UI: cancelled.
pub fn non_interactive_input() -> (r: Option<String>)
    ensures
        r is None,
{
    None
}

} // verus!

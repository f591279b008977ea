//! UI handle for headless and JSON modes.

use vstd::prelude::*;

use crate::ui::{NotifyLevel, RunMode, UiHandle};

verus! {

/// No-op UI handle for headless/JSON modes: dialogs answer with their
/// non-interactive defaults and notifications are dropped.
pub struct NoOpUiHandle {
    mode: RunMode,
}

impl NoOpUiHandle {
    /// The run mode held.
    pub closed spec fn spec_mode(&self) -> RunMode {
        self.mode
    }

    /// Create a handle for `mode`.
    pub fn new(mode: RunMode) -> (r: Self)
        ensures
            r.spec_mode() == mode,
    {
        NoOpUiHandle { mode }
    }
}

impl UiHandle for NoOpUiHandle {
    open spec fn run_mode(&self) -> RunMode {
        self.spec_mode()
    }

    fn notify(&self, _message: &str, _level: NotifyLevel) {
    }

    fn set_status(&self, _key: &str, _message: Option<&str>) {
    }

    fn set_widget(&self, _key: &str, _lines: Option<Vec<String>>) {
    }

    /// UI interactions are never available through this handle.
    fn has_ui(&self) -> (r: bool)
        ensures
            !r,
    {
        false
    }

    /// The run mode the handle was created for.
    fn mode(&self) -> (r: RunMode) {
        self.mode
    }
}

} // verus!

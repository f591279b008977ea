//! Theme types for the extension API. Extensions receive a [`Theme`] in
//! render callbacks and custom component contexts.

pub mod colors;

use vstd::prelude::*;

verus! {

/// Theme for styled terminal output, implemented by the host.
pub trait Theme: Send + Sync {
    /// Apply a foreground color to text.
    fn fg(&self, color: &str, text: &str) -> String;

    /// Apply a background color to text.
    fn bg(&self, color: &str, text: &str) -> String;

    /// Make text bold.
    fn bold(&self, text: &str) -> String;

    /// Make text italic.
    fn italic(&self, text: &str) -> String;

    /// Make text dim/muted.
    fn dim(&self, text: &str) -> String;
}

} // verus!

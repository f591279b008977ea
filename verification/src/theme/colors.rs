//! Standard theme color names.

use vstd::prelude::*;

verus! {

pub const ACCENT: &'static str = "accent";

pub const SUCCESS: &'static str = "success";

pub const ERROR: &'static str = "error";

pub const WARNING: &'static str = "warning";

pub const MUTED: &'static str = "muted";

pub const DIM: &'static str = "dim";

pub const TOOL_TITLE: &'static str = "toolTitle";

} // verus!

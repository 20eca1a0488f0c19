//! Verified rendering and routing rules of a native web UI layer for an ECS
//! application: how entities become CSS declarations, how style attributes are
//! merged, how routes are written and read, and how element events are decoded.
use vstd::prelude::*;

pub mod base_style;
pub mod dom;
pub mod events;
pub mod layout;
pub mod list_style;
pub mod refresh;
pub mod routing;
pub mod string_map;
pub mod style_sheet;
pub mod text;

verus! {
}

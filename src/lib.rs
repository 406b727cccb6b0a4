//! Selection and navigation state for a scrollable list whose main items may
//! hold collapsible children, with the context handed to items before they
//! are drawn.
use vstd::prelude::*;

pub mod laws;
pub mod state;
pub mod traits;

pub use state::ListState;
pub use traits::{PreRender, PreRenderContext, ScrollAxis};

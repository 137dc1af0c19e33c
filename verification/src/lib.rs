//! Layout, interaction and composition logic of a draggable, scrollable
//! on-screen text overlay, with machine-checked contracts.

pub mod buffer;
pub mod chars;
pub mod combo;
pub mod compose;
pub mod content;
pub mod devices;
pub mod fonts;
pub mod highlight;
pub mod hotkeys;
pub mod keys;
pub mod layout;
pub mod margin_log;
pub mod markdown;
pub mod metrics;
pub mod numbers;
pub mod pixel;
pub mod poll;
pub mod prompt;
pub mod protocol;
pub mod render;
pub mod sorting;
pub mod state;
pub mod style;
pub mod surface;
pub mod tokens;
pub mod wrap;

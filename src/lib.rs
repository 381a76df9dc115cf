//! A single-line text buffer with a gap cursor, for a terminal editor widget.

pub mod screen;

pub use screen::{BufferState, Screen, CURSOR_MARKER};

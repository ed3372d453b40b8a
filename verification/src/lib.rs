//! A multi-column, multi-tab viewer model for routed log streams.
//!
//! The crate holds the state of the viewer and every rule that changes it:
//! typed index arenas, bounded channel buffers with their scroll offset and
//! wrap cache, the two-dimensional tab layout, the event dispatcher and the
//! routing filters. Painting, input devices and threads live outside.

pub mod content;
pub mod draw;
pub mod index;
pub mod inputs;
pub mod layout;
pub mod log;
pub mod offset;
pub mod wrap;

pub use crate::draw::{Action, DrawEvent, State};
pub use crate::layout::Direction;
pub use crate::log::{SplitBy, SplitFilter};

//! Input keys, as the event systems pass them on.

pub use crate::event::Key;
pub use crate::event::MouseState;

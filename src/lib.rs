//! Hover and press feedback for widgets: a timing state machine that moves a
//! progress value between rest and the active extreme, and a colour blend that
//! consumes it.
pub mod animation;
pub mod color;
pub mod effect;

pub use animation::{HoverPressedAnimation, Operation};
pub use color::{mix, Color};
pub use effect::{AnimationDirection, AnimationEffect, UNIT};

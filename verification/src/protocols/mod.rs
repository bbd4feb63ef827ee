//! Wire protocols that the compositor serves itself.

pub mod wlr_screencopy;

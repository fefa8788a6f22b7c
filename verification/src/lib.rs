//! Verified core of a small desktop service that turns phones into game
//! controllers and lets them pick an audio stream to receive.

pub mod text;
pub mod source;
pub mod sink;
pub mod device;
pub mod gamepad;
pub mod host;
pub mod parse;
pub mod picker;

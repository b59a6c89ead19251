//! Frame-driven sprite animation: a playback clock that turns elapsed time
//! into a frame index, a resolver that turns a frame index into a texture
//! region, and a catalog of named animations with a replay guard.
//!
//! Time is measured in whole microseconds throughout the library.

pub mod animation;
pub mod geometry;
pub mod source;
pub mod sprite;
pub mod text;

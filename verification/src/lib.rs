//! Transformations of animated raster images in the GIF container format:
//! decompose an animation into its still frames, compose still images into a
//! new animation, reverse the frame order, and rewrite per-frame delays.
//!
//! The frame pipeline — the decoded per-frame pixel, palette and timing model
//! and the four operations on it — is verified. The bit-level LZW codec,
//! color quantization and still-image resampling are supplied by outside
//! crates behind trusted wrappers.

pub mod api;
pub mod codec;
pub mod error;
pub mod model;
pub mod ops;
pub mod raster;
pub mod resolve;

pub use api::{gif_change_duration, gif_merge, gif_reverse, gif_split};
pub use error::{ErrorKind, GifError};
pub use model::{AnimationSequence, Frame};

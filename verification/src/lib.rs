//! A verified view over parsed game-asset containers.
//!
//! The container parser hands us a tagged, schema-free value tree. This crate
//! projects that tree into a host-consumable value model, recognises 2D
//! texture assets among the records, and reconstructs their pixel data:
//! block decompression through outside decoders, vertical flip and RGBA
//! conversion done here, and a lossless PNG payload at the end.

pub mod codec;
pub mod decode;
pub mod stream;
pub mod container;
pub mod texture;
pub mod project;
pub mod value;

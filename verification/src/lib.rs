//! Interpreter for the reply of a multimodal image-generation service.
//!
//! A reply arrives in one of two success shapes (a candidate/parts layout or a
//! choice/content layout) or as an HTTP failure. The library normalizes a
//! reply into a sequence of typed content items (text or image), locating
//! image bytes wherever the provider put them — as inline base64 data or as a
//! markdown-embedded data URI — and plans the files that persist them.

pub mod artifact;
pub mod codec;
pub mod extract;
pub mod mime;
pub mod normalize;
pub mod text;

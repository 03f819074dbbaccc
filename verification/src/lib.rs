//! A keyed texture atlas library.
//!
//! A sprite sheet is a single image subdivided into named rectangular
//! sub-regions.  Sheets are described by a small XML document that names an
//! image file and lists, for each sprite, its top-left corner and size in
//! pixels.  This crate parses such descriptors and builds a keyed atlas: a
//! dense table of rectangles, one slot per declared sprite, together with a
//! name-to-slot index.
//!
//! The crate is organised in two stages, consumed in sequence:
//! - [`descriptor`] turns a byte buffer into a typed
//!   [`descriptor::KeyedTextureAtlasConfig`];
//! - [`atlas`] turns a descriptor plus the decoded image's pixel dimensions
//!   into a [`atlas::KeyedTextureAtlas`].
//!
//! Both stages are pure transforms over their inputs: no I/O, no shared
//! state.  Reading descriptor bytes, decoding the referenced image and
//! publishing the finished atlas are the caller's concern.

pub mod atlas;
pub mod coord;
pub mod descriptor;
pub mod loader;
pub mod numeric;
pub mod util;
pub mod xml;

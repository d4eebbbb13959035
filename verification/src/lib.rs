//! Decoding of block-compressed textures and of the DDS container format
//! that commonly stores them.
//!
//! The library exposes two operations: [`format::dds::read`], which parses
//! a DDS byte stream into a [`format::dds::Texture`], and [`bc1::decode`],
//! which expands BC1 (DXT1) block data into an interleaved RGB888 raster.

use vstd::prelude::*;

/// BC1 stores compressed RGB data, with an optional 1-bit alpha channel.
pub mod bc1;

mod bytes;

mod error;

/// Tools to operate on file formats that store block-compressed data.
pub mod format;

pub use error::Error;

verus! {

/// Enum containing all supported block-compression algorithms.
#[derive(Copy, Clone)]
pub enum BCAlgorithm {
    /// Block compression 1, stores RGB data, with an optional 1-bit alpha.
    BC1,
}

} // verus!

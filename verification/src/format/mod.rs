//! Support for file formats that store block-compressed data.

/// Support for reading DDS (Direct Draw Surface) files,
/// most commonly used by DirectX applications.
pub mod dds;

/// Error type shared with the rest of the library.
pub mod error;

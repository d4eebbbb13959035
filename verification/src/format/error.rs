//! The format readers report failures with the library's shared error type.

pub use crate::error::Error;

//! Shared building blocks: byte searching, little-endian field access and text.

pub mod bytes;
pub mod le;
pub mod powershell;
pub mod text;

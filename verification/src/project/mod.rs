//! The project file: the whole configuration in one binary container.
//!
//! A file is a 16-byte header (magic, total size, format version, cheat
//! switch), the settings block, the roster block and the cheat payload, each
//! of the three padded to 16 bytes. All numbers are big-endian.

pub mod decode;
pub mod encode;
pub mod fit;
pub mod laws;
pub mod laws_read;
pub mod layout;
pub mod parse;

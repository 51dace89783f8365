//! Digest primitives and the vocabulary shared by the banlist and the manifest.

pub mod checksum;
pub mod constants;
pub mod functions;
pub mod hex_text;
pub mod interfacer;
pub mod key_index;
pub mod lines;
pub mod text;

pub use checksum::Checksum;

//! Metadata extraction for the local store of the Element desktop client.
//!
//! The store is an ordered sequence of byte-string entries. Every entry whose
//! key is valid UTF-8 is recorded in a raw archive, and entries whose value is
//! text are additionally matched against a fixed, prioritised table of key
//! patterns that fills the fields of an [`ElementMetadata`] record.

pub mod archive;
pub mod extract;
pub mod laws;
pub mod record;
pub mod rules;
pub mod text;

pub use archive::RawArchive;
pub use extract::{absorb_entry, parse_metadata, value_text, StoreEntry};
pub use record::ElementMetadata;
pub use rules::{apply_field, classify_key, key_matches, parse_key_value, Field};
pub use text::{clean_value, same_text};

//! Extraction: one forward pass over the entries of a store.
//!
//! The store itself stays with the caller. It hands over its entries, as the
//! byte strings that the store holds, in the order in which it yields them.

use crate::record::{empty_record, ElementMetadata, MetadataView};
use crate::rules::{classified, parse_key_value};
use crate::text::{hex_encode, hex_text, lossy_text, utf8_text, utf8_text_lossy};
use vstd::prelude::*;
use vstd::string::StringExecFns;
use vstd::utf8::{decode_utf8, encode_utf8, encode_utf8_decode_utf8, valid_utf8};

verus! {

/// One entry of the store: a key and the value stored under it.
#[derive(Debug)]
pub struct StoreEntry {
    pub key: Vec<u8>,
    pub value: Vec<u8>,
}

/// The bytes of a [`StoreEntry`].
pub struct EntryView {
    pub key: Seq<u8>,
    pub value: Seq<u8>,
}

impl View for StoreEntry {
    type V = EntryView;

    open spec fn view(&self) -> EntryView {
        EntryView { key: self.key@, value: self.value@ }
    }
}

impl DeepView for StoreEntry {
    type V = EntryView;

    open spec fn deep_view(&self) -> EntryView {
        self@
    }
}

impl Clone for StoreEntry {
    fn clone(&self) -> (copy: StoreEntry)
        ensures
            copy@ == self@,
    {
        StoreEntry { key: self.key.clone(), value: self.value.clone() }
    }
}

/// The text that the raw archive records for a value that is not text: `0x`
/// and the value's bytes in lowercase hexadecimal.
pub open spec fn binary_marker(value: Seq<u8>) -> Seq<char> {
    seq!['0', 'x'] + hex_text(value)
}

/// `record` with `value` recorded under `key` in its raw archive.
pub open spec fn archived(record: MetadataView, key: Seq<char>, value: Seq<char>) -> MetadataView {
    MetadataView { raw_entries: record.raw_entries.insert(key, value), ..record }
}

/// The record after one entry of the store has been taken in.
///
/// An entry whose key is not UTF-8 leaves the record as it is. An entry whose
/// value is not UTF-8 is archived under its key as a binary marker and feeds
/// no field. Any other entry is classified and then archived with its value
/// as the store holds it, store marker included.
pub open spec fn absorbed(record: MetadataView, entry: EntryView) -> MetadataView {
    if !valid_utf8(entry.key) {
        record
    } else if !valid_utf8(entry.value) {
        archived(record, decode_utf8(entry.key), binary_marker(entry.value))
    } else {
        archived(
            classified(record, decode_utf8(entry.key), decode_utf8(entry.value)),
            decode_utf8(entry.key),
            decode_utf8(entry.value),
        )
    }
}

/// The record of a whole store: its entries taken in one after the other,
/// front to back, starting from the empty record.
pub open spec fn extracted(entries: Seq<EntryView>) -> MetadataView
    decreases entries.len(),
{
    if entries.len() == 0 {
        empty_record()
    } else {
        absorbed(extracted(entries.drop_last()), entries.last())
    }
}

/// Takes one entry of the store into the record.
pub fn absorb_entry(metadata: &mut ElementMetadata, key: &[u8], value: &[u8])
    ensures
        final(metadata)@ == absorbed(old(metadata)@, (EntryView { key: key@, value: value@ })),
{
    let key_text = match utf8_text(key) {
        Some(text) => text,
        None => {
            return ;
        },
    };
    proof {
        encode_utf8_decode_utf8(key_text@);
    }
    match utf8_text(value) {
        Some(value_text) => {
            proof {
                encode_utf8_decode_utf8(value_text@);
            }
            parse_key_value(key_text.as_str(), value_text.as_str(), metadata);
            metadata.raw_entries.insert(key_text, value_text);
        },
        None => {
            let digits = hex_encode(value);
            let marker = String::from_str("0x").concat(digits.as_str());
            proof {
                reveal_strlit("0x");
                assert("0x"@ =~= seq!['0', 'x']);
            }
            metadata.raw_entries.insert(key_text, marker);
        },
    }
}

/// Extracts the metadata of a store from its entries, given in the order in
/// which the store yields them.
pub fn parse_metadata(entries: &[StoreEntry]) -> (metadata: ElementMetadata)
    ensures
        metadata@ == extracted(entries.deep_view()),
{
    let mut metadata = ElementMetadata::default();
    let mut i: usize = 0;
    while i < entries.len()
        invariant
            i <= entries.len(),
            metadata@ == extracted(entries.deep_view().subrange(0, i as int)),
        decreases entries.len() - i,
    {
        absorb_entry(&mut metadata, entries[i].key.as_slice(), entries[i].value.as_slice());
        proof {
            let taken = entries.deep_view().subrange(0, i + 1);
            assert(taken.drop_last() =~= entries.deep_view().subrange(0, i as int));
            assert(taken.last() == entries[i as int]@);
        }
        i += 1;
    }
    assert(entries.deep_view().subrange(0, i as int) =~= entries.deep_view());
    metadata
}

/// Turns the outcome of a point lookup into text. A key that the store does
/// not hold gives `None`; a value is decoded leniently, so that bytes that
/// are not UTF-8 are replaced, not rejected.
pub fn value_text(found: Option<&[u8]>) -> (text: Option<String>)
    ensures
        found is None ==> text is None,
        found matches Some(bytes) ==> text matches Some(s) && s@ == lossy_text(bytes@) && (
        valid_utf8(bytes@) ==> s@ == decode_utf8(bytes@)),
{
    match found {
        Some(bytes) => {
            let s = utf8_text_lossy(bytes);
            proof {
                encode_utf8_decode_utf8(s@);
            }
            Some(s)
        },
        None => None,
    }
}

} // verus!

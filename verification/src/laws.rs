//! What holds of every extraction, stated over the record that
//! [`extracted`] defines.

use crate::extract::{absorbed, binary_marker, extracted, EntryView};
use crate::record::MetadataView;
use crate::rules::{classified, classify, rank, rule_matches, says_true, Field};
use crate::text::{hex_text, occurs_in, strip_marker};
use vstd::prelude::*;
use vstd::utf8::{decode_utf8, decode_utf8_encode_utf8, valid_utf8};

verus! {

/// No two entries share a key. A store yields each of its keys once.
pub open spec fn distinct_store_keys(entries: Seq<EntryView>) -> bool {
    forall|i: int, j: int| 0 <= i < j < entries.len() ==> entries[i].key != entries[j].key
}

/// The number of entries whose key is UTF-8.
pub open spec fn decodable_keys(entries: Seq<EntryView>) -> nat {
    entries.filter(|entry: EntryView| valid_utf8(entry.key)).len()
}

/// The text that the raw archive records for the value of `entry`: the value
/// itself where it is UTF-8, its binary marker where it is not.
pub open spec fn archived_text(entry: EntryView) -> Seq<char> {
    if valid_utf8(entry.value) {
        decode_utf8(entry.value)
    } else {
        binary_marker(entry.value)
    }
}

/// `entry` is a text entry whose key feeds `field`.
pub open spec fn feeds(entry: EntryView, field: Field) -> bool {
    valid_utf8(entry.key) && valid_utf8(entry.value) && classify(decode_utf8(entry.key)) == Some(
        field,
    )
}

/// The value of a text entry, cleaned of its store marker.
pub open spec fn cleaned(entry: EntryView) -> Seq<char> {
    strip_marker(decode_utf8(entry.value))
}

/// `field` holds a single text.
pub open spec fn is_text_field(field: Field) -> bool {
    field != Field::NotificationsEnabled && field != Field::RoomId && field
        != Field::EncryptedRoom
}

/// What the record holds in a text field.
pub open spec fn text_field(record: MetadataView, field: Field) -> Option<Seq<char>>
    recommends
        is_text_field(field),
{
    match field {
        Field::UserId => record.user_id,
        Field::DisplayName => record.display_name,
        Field::AvatarUrl => record.avatar_url,
        Field::Theme => record.theme,
        Field::Language => record.language,
        Field::DeviceId => record.device_id,
        Field::DeviceName => record.device_name,
        Field::Curve25519Key => record.curve25519_key,
        Field::Ed25519Key => record.ed25519_key,
        _ => None,
    }
}

/// Two well-formed UTF-8 byte strings that decode to the same text are the
/// same bytes.
pub proof fn lemma_decoding_is_injective(a: Seq<u8>, b: Seq<u8>)
    requires
        valid_utf8(a),
        valid_utf8(b),
        decode_utf8(a) == decode_utf8(b),
    ensures
        a == b,
{
    decode_utf8_encode_utf8(a);
    decode_utf8_encode_utf8(b);
}

/// Taking in an entry touches the raw archive at the entry's key alone.
proof fn lemma_absorbed_archive(record: MetadataView, entry: EntryView)
    ensures
        !valid_utf8(entry.key) ==> absorbed(record, entry).raw_entries == record.raw_entries,
        valid_utf8(entry.key) ==> absorbed(record, entry).raw_entries
            == record.raw_entries.insert(decode_utf8(entry.key), archived_text(entry)),
{
}

/// The keys of the raw archive are the decoded keys of the entries whose key
/// is UTF-8: no such entry is left out, whether or not it also fed a field,
/// and nothing else is archived.
pub proof fn lemma_archive_keys(entries: Seq<EntryView>)
    ensures
        extracted(entries).raw_entries.dom().finite(),
        forall|key: Seq<char>| #[trigger]
            extracted(entries).raw_entries.contains_key(key) <==> exists|i: int|
                0 <= i < entries.len() && valid_utf8((#[trigger] entries[i]).key) && decode_utf8(
                    entries[i].key,
                ) == key,
    decreases entries.len(),
{
    if entries.len() > 0 {
        let init = entries.drop_last();
        let last = entries.last();
        let before = extracted(init).raw_entries;
        let after = extracted(entries).raw_entries;
        lemma_archive_keys(init);
        lemma_absorbed_archive(extracted(init), last);
        assert forall|key: Seq<char>| #[trigger] after.contains_key(key) implies exists|i: int|
            0 <= i < entries.len() && valid_utf8((#[trigger] entries[i]).key) && decode_utf8(
                entries[i].key,
            ) == key by {
            if before.contains_key(key) {
                let i = choose|i: int|
                    0 <= i < init.len() && valid_utf8((#[trigger] init[i]).key) && decode_utf8(
                        init[i].key,
                    ) == key;
                assert(entries[i] == init[i]);
            } else {
                assert(entries[entries.len() - 1] == last);
            }
        }
        assert forall|key: Seq<char>|
            (exists|i: int|
                0 <= i < entries.len() && valid_utf8((#[trigger] entries[i]).key) && decode_utf8(
                    entries[i].key,
                ) == key) implies #[trigger] after.contains_key(key) by {
            let i = choose|i: int|
                0 <= i < entries.len() && valid_utf8((#[trigger] entries[i]).key) && decode_utf8(
                    entries[i].key,
                ) == key;
            if i < init.len() {
                assert(init[i] == entries[i]);
            }
        }
    }
}

/// Under each key the raw archive holds the text archived for the last
/// entry, in store order, that carries the key.
pub proof fn lemma_archive_last_wins(entries: Seq<EntryView>, i: int)
    requires
        0 <= i < entries.len(),
        valid_utf8(entries[i].key),
        forall|j: int| i < j < entries.len() ==> (#[trigger] entries[j]).key != entries[i].key,
    ensures
        extracted(entries).raw_entries.contains_key(decode_utf8(entries[i].key)),
        extracted(entries).raw_entries[decode_utf8(entries[i].key)] == archived_text(entries[i]),
    decreases entries.len(),
{
    let init = entries.drop_last();
    let last = entries.last();
    lemma_absorbed_archive(extracted(init), last);
    if i < entries.len() - 1 {
        assert(init[i] == entries[i]);
        assert forall|j: int| i < j < init.len() implies (#[trigger] init[j]).key
            != init[i].key by {
            assert(init[j] == entries[j]);
        }
        lemma_archive_last_wins(init, i);
        assert(entries[entries.len() - 1] == last);
        if valid_utf8(last.key) && decode_utf8(last.key) == decode_utf8(entries[i].key) {
            lemma_decoding_is_injective(last.key, entries[i].key);
        }
    }
}

/// The raw archive of a store holds as many keys as the store has entries
/// with a UTF-8 key.
pub proof fn lemma_archive_size(entries: Seq<EntryView>)
    requires
        distinct_store_keys(entries),
    ensures
        extracted(entries).raw_entries.dom().finite(),
        extracted(entries).raw_entries.len() == decodable_keys(entries),
    decreases entries.len(),
{
    reveal(Seq::filter);
    lemma_archive_keys(entries);
    if entries.len() == 0 {
        assert(extracted(entries).raw_entries.dom() =~= Set::<Seq<char>>::empty());
    } else {
        let init = entries.drop_last();
        let last = entries.last();
        let before = extracted(init).raw_entries;
        let after = extracted(entries).raw_entries;
        assert(distinct_store_keys(init)) by {
            assert forall|i: int, j: int| 0 <= i < j < init.len() implies init[i].key
                != init[j].key by {
                assert(init[i] == entries[i] && init[j] == entries[j]);
            }
        }
        lemma_archive_size(init);
        lemma_archive_keys(init);
        lemma_absorbed_archive(extracted(init), last);
        if valid_utf8(last.key) {
            let key = decode_utf8(last.key);
            assert(!before.contains_key(key)) by {
                if before.contains_key(key) {
                    let i = choose|i: int|
                        0 <= i < init.len() && valid_utf8((#[trigger] init[i]).key)
                            && decode_utf8(init[i].key) == key;
                    lemma_decoding_is_injective(init[i].key, last.key);
                    assert(entries[i].key == entries[entries.len() - 1].key);
                }
            }
            assert(after.dom() =~= before.dom().insert(key));
        }
    }
}

/// Every entry of a store with a UTF-8 key stands in the raw archive, under
/// its decoded key and with the text archived for it.
pub proof fn lemma_archive_is_complete(entries: Seq<EntryView>)
    requires
        distinct_store_keys(entries),
    ensures
        forall|i: int|
            0 <= i < entries.len() && valid_utf8((#[trigger] entries[i]).key) ==> {
                &&& extracted(entries).raw_entries.contains_key(decode_utf8(entries[i].key))
                &&& extracted(entries).raw_entries[decode_utf8(entries[i].key)] == archived_text(
                    entries[i],
                )
            },
{
    assert forall|i: int|
        0 <= i < entries.len() && valid_utf8((#[trigger] entries[i]).key) implies {
        &&& extracted(entries).raw_entries.contains_key(decode_utf8(entries[i].key))
        &&& extracted(entries).raw_entries[decode_utf8(entries[i].key)] == archived_text(
            entries[i],
        )
    } by {
        lemma_archive_last_wins(entries, i);
    }
}

/// An entry with a UTF-8 key whose value is not UTF-8 changes the record in
/// one place: the raw archive maps its key to `0x` followed by the value's
/// bytes in lowercase hexadecimal. No field is fed.
pub proof fn lemma_binary_value_is_only_archived(record: MetadataView, entry: EntryView)
    requires
        valid_utf8(entry.key),
        !valid_utf8(entry.value),
    ensures
        absorbed(record, entry) == (MetadataView {
            raw_entries: record.raw_entries.insert(
                decode_utf8(entry.key),
                seq!['0', 'x'] + hex_text(entry.value),
            ),
            ..record
        }),
{
}

/// In the record of a store, the raw archive holds the binary marker of
/// every entry with a UTF-8 key whose value is not UTF-8.
pub proof fn lemma_binary_value_in_archive(entries: Seq<EntryView>, i: int)
    requires
        distinct_store_keys(entries),
        0 <= i < entries.len(),
        valid_utf8(entries[i].key),
        !valid_utf8(entries[i].value),
    ensures
        extracted(entries).raw_entries.contains_key(decode_utf8(entries[i].key)),
        extracted(entries).raw_entries[decode_utf8(entries[i].key)] == seq!['0', 'x'] + hex_text(
            entries[i].value,
        ),
{
    lemma_archive_last_wins(entries, i);
}

/// A key feeds `field` exactly when the field's rule matches it and no rule
/// of lower rank does: of several rules that match, only the first fires.
pub proof fn lemma_first_match_wins(key: Seq<char>, field: Field)
    ensures
        classify(key) == Some(field) <==> rule_matches(field, key) && forall|other: Field|
            rank(other) < rank(field) ==> !#[trigger] rule_matches(other, key),
        classify(key) is None <==> forall|other: Field| !#[trigger] rule_matches(other, key),
{
    if classify(key) is None {
        assert forall|other: Field| !#[trigger] rule_matches(other, key) by {
            lemma_rule_of_rank(other);
        }
    } else {
        let chosen = classify(key)->0;
        assert(rule_matches(chosen, key));
        assert forall|other: Field| rank(other) < rank(chosen) implies !#[trigger] rule_matches(
            other,
            key,
        ) by {
            lemma_rule_of_rank(other);
        }
        if rule_matches(field, key) && field != chosen {
            lemma_rule_of_rank(field);
            assert(rank(chosen) < rank(field));
        }
    }
}

/// Ranks tell the rules apart.
proof fn lemma_rule_of_rank(field: Field)
    ensures
        1 <= rank(field) <= 12,
        rank(field) == 1 ==> field == Field::UserId,
        rank(field) == 2 ==> field == Field::DisplayName,
        rank(field) == 3 ==> field == Field::AvatarUrl,
        rank(field) == 4 ==> field == Field::Theme,
        rank(field) == 5 ==> field == Field::Language,
        rank(field) == 6 ==> field == Field::NotificationsEnabled,
        rank(field) == 7 ==> field == Field::DeviceId,
        rank(field) == 8 ==> field == Field::DeviceName,
        rank(field) == 9 ==> field == Field::Curve25519Key,
        rank(field) == 10 ==> field == Field::Ed25519Key,
        rank(field) == 11 ==> field == Field::RoomId,
        rank(field) == 12 ==> field == Field::EncryptedRoom,
{
}

/// A text entry whose key contains both "room" and "id", and matches no rule
/// that ranks before the room rule, appends its cleaned value to the room
/// identifiers and changes nothing else, whatever else the key contains.
pub proof fn lemma_room_key_appends(record: MetadataView, key: Seq<char>, value: Seq<char>)
    requires
        occurs_in("room"@, key),
        occurs_in("id"@, key),
        forall|other: Field|
            rank(other) < rank(Field::RoomId) ==> !#[trigger] rule_matches(other, key),
    ensures
        classify(key) == Some(Field::RoomId),
        classified(record, key, value) == (MetadataView {
            room_ids: record.room_ids.push(strip_marker(value)),
            ..record
        }),
{
    lemma_first_match_wins(key, Field::RoomId);
}

/// An entry changes no field but the one it feeds. A text field that it
/// feeds takes its cleaned value, the notification flag tells whether that
/// value says "true", the room identifiers grow by the value, and the
/// encrypted rooms grow by the entry's key where the value says "true".
pub proof fn lemma_entry_feeds_one_field(record: MetadataView, entry: EntryView, field: Field)
    ensures
        is_text_field(field) ==> text_field(absorbed(record, entry), field) == if feeds(
            entry,
            field,
        ) {
            Some(cleaned(entry))
        } else {
            text_field(record, field)
        },
        absorbed(record, entry).notifications_enabled == if feeds(
            entry,
            Field::NotificationsEnabled,
        ) {
            Some(says_true(cleaned(entry)))
        } else {
            record.notifications_enabled
        },
        absorbed(record, entry).room_ids == if feeds(entry, Field::RoomId) {
            record.room_ids.push(cleaned(entry))
        } else {
            record.room_ids
        },
        absorbed(record, entry).encrypted_rooms == if feeds(entry, Field::EncryptedRoom)
            && says_true(cleaned(entry)) {
            record.encrypted_rooms.push(decode_utf8(entry.key))
        } else {
            record.encrypted_rooms
        },
{
}

/// Each text field holds the cleaned value of the last entry, in store
/// order, that feeds it: of two entries that feed the same field, the later
/// one wins.
pub proof fn lemma_last_match_wins(entries: Seq<EntryView>, field: Field, i: int)
    requires
        is_text_field(field),
        0 <= i < entries.len(),
        feeds(entries[i], field),
        forall|j: int| i < j < entries.len() ==> !feeds(#[trigger] entries[j], field),
    ensures
        text_field(extracted(entries), field) == Some(cleaned(entries[i])),
    decreases entries.len(),
{
    let init = entries.drop_last();
    lemma_entry_feeds_one_field(extracted(init), entries.last(), field);
    if i < entries.len() - 1 {
        assert(entries[entries.len() - 1] == entries.last());
        assert(init[i] == entries[i]);
        assert forall|j: int| i < j < init.len() implies !feeds(#[trigger] init[j], field) by {
            assert(init[j] == entries[j]);
        }
        lemma_last_match_wins(init, field, i);
    }
}

/// The notification flag tells whether the cleaned value of the last entry
/// that feeds it says "true".
pub proof fn lemma_last_notification_wins(entries: Seq<EntryView>, i: int)
    requires
        0 <= i < entries.len(),
        feeds(entries[i], Field::NotificationsEnabled),
        forall|j: int|
            i < j < entries.len() ==> !feeds(#[trigger] entries[j], Field::NotificationsEnabled),
    ensures
        extracted(entries).notifications_enabled == Some(says_true(cleaned(entries[i]))),
    decreases entries.len(),
{
    let init = entries.drop_last();
    if i < entries.len() - 1 {
        assert(entries[entries.len() - 1] == entries.last());
        assert(init[i] == entries[i]);
        assert forall|j: int| i < j < init.len() implies !feeds(
            #[trigger] init[j],
            Field::NotificationsEnabled,
        ) by {
            assert(init[j] == entries[j]);
        }
        lemma_last_notification_wins(init, i);
    }
}

/// A field that no entry of the store feeds stays unset.
pub proof fn lemma_unfed_field_is_unset(entries: Seq<EntryView>, field: Field)
    requires
        forall|j: int| 0 <= j < entries.len() ==> !feeds(#[trigger] entries[j], field),
    ensures
        is_text_field(field) ==> text_field(extracted(entries), field) is None,
        field == Field::NotificationsEnabled ==> extracted(entries).notifications_enabled is None,
        field == Field::RoomId ==> extracted(entries).room_ids.len() == 0,
        field == Field::EncryptedRoom ==> extracted(entries).encrypted_rooms.len() == 0,
    decreases entries.len(),
{
    if entries.len() > 0 {
        let init = entries.drop_last();
        assert(entries[entries.len() - 1] == entries.last());
        assert forall|j: int| 0 <= j < init.len() implies !feeds(#[trigger] init[j], field) by {
            assert(init[j] == entries[j]);
        }
        lemma_unfed_field_is_unset(init, field);
        if is_text_field(field) {
            lemma_entry_feeds_one_field(extracted(init), entries.last(), field);
        }
    }
}

/// The room identifiers are the cleaned values of the entries that feed
/// them, in store order: nothing is dropped, merged or reordered.
pub proof fn lemma_room_ids_in_store_order(entries: Seq<EntryView>)
    ensures
        extracted(entries).room_ids == entries.filter(
            |entry: EntryView| feeds(entry, Field::RoomId),
        ).map_values(|entry: EntryView| cleaned(entry)),
    decreases entries.len(),
{
    reveal(Seq::filter);
    let fed = |entry: EntryView| feeds(entry, Field::RoomId);
    let value = |entry: EntryView| cleaned(entry);
    if entries.len() == 0 {
        assert(extracted(entries).room_ids =~= entries.filter(fed).map_values(value));
    } else {
        let init = entries.drop_last();
        lemma_room_ids_in_store_order(init);
        assert(extracted(entries).room_ids =~= entries.filter(fed).map_values(value));
    }
}

/// The encrypted rooms are the keys of the entries that feed them and whose
/// cleaned value says "true", in store order.
pub proof fn lemma_encrypted_rooms_in_store_order(entries: Seq<EntryView>)
    ensures
        extracted(entries).encrypted_rooms == entries.filter(
            |entry: EntryView| feeds(entry, Field::EncryptedRoom) && says_true(cleaned(entry)),
        ).map_values(|entry: EntryView| decode_utf8(entry.key)),
    decreases entries.len(),
{
    reveal(Seq::filter);
    let fed = |entry: EntryView| feeds(entry, Field::EncryptedRoom) && says_true(cleaned(entry));
    let key = |entry: EntryView| decode_utf8(entry.key);
    if entries.len() == 0 {
        assert(extracted(entries).encrypted_rooms =~= entries.filter(fed).map_values(key));
    } else {
        let init = entries.drop_last();
        lemma_encrypted_rooms_in_store_order(init);
        assert(extracted(entries).encrypted_rooms =~= entries.filter(fed).map_values(key));
    }
}

/// Extraction is a function of the store's entries: two passes over the
/// same entries give the same record.
pub proof fn lemma_extraction_is_repeatable(
    entries: Seq<EntryView>,
    first: MetadataView,
    second: MetadataView,
)
    requires
        first == extracted(entries),
        second == extracted(entries),
    ensures
        first == second,
{
}

} // verus!

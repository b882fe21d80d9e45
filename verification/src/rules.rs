//! The classification rules: which field of the record a key feeds.
//!
//! The rules form a priority list. A rule matches a key when the key contains
//! one of the rule's patterns, case-sensitively; the first rule that matches
//! decides, and an entry feeds at most one field.

use crate::record::{ElementMetadata, MetadataView};
use crate::text::{
    clean_value, contains_text, lowercase, lowercase_text, occurs_in, same_text, strip_marker,
};
use vstd::prelude::*;

verus! {

/// The fields that a store entry can feed, in the priority order of their
/// rules.
#[derive(Debug, Clone, Copy, PartialEq, Eq, Structural)]
pub enum Field {
    UserId,
    DisplayName,
    AvatarUrl,
    Theme,
    Language,
    NotificationsEnabled,
    DeviceId,
    DeviceName,
    Curve25519Key,
    Ed25519Key,
    RoomId,
    EncryptedRoom,
}

/// The rank of a field's rule: a rule of lower rank is tried first.
pub open spec fn rank(field: Field) -> nat {
    match field {
        Field::UserId => 1,
        Field::DisplayName => 2,
        Field::AvatarUrl => 3,
        Field::Theme => 4,
        Field::Language => 5,
        Field::NotificationsEnabled => 6,
        Field::DeviceId => 7,
        Field::DeviceName => 8,
        Field::Curve25519Key => 9,
        Field::Ed25519Key => 10,
        Field::RoomId => 11,
        Field::EncryptedRoom => 12,
    }
}

/// The pattern of a field's rule holds of `key`.
pub open spec fn rule_matches(field: Field, key: Seq<char>) -> bool {
    match field {
        Field::UserId => occurs_in("user_id"@, key) || occurs_in("userId"@, key) || occurs_in(
            "mx_user_id"@,
            key,
        ),
        Field::DisplayName => occurs_in("display_name"@, key) || occurs_in("displayName"@, key)
            || occurs_in("displayname"@, key),
        Field::AvatarUrl => occurs_in("avatar"@, key) || occurs_in("avatarUrl"@, key)
            || occurs_in("avatar_url"@, key),
        Field::Theme => occurs_in("theme"@, key),
        Field::Language => occurs_in("language"@, key) || occurs_in("locale"@, key),
        Field::NotificationsEnabled => occurs_in("notification"@, key),
        Field::DeviceId => occurs_in("device_id"@, key) || occurs_in("deviceId"@, key)
            || occurs_in("mx_device_id"@, key),
        Field::DeviceName => occurs_in("device_name"@, key) || occurs_in("deviceName"@, key),
        Field::Curve25519Key => occurs_in("curve25519"@, key),
        Field::Ed25519Key => occurs_in("ed25519"@, key),
        Field::RoomId => occurs_in("room"@, key) && occurs_in("id"@, key),
        Field::EncryptedRoom => occurs_in("encrypted"@, key),
    }
}

/// The field that `key` feeds: that of the first rule, by rank, whose
/// pattern holds of the key, or none.
pub open spec fn classify(key: Seq<char>) -> Option<Field> {
    if rule_matches(Field::UserId, key) {
        Some(Field::UserId)
    } else if rule_matches(Field::DisplayName, key) {
        Some(Field::DisplayName)
    } else if rule_matches(Field::AvatarUrl, key) {
        Some(Field::AvatarUrl)
    } else if rule_matches(Field::Theme, key) {
        Some(Field::Theme)
    } else if rule_matches(Field::Language, key) {
        Some(Field::Language)
    } else if rule_matches(Field::NotificationsEnabled, key) {
        Some(Field::NotificationsEnabled)
    } else if rule_matches(Field::DeviceId, key) {
        Some(Field::DeviceId)
    } else if rule_matches(Field::DeviceName, key) {
        Some(Field::DeviceName)
    } else if rule_matches(Field::Curve25519Key, key) {
        Some(Field::Curve25519Key)
    } else if rule_matches(Field::Ed25519Key, key) {
        Some(Field::Ed25519Key)
    } else if rule_matches(Field::RoomId, key) {
        Some(Field::RoomId)
    } else if rule_matches(Field::EncryptedRoom, key) {
        Some(Field::EncryptedRoom)
    } else {
        None
    }
}

/// A cleaned value reads as "true" once lowercased.
pub open spec fn says_true(clean: Seq<char>) -> bool {
    lowercase_text(clean) == "true"@
}

/// The record after `field` has taken in an entry with key `key` and cleaned
/// value `clean`, where `truthy` tells whether the value says "true".
///
/// A text field is overwritten, the notification flag is set to `truthy`, a
/// room identifier is appended, and a truthy encryption flag appends the
/// entry's key. The raw archive is left alone.
pub open spec fn updated(
    record: MetadataView,
    field: Option<Field>,
    key: Seq<char>,
    clean: Seq<char>,
    truthy: bool,
) -> MetadataView {
    match field {
        Some(Field::UserId) => MetadataView { user_id: Some(clean), ..record },
        Some(Field::DisplayName) => MetadataView { display_name: Some(clean), ..record },
        Some(Field::AvatarUrl) => MetadataView { avatar_url: Some(clean), ..record },
        Some(Field::Theme) => MetadataView { theme: Some(clean), ..record },
        Some(Field::Language) => MetadataView { language: Some(clean), ..record },
        Some(Field::NotificationsEnabled) => MetadataView {
            notifications_enabled: Some(truthy),
            ..record
        },
        Some(Field::DeviceId) => MetadataView { device_id: Some(clean), ..record },
        Some(Field::DeviceName) => MetadataView { device_name: Some(clean), ..record },
        Some(Field::Curve25519Key) => MetadataView { curve25519_key: Some(clean), ..record },
        Some(Field::Ed25519Key) => MetadataView { ed25519_key: Some(clean), ..record },
        Some(Field::RoomId) => MetadataView { room_ids: record.room_ids.push(clean), ..record },
        Some(Field::EncryptedRoom) => if truthy {
            MetadataView { encrypted_rooms: record.encrypted_rooms.push(key), ..record }
        } else {
            record
        },
        None => record,
    }
}

/// The record after the text entry `key`, `value` has been classified: the
/// value is cleaned of its store marker and handed to the field that the key
/// feeds.
pub open spec fn classified(record: MetadataView, key: Seq<char>, value: Seq<char>) -> MetadataView {
    let clean = strip_marker(value);
    updated(record, classify(key), key, clean, says_true(clean))
}

/// Tells whether the pattern of `field`'s rule holds of `key`.
pub fn key_matches(field: Field, key: &str) -> (matches: bool)
    ensures
        matches == rule_matches(field, key@),
{
    match field {
        Field::UserId => contains_text(key, "user_id") || contains_text(key, "userId")
            || contains_text(key, "mx_user_id"),
        Field::DisplayName => contains_text(key, "display_name") || contains_text(
            key,
            "displayName",
        ) || contains_text(key, "displayname"),
        Field::AvatarUrl => contains_text(key, "avatar") || contains_text(key, "avatarUrl")
            || contains_text(key, "avatar_url"),
        Field::Theme => contains_text(key, "theme"),
        Field::Language => contains_text(key, "language") || contains_text(key, "locale"),
        Field::NotificationsEnabled => contains_text(key, "notification"),
        Field::DeviceId => contains_text(key, "device_id") || contains_text(key, "deviceId")
            || contains_text(key, "mx_device_id"),
        Field::DeviceName => contains_text(key, "device_name") || contains_text(
            key,
            "deviceName",
        ),
        Field::Curve25519Key => contains_text(key, "curve25519"),
        Field::Ed25519Key => contains_text(key, "ed25519"),
        Field::RoomId => contains_text(key, "room") && contains_text(key, "id"),
        Field::EncryptedRoom => contains_text(key, "encrypted"),
    }
}

/// Finds the field that `key` feeds, trying the rules in rank order.
pub fn classify_key(key: &str) -> (field: Option<Field>)
    ensures
        field == classify(key@),
{
    if key_matches(Field::UserId, key) {
        Some(Field::UserId)
    } else if key_matches(Field::DisplayName, key) {
        Some(Field::DisplayName)
    } else if key_matches(Field::AvatarUrl, key) {
        Some(Field::AvatarUrl)
    } else if key_matches(Field::Theme, key) {
        Some(Field::Theme)
    } else if key_matches(Field::Language, key) {
        Some(Field::Language)
    } else if key_matches(Field::NotificationsEnabled, key) {
        Some(Field::NotificationsEnabled)
    } else if key_matches(Field::DeviceId, key) {
        Some(Field::DeviceId)
    } else if key_matches(Field::DeviceName, key) {
        Some(Field::DeviceName)
    } else if key_matches(Field::Curve25519Key, key) {
        Some(Field::Curve25519Key)
    } else if key_matches(Field::Ed25519Key, key) {
        Some(Field::Ed25519Key)
    } else if key_matches(Field::RoomId, key) {
        Some(Field::RoomId)
    } else if key_matches(Field::EncryptedRoom, key) {
        Some(Field::EncryptedRoom)
    } else {
        None
    }
}

/// Hands an entry to `field`: a text field takes the cleaned value, the
/// notification flag takes `truthy`, a room identifier is appended, and a
/// truthy encryption flag appends the entry's key.
pub fn apply_field(
    metadata: &mut ElementMetadata,
    field: Option<Field>,
    key: &str,
    clean: String,
    truthy: bool,
)
    ensures
        final(metadata)@ == updated(old(metadata)@, field, key@, clean@, truthy),
{
    match field {
        Some(Field::UserId) => {
            metadata.user_id = Some(clean);
        },
        Some(Field::DisplayName) => {
            metadata.display_name = Some(clean);
        },
        Some(Field::AvatarUrl) => {
            metadata.avatar_url = Some(clean);
        },
        Some(Field::Theme) => {
            metadata.theme = Some(clean);
        },
        Some(Field::Language) => {
            metadata.language = Some(clean);
        },
        Some(Field::NotificationsEnabled) => {
            metadata.notifications_enabled = Some(truthy);
        },
        Some(Field::DeviceId) => {
            metadata.device_id = Some(clean);
        },
        Some(Field::DeviceName) => {
            metadata.device_name = Some(clean);
        },
        Some(Field::Curve25519Key) => {
            metadata.curve25519_key = Some(clean);
        },
        Some(Field::Ed25519Key) => {
            metadata.ed25519_key = Some(clean);
        },
        Some(Field::RoomId) => {
            metadata.room_ids.push(clean);
            assert(metadata.room_ids.deep_view() =~= old(metadata).room_ids.deep_view().push(
                clean@,
            ));
        },
        Some(Field::EncryptedRoom) => {
            if truthy {
                metadata.encrypted_rooms.push(key.to_owned());
                assert(metadata.encrypted_rooms.deep_view() =~= old(
                    metadata,
                ).encrypted_rooms.deep_view().push(key@));
            }
        },
        None => {},
    }
}

/// Classifies one text entry: cleans the value of its store marker and hands
/// it to the field that the key feeds, if any.
pub fn parse_key_value(key: &str, value: &str, metadata: &mut ElementMetadata)
    ensures
        final(metadata)@ == classified(old(metadata)@, key@, value@),
{
    let clean = clean_value(value);
    let field = classify_key(key);
    let truthy = match field {
        Some(Field::NotificationsEnabled) | Some(Field::EncryptedRoom) => {
            let lowered = lowercase(clean.as_str());
            same_text(lowered.as_str(), "true")
        },
        _ => false,
    };
    apply_field(metadata, field, key, clean, truthy);
}

} // verus!

//! The metadata record that an extraction produces.

use crate::archive::RawArchive;
use vstd::prelude::*;

verus! {

/// What one pass over a store has learnt about the account that owns it.
///
/// A field that is `None`, or a list that is empty, was not observed in the
/// store; it is not known to be empty.
#[derive(Debug)]
pub struct ElementMetadata {
    /// Identifier of the signed-in user.
    pub user_id: Option<String>,
    /// Display name from the user's profile.
    pub display_name: Option<String>,
    /// Reference to the user's avatar.
    pub avatar_url: Option<String>,
    /// Colour theme of the client.
    pub theme: Option<String>,
    /// Language or locale of the client.
    pub language: Option<String>,
    /// Whether notifications are switched on.
    pub notifications_enabled: Option<bool>,
    /// Room identifiers, in the order in which the store yielded them.
    pub room_ids: Vec<String>,
    /// Keys of the entries that flag a room as encrypted, in store order.
    pub encrypted_rooms: Vec<String>,
    /// Identifier of this device.
    pub device_id: Option<String>,
    /// Name of this device.
    pub device_name: Option<String>,
    /// The device's Curve25519 identity key.
    pub curve25519_key: Option<String>,
    /// The device's Ed25519 signing key.
    pub ed25519_key: Option<String>,
    /// Every decodable key of the store with the text recorded for it.
    pub raw_entries: RawArchive,
}

/// The mathematical content of an [`ElementMetadata`].
pub struct MetadataView {
    pub user_id: Option<Seq<char>>,
    pub display_name: Option<Seq<char>>,
    pub avatar_url: Option<Seq<char>>,
    pub theme: Option<Seq<char>>,
    pub language: Option<Seq<char>>,
    pub notifications_enabled: Option<bool>,
    pub room_ids: Seq<Seq<char>>,
    pub encrypted_rooms: Seq<Seq<char>>,
    pub device_id: Option<Seq<char>>,
    pub device_name: Option<Seq<char>>,
    pub curve25519_key: Option<Seq<char>>,
    pub ed25519_key: Option<Seq<char>>,
    pub raw_entries: Map<Seq<char>, Seq<char>>,
}

/// The record of a store in which nothing was observed.
pub open spec fn empty_record() -> MetadataView {
    MetadataView {
        user_id: None,
        display_name: None,
        avatar_url: None,
        theme: None,
        language: None,
        notifications_enabled: None,
        room_ids: Seq::empty(),
        encrypted_rooms: Seq::empty(),
        device_id: None,
        device_name: None,
        curve25519_key: None,
        ed25519_key: None,
        raw_entries: Map::empty(),
    }
}

impl View for ElementMetadata {
    type V = MetadataView;

    open spec fn view(&self) -> MetadataView {
        MetadataView {
            user_id: self.user_id.deep_view(),
            display_name: self.display_name.deep_view(),
            avatar_url: self.avatar_url.deep_view(),
            theme: self.theme.deep_view(),
            language: self.language.deep_view(),
            notifications_enabled: self.notifications_enabled,
            room_ids: self.room_ids.deep_view(),
            encrypted_rooms: self.encrypted_rooms.deep_view(),
            device_id: self.device_id.deep_view(),
            device_name: self.device_name.deep_view(),
            curve25519_key: self.curve25519_key.deep_view(),
            ed25519_key: self.ed25519_key.deep_view(),
            raw_entries: self.raw_entries@,
        }
    }
}

impl Default for ElementMetadata {
    fn default() -> (record: ElementMetadata)
        ensures
            record@ == empty_record(),
    {
        let record = ElementMetadata {
            user_id: None,
            display_name: None,
            avatar_url: None,
            theme: None,
            language: None,
            notifications_enabled: None,
            room_ids: Vec::new(),
            encrypted_rooms: Vec::new(),
            device_id: None,
            device_name: None,
            curve25519_key: None,
            ed25519_key: None,
            raw_entries: RawArchive::new(),
        };
        assert(record.room_ids.deep_view() =~= Seq::<Seq<char>>::empty());
        assert(record.encrypted_rooms.deep_view() =~= Seq::<Seq<char>>::empty());
        record
    }
}

impl Clone for ElementMetadata {
    fn clone(&self) -> (copy: ElementMetadata)
        ensures
            copy@ == self@,
    {
        let copy = ElementMetadata {
            user_id: self.user_id.clone(),
            display_name: self.display_name.clone(),
            avatar_url: self.avatar_url.clone(),
            theme: self.theme.clone(),
            language: self.language.clone(),
            notifications_enabled: self.notifications_enabled,
            room_ids: self.room_ids.clone(),
            encrypted_rooms: self.encrypted_rooms.clone(),
            device_id: self.device_id.clone(),
            device_name: self.device_name.clone(),
            curve25519_key: self.curve25519_key.clone(),
            ed25519_key: self.ed25519_key.clone(),
            raw_entries: self.raw_entries.clone(),
        };
        copy
    }
}

} // verus!

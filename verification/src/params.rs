//! The fields read off a URI before they are validated: one slot for each
//! recognized tag.

use crate::key::WifiUriParamKey;
use vstd::prelude::*;

verus! {

/// The decoded values of the fields seen so far, at most one for each tag.
///
/// Its view is the map from the tags that are present to their values.
pub struct RawUriParams {
    security_type: Option<String>,
    transition_disable: Option<String>,
    ssid: Option<String>,
    hidden: Option<String>,
    sae_password_identifier: Option<String>,
    password: Option<String>,
    public_key: Option<String>,
}

/// The text in a slot, if it is filled.
pub open spec fn slot_text(slot: Option<String>) -> Option<Seq<char>> {
    match slot {
        Some(text) => Some(text@),
        None => None,
    }
}

impl RawUriParams {
    /// What the slot of `key` holds.
    pub closed spec fn value(&self, key: WifiUriParamKey) -> Option<Seq<char>> {
        match key {
            WifiUriParamKey::SecurityType => slot_text(self.security_type),
            WifiUriParamKey::TransitionDisable => slot_text(self.transition_disable),
            WifiUriParamKey::Ssid => slot_text(self.ssid),
            WifiUriParamKey::Hidden => slot_text(self.hidden),
            WifiUriParamKey::SaePasswordIdentifier => slot_text(self.sae_password_identifier),
            WifiUriParamKey::Password => slot_text(self.password),
            WifiUriParamKey::PublicKey => slot_text(self.public_key),
        }
    }

    /// No field has been seen.
    pub fn new() -> (params: RawUriParams)
        ensures
            params@ == Map::<WifiUriParamKey, Seq<char>>::empty(),
    {
        let params = RawUriParams {
            security_type: None,
            transition_disable: None,
            ssid: None,
            hidden: None,
            sae_password_identifier: None,
            password: None,
            public_key: None,
        };
        assert(params@ =~= Map::<WifiUriParamKey, Seq<char>>::empty());
        params
    }

    /// Whether a value is held for `key`.
    pub fn contains_key(&self, key: WifiUriParamKey) -> (present: bool)
        ensures
            present == self@.contains_key(key),
    {
        match key {
            WifiUriParamKey::SecurityType => self.security_type.is_some(),
            WifiUriParamKey::TransitionDisable => self.transition_disable.is_some(),
            WifiUriParamKey::Ssid => self.ssid.is_some(),
            WifiUriParamKey::Hidden => self.hidden.is_some(),
            WifiUriParamKey::SaePasswordIdentifier => self.sae_password_identifier.is_some(),
            WifiUriParamKey::Password => self.password.is_some(),
            WifiUriParamKey::PublicKey => self.public_key.is_some(),
        }
    }

    /// Stores `value` under `key` and hands back the value that it replaces.
    pub fn insert(&mut self, key: WifiUriParamKey, value: String) -> (previous: Option<String>)
        ensures
            final(self)@ == old(self)@.insert(key, value@),
            match previous {
                Some(text) => old(self)@.contains_key(key) && old(self)@[key] == text@,
                None => !old(self)@.contains_key(key),
            },
    {
        let mut filled = Some(value);
        match key {
            WifiUriParamKey::SecurityType => core::mem::swap(&mut self.security_type, &mut filled),
            WifiUriParamKey::TransitionDisable => core::mem::swap(
                &mut self.transition_disable,
                &mut filled,
            ),
            WifiUriParamKey::Ssid => core::mem::swap(&mut self.ssid, &mut filled),
            WifiUriParamKey::Hidden => core::mem::swap(&mut self.hidden, &mut filled),
            WifiUriParamKey::SaePasswordIdentifier => core::mem::swap(
                &mut self.sae_password_identifier,
                &mut filled,
            ),
            WifiUriParamKey::Password => core::mem::swap(&mut self.password, &mut filled),
            WifiUriParamKey::PublicKey => core::mem::swap(&mut self.public_key, &mut filled),
        }
        assert(self@ =~= old(self)@.insert(key, value@));
        filled
    }

    /// Takes the value of `key` out, if there is one.
    pub fn remove(&mut self, key: WifiUriParamKey) -> (removed: Option<String>)
        ensures
            final(self)@ == old(self)@.remove(key),
            match removed {
                Some(text) => old(self)@.contains_key(key) && old(self)@[key] == text@,
                None => !old(self)@.contains_key(key),
            },
    {
        let mut taken = None;
        match key {
            WifiUriParamKey::SecurityType => core::mem::swap(&mut self.security_type, &mut taken),
            WifiUriParamKey::TransitionDisable => core::mem::swap(
                &mut self.transition_disable,
                &mut taken,
            ),
            WifiUriParamKey::Ssid => core::mem::swap(&mut self.ssid, &mut taken),
            WifiUriParamKey::Hidden => core::mem::swap(&mut self.hidden, &mut taken),
            WifiUriParamKey::SaePasswordIdentifier => core::mem::swap(
                &mut self.sae_password_identifier,
                &mut taken,
            ),
            WifiUriParamKey::Password => core::mem::swap(&mut self.password, &mut taken),
            WifiUriParamKey::PublicKey => core::mem::swap(&mut self.public_key, &mut taken),
        }
        assert(self@ =~= old(self)@.remove(key));
        taken
    }

    /// Whether no value is held at all.
    pub fn is_empty(&self) -> (empty: bool)
        ensures
            empty == (self@ == Map::<WifiUriParamKey, Seq<char>>::empty()),
    {
        let empty = self.security_type.is_none() && self.transition_disable.is_none()
            && self.ssid.is_none() && self.hidden.is_none()
            && self.sae_password_identifier.is_none() && self.password.is_none()
            && self.public_key.is_none();
        proof {
            if empty {
                assert(self@ =~= Map::<WifiUriParamKey, Seq<char>>::empty());
            } else {
                let witness = if self.security_type.is_some() {
                    WifiUriParamKey::SecurityType
                } else if self.transition_disable.is_some() {
                    WifiUriParamKey::TransitionDisable
                } else if self.ssid.is_some() {
                    WifiUriParamKey::Ssid
                } else if self.hidden.is_some() {
                    WifiUriParamKey::Hidden
                } else if self.sae_password_identifier.is_some() {
                    WifiUriParamKey::SaePasswordIdentifier
                } else if self.password.is_some() {
                    WifiUriParamKey::Password
                } else {
                    WifiUriParamKey::PublicKey
                };
                assert(self@.contains_key(witness));
            }
        }
        empty
    }
}

impl View for RawUriParams {
    type V = Map<WifiUriParamKey, Seq<char>>;

    open spec fn view(&self) -> Map<WifiUriParamKey, Seq<char>> {
        Map::new(
            |key: WifiUriParamKey| self.value(key) is Some,
            |key: WifiUriParamKey| self.value(key)->0,
        )
    }
}

} // verus!

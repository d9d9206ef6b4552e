//! The closed set of field tags of a WiFi-join URI.

use crate::error::{UriFault, WifiUriError};
use vstd::prelude::*;
use vstd::string::*;

verus! {

/// A recognized field of a WiFi-join URI.
#[derive(Debug, Clone, Copy, PartialEq, Eq, Hash)]
pub enum WifiUriParamKey {
    /// `T`: the security scheme.
    SecurityType,
    /// `R`: the transition-disable flag.
    TransitionDisable,
    /// `S`: the network's name.
    Ssid,
    /// `H`: whether the network hides its name.
    Hidden,
    /// `I`: the SAE password identifier.
    SaePasswordIdentifier,
    /// `P`: the password.
    Password,
    /// `K`: the public key.
    PublicKey,
}

impl WifiUriParamKey {
    /// The letter that stands for this field in a URI.
    pub open spec fn letter(self) -> char {
        match self {
            WifiUriParamKey::SecurityType => 'T',
            WifiUriParamKey::TransitionDisable => 'R',
            WifiUriParamKey::Ssid => 'S',
            WifiUriParamKey::Hidden => 'H',
            WifiUriParamKey::SaePasswordIdentifier => 'I',
            WifiUriParamKey::Password => 'P',
            WifiUriParamKey::PublicKey => 'K',
        }
    }

    /// The field that a letter stands for.
    pub open spec fn of_letter(letter: char) -> Option<WifiUriParamKey> {
        if letter == 'T' {
            Some(WifiUriParamKey::SecurityType)
        } else if letter == 'R' {
            Some(WifiUriParamKey::TransitionDisable)
        } else if letter == 'S' {
            Some(WifiUriParamKey::Ssid)
        } else if letter == 'H' {
            Some(WifiUriParamKey::Hidden)
        } else if letter == 'I' {
            Some(WifiUriParamKey::SaePasswordIdentifier)
        } else if letter == 'P' {
            Some(WifiUriParamKey::Password)
        } else if letter == 'K' {
            Some(WifiUriParamKey::PublicKey)
        } else {
            None
        }
    }

    /// The field that a tag names: a tag is one recognized letter, in upper case.
    pub open spec fn of_tag(tag: Seq<char>) -> Option<WifiUriParamKey> {
        if tag.len() == 1 {
            Self::of_letter(tag[0])
        } else {
            None
        }
    }

    /// The tag of this field, as it is written in a URI.
    pub open spec fn tag(self) -> Seq<char> {
        seq![self.letter()]
    }

    /// Reads a tag. Any text but one of the seven letters is refused as an
    /// unknown parameter, and the error carries that text.
    pub fn from_str(key: &str) -> (parsed: Result<WifiUriParamKey, WifiUriError>)
        ensures
            match parsed {
                Ok(found) => Self::of_tag(key@) == Some(found),
                Err(fault) => Self::of_tag(key@) is None && fault@ == (UriFault::UnknownParam {
                    tag: key@,
                }),
            },
    {
        if key.unicode_len() == 1 {
            let letter = key.get_char(0);
            if letter == 'T' {
                return Ok(WifiUriParamKey::SecurityType);
            } else if letter == 'R' {
                return Ok(WifiUriParamKey::TransitionDisable);
            } else if letter == 'S' {
                return Ok(WifiUriParamKey::Ssid);
            } else if letter == 'H' {
                return Ok(WifiUriParamKey::Hidden);
            } else if letter == 'I' {
                return Ok(WifiUriParamKey::SaePasswordIdentifier);
            } else if letter == 'P' {
                return Ok(WifiUriParamKey::Password);
            } else if letter == 'K' {
                return Ok(WifiUriParamKey::PublicKey);
            }
        }
        Err(WifiUriError::UnknownParam { tag: String::from_str(key) })
    }

    /// The tag of this field, as it is written in a URI.
    pub fn to_tag(self) -> (tag: &'static str)
        ensures
            tag@ == self.tag(),
    {
        proof {
            reveal_strlit("T");
            reveal_strlit("R");
            reveal_strlit("S");
            reveal_strlit("H");
            reveal_strlit("I");
            reveal_strlit("P");
            reveal_strlit("K");
        }
        let tag = match self {
            WifiUriParamKey::SecurityType => "T",
            WifiUriParamKey::TransitionDisable => "R",
            WifiUriParamKey::Ssid => "S",
            WifiUriParamKey::Hidden => "H",
            WifiUriParamKey::SaePasswordIdentifier => "I",
            WifiUriParamKey::Password => "P",
            WifiUriParamKey::PublicKey => "K",
        };
        assert(tag@ =~= self.tag());
        tag
    }

    /// The letter that stands for this field in a URI.
    pub fn to_letter(self) -> (letter: char)
        ensures
            letter == self.letter(),
    {
        match self {
            WifiUriParamKey::SecurityType => 'T',
            WifiUriParamKey::TransitionDisable => 'R',
            WifiUriParamKey::Ssid => 'S',
            WifiUriParamKey::Hidden => 'H',
            WifiUriParamKey::SaePasswordIdentifier => 'I',
            WifiUriParamKey::Password => 'P',
            WifiUriParamKey::PublicKey => 'K',
        }
    }
}

/// A letter stands for the field whose letter it is, and for no other.
pub proof fn lemma_letter_names_its_key(key: WifiUriParamKey)
    ensures
        WifiUriParamKey::of_letter(key.letter()) == Some(key),
        WifiUriParamKey::of_tag(key.tag()) == Some(key),
{
}

} // verus!

//! The ways in which a WiFi-join URI is refused.

use crate::key::WifiUriParamKey;
use vstd::prelude::*;
use vstd::string::*;

verus! {

/// Why a WiFi-join URI was refused. Each variant carries the tag or the value
/// at fault, as it stood in the URI (a tag) or after decoding (a value).
#[derive(Debug, Clone, PartialEq, Eq)]
pub enum WifiUriError {
    /// The text does not begin with `WIFI:`.
    MissingPrefix,
    /// The text ends where a field or the closing `;` was due.
    Unterminated,
    /// What is left holds no `:` to end a tag.
    MissingColon,
    /// The value of the field `tag` is not closed by a `;`.
    UnterminatedField { tag: String },
    /// The value of the field `tag` does not decode to UTF-8.
    InvalidUtf8 { tag: String },
    /// `tag` is none of the recognized tags.
    UnknownParam { tag: String },
    /// The field `tag` occurs a second time.
    DuplicateKey { tag: String },
    /// The `R` field is not the integer zero.
    UnsupportedTransitionDisable { value: String },
    /// The `T` field names another scheme than `WPA`.
    UnsupportedSecurityType { value: String },
    /// There is no `S` field, or it is empty.
    MissingSsid,
    /// The `H` field is neither `true` nor `false`.
    InvalidHidden { value: String },
    /// Fields are present that are recognized but not supported.
    UnsupportedFlags { keys: Vec<WifiUriParamKey> },
}

/// A [`WifiUriError`] as a mathematical value.
pub enum UriFault {
    MissingPrefix,
    Unterminated,
    MissingColon,
    UnterminatedField { tag: Seq<char> },
    InvalidUtf8 { tag: Seq<char> },
    UnknownParam { tag: Seq<char> },
    DuplicateKey { tag: Seq<char> },
    UnsupportedTransitionDisable { value: Seq<char> },
    UnsupportedSecurityType { value: Seq<char> },
    MissingSsid,
    InvalidHidden { value: Seq<char> },
    UnsupportedFlags { keys: Seq<WifiUriParamKey> },
}

impl View for WifiUriError {
    type V = UriFault;

    open spec fn view(&self) -> UriFault {
        match *self {
            WifiUriError::MissingPrefix => UriFault::MissingPrefix,
            WifiUriError::Unterminated => UriFault::Unterminated,
            WifiUriError::MissingColon => UriFault::MissingColon,
            WifiUriError::UnterminatedField { tag } => UriFault::UnterminatedField { tag: tag@ },
            WifiUriError::InvalidUtf8 { tag } => UriFault::InvalidUtf8 { tag: tag@ },
            WifiUriError::UnknownParam { tag } => UriFault::UnknownParam { tag: tag@ },
            WifiUriError::DuplicateKey { tag } => UriFault::DuplicateKey { tag: tag@ },
            WifiUriError::UnsupportedTransitionDisable { value } => {
                UriFault::UnsupportedTransitionDisable { value: value@ }
            },
            WifiUriError::UnsupportedSecurityType { value } => {
                UriFault::UnsupportedSecurityType { value: value@ }
            },
            WifiUriError::MissingSsid => UriFault::MissingSsid,
            WifiUriError::InvalidHidden { value } => UriFault::InvalidHidden { value: value@ },
            WifiUriError::UnsupportedFlags { keys } => UriFault::UnsupportedFlags { keys: keys@ },
        }
    }
}

/// The tags of `keys` as a message lists them: each with a space before it
/// and a colon behind it.
pub open spec fn listed_tags(keys: Seq<WifiUriParamKey>) -> Seq<char>
    decreases keys.len(),
{
    if keys.len() == 0 {
        Seq::empty()
    } else {
        listed_tags(keys.drop_last()) + " "@ + keys.last().tag() + ":"@
    }
}

impl UriFault {
    /// What is wrong, in words, with the tag or the value at fault.
    pub open spec fn message(self) -> Seq<char> {
        match self {
            UriFault::MissingPrefix => "WIFI URI should start with 'WIFI:'"@,
            UriFault::Unterminated => "unterminated WIFI URI"@,
            UriFault::MissingColon => "no ':' left in WIFI URI"@,
            UriFault::UnterminatedField { tag } => "unterminated "@ + tag + ": in WIFI URI"@,
            UriFault::InvalidUtf8 { tag } => "only utf8 values are supported, "@ + tag
                + ": holds something else"@,
            UriFault::UnknownParam { tag } => "unknown WIFI URI param '"@ + tag + ":'"@,
            UriFault::DuplicateKey { tag } => "duplicate key '"@ + tag + ":' in WIFI URI"@,
            UriFault::UnsupportedTransitionDisable { value } => {
                "unsupported transition_disable flag: \""@ + value + "\""@
            },
            UriFault::UnsupportedSecurityType { value } => "unsupported security type \""@ + value
                + "\""@,
            UriFault::MissingSsid => "WIFI URI missing SSID"@,
            UriFault::InvalidHidden { value } => {
                "hidden should be \"true\" or \"false\", not \""@ + value + "\""@
            },
            UriFault::UnsupportedFlags { keys } => "unsupported flags:"@ + listed_tags(keys),
        }
    }
}

/// Puts `middle` between two pieces of a message.
fn framed(before: &str, middle: &str, after: &str) -> (text: String)
    ensures
        text@ == before@ + middle@ + after@,
{
    let mut text = String::from_str(before);
    text.append(middle);
    text.append(after);
    text
}

impl WifiUriError {
    /// What is wrong, in words, with the tag or the value at fault.
    pub fn message(&self) -> (text: String)
        ensures
            text@ == self@.message(),
    {
        match self {
            WifiUriError::MissingPrefix => String::from_str("WIFI URI should start with 'WIFI:'"),
            WifiUriError::Unterminated => String::from_str("unterminated WIFI URI"),
            WifiUriError::MissingColon => String::from_str("no ':' left in WIFI URI"),
            WifiUriError::UnterminatedField { tag } => framed(
                "unterminated ",
                tag.as_str(),
                ": in WIFI URI",
            ),
            WifiUriError::InvalidUtf8 { tag } => framed(
                "only utf8 values are supported, ",
                tag.as_str(),
                ": holds something else",
            ),
            WifiUriError::UnknownParam { tag } => framed(
                "unknown WIFI URI param '",
                tag.as_str(),
                ":'",
            ),
            WifiUriError::DuplicateKey { tag } => framed(
                "duplicate key '",
                tag.as_str(),
                ":' in WIFI URI",
            ),
            WifiUriError::UnsupportedTransitionDisable { value } => framed(
                "unsupported transition_disable flag: \"",
                value.as_str(),
                "\"",
            ),
            WifiUriError::UnsupportedSecurityType { value } => framed(
                "unsupported security type \"",
                value.as_str(),
                "\"",
            ),
            WifiUriError::MissingSsid => String::from_str("WIFI URI missing SSID"),
            WifiUriError::InvalidHidden { value } => framed(
                "hidden should be \"true\" or \"false\", not \"",
                value.as_str(),
                "\"",
            ),
            WifiUriError::UnsupportedFlags { keys } => {
                let mut text = String::from_str("unsupported flags:");
                let mut at: usize = 0;
                while at < keys.len()
                    invariant
                        at <= keys.len(),
                        text@ == "unsupported flags:"@ + listed_tags(keys@.take(at as int)),
                    decreases keys.len() - at,
                {
                    text.append(" ");
                    text.append(keys[at].to_tag());
                    text.append(":");
                    proof {
                        let shorter = keys@.take(at as int);
                        let longer = keys@.take(at + 1);
                        assert(longer.drop_last() =~= shorter);
                        assert(longer.last() == keys@[at as int]);
                        assert(text@ =~= "unsupported flags:"@ + listed_tags(longer));
                    }
                    at = at + 1;
                }
                assert(keys@.take(at as int) =~= keys@);
                text
            },
        }
    }
}

} // verus!

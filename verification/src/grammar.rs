//! What a WiFi-join URI means: the grammar `"WIFI:" *(tag ":" value ";") ";"`
//! and the rules on its fields, as functions on sequences of characters.

use crate::error::UriFault;
use crate::key::WifiUriParamKey;
use crate::percent::decoded_text;
use vstd::prelude::*;

verus! {

/// The fields of a URI by tag, each with its decoded value.
pub type FieldMap = Map<WifiUriParamKey, Seq<char>>;

/// What is needed to join a network, as a mathematical value.
pub struct ConnectionView {
    pub ssid: Seq<char>,
    pub password: Option<Seq<char>>,
    pub hidden: bool,
}

/// The prefix that every WiFi-join URI begins with.
pub open spec fn uri_prefix() -> Seq<char> {
    seq!['W', 'I', 'F', 'I', ':']
}

/// The one security scheme that is supported.
pub open spec fn supported_security() -> Seq<char> {
    seq!['W', 'P', 'A']
}

/// The text `true`.
pub open spec fn true_text() -> Seq<char> {
    seq!['t', 'r', 'u', 'e']
}

/// The text `false`.
pub open spec fn false_text() -> Seq<char> {
    seq!['f', 'a', 'l', 's', 'e']
}

/// `text` without a leading sign.
pub open spec fn without_sign(text: Seq<char>) -> Seq<char> {
    if text.len() > 0 && (text[0] == '+' || text[0] == '-') {
        text.skip(1)
    } else {
        text
    }
}

/// Whether `text` is a decimal integer equal to zero: an optional sign, then
/// one or more digits, all of them `0`.
pub open spec fn denotes_zero(text: Seq<char>) -> bool {
    let digits = without_sign(text);
    digits.len() > 0 && forall|i: int| 0 <= i < digits.len() ==> digits[i] == '0'
}

/// Reads the fields of `rest`, which is what follows the prefix or an earlier
/// field, into `seen`. Reading ends at the closing `;`; the first thing out of
/// place ends it with that fault.
pub open spec fn scanned_fields(rest: Seq<char>, seen: FieldMap) -> Result<FieldMap, UriFault>
    decreases rest.len(),
    via scanned_fields_decreases
{
    if rest == seq![';'] {
        Ok(seen)
    } else if rest.len() == 0 {
        Err(UriFault::Unterminated)
    } else {
        match rest.index_of_first(':') {
            None => Err(UriFault::MissingColon),
            Some(colon) => {
                let tag = rest.take(colon);
                let after = rest.skip(colon + 1);
                match after.index_of_first(';') {
                    None => Err(UriFault::UnterminatedField { tag }),
                    Some(end) => match decoded_text(after.take(end)) {
                        None => Err(UriFault::InvalidUtf8 { tag }),
                        Some(value) => match WifiUriParamKey::of_tag(tag) {
                            None => Err(UriFault::UnknownParam { tag }),
                            Some(key) => if seen.contains_key(key) {
                                Err(UriFault::DuplicateKey { tag })
                            } else {
                                scanned_fields(after.skip(end + 1), seen.insert(key, value))
                            },
                        },
                    },
                }
            },
        }
    }
}

#[via_fn]
proof fn scanned_fields_decreases(rest: Seq<char>, seen: FieldMap) {
    rest.index_of_first_ensures(':');
    if let Some(colon) = rest.index_of_first(':') {
        rest.skip(colon + 1).index_of_first_ensures(';');
    }
}

/// The supported fields that are present though nothing supports them, in the
/// order `I`, `K`.
pub open spec fn unsupported_keys(fields: FieldMap) -> Seq<WifiUriParamKey> {
    let identifier = if fields.contains_key(WifiUriParamKey::SaePasswordIdentifier) {
        seq![WifiUriParamKey::SaePasswordIdentifier]
    } else {
        Seq::empty()
    };
    let public_key = if fields.contains_key(WifiUriParamKey::PublicKey) {
        seq![WifiUriParamKey::PublicKey]
    } else {
        Seq::empty()
    };
    identifier + public_key
}

/// The connection that a set of fields describes, or the first rule that they
/// break. The rules are held in this order: `R` is zero; `T` is the supported
/// scheme; `S` is present and not empty; `H` is `true` or `false`; neither `I`
/// nor `K` is present.
pub open spec fn described_connection(fields: FieldMap) -> Result<ConnectionView, UriFault> {
    if fields.contains_key(WifiUriParamKey::TransitionDisable) && !denotes_zero(
        fields[WifiUriParamKey::TransitionDisable],
    ) {
        Err(
            UriFault::UnsupportedTransitionDisable {
                value: fields[WifiUriParamKey::TransitionDisable],
            },
        )
    } else if fields.contains_key(WifiUriParamKey::SecurityType)
        && fields[WifiUriParamKey::SecurityType] != supported_security() {
        Err(UriFault::UnsupportedSecurityType { value: fields[WifiUriParamKey::SecurityType] })
    } else if !fields.contains_key(WifiUriParamKey::Ssid) || fields[WifiUriParamKey::Ssid].len()
        == 0 {
        Err(UriFault::MissingSsid)
    } else if fields.contains_key(WifiUriParamKey::Hidden) && fields[WifiUriParamKey::Hidden]
        != true_text() && fields[WifiUriParamKey::Hidden] != false_text() {
        Err(UriFault::InvalidHidden { value: fields[WifiUriParamKey::Hidden] })
    } else if unsupported_keys(fields).len() > 0 {
        Err(UriFault::UnsupportedFlags { keys: unsupported_keys(fields) })
    } else {
        Ok(
            ConnectionView {
                ssid: fields[WifiUriParamKey::Ssid],
                password: if fields.contains_key(WifiUriParamKey::Password) {
                    Some(fields[WifiUriParamKey::Password])
                } else {
                    None
                },
                hidden: fields.contains_key(WifiUriParamKey::Hidden)
                    && fields[WifiUriParamKey::Hidden] == true_text(),
            },
        )
    }
}

/// The connection that the text of a URI describes, or the reason why it
/// describes none.
pub open spec fn parsed_uri(text: Seq<char>) -> Result<ConnectionView, UriFault> {
    if !uri_prefix().is_prefix_of(text) {
        Err(UriFault::MissingPrefix)
    } else {
        match scanned_fields(text.skip(uri_prefix().len() as int), Map::empty()) {
            Err(fault) => Err(fault),
            Ok(fields) => described_connection(fields),
        }
    }
}

} // verus!

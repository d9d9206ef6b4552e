//! The parser of WiFi-join URIs: one pass over the text, then the rules on
//! the fields that it found.

use crate::error::{UriFault, WifiUriError};
use crate::grammar::{
    denotes_zero, described_connection, false_text, parsed_uri, scanned_fields,
    supported_security, true_text, unsupported_keys, uri_prefix, without_sign, ConnectionView,
    FieldMap,
};
use crate::key::WifiUriParamKey;
use crate::params::RawUriParams;
use crate::percent::percent_decode_utf8;
use crate::text::{same_text, split_once, strip_prefix};
use vstd::prelude::*;
use vstd::std_specs::iter::IteratorSpec;
use vstd::string::*;

verus! {

/// What is needed to join a network. Only the parser makes one, from a URI
/// that passed every rule; its SSID is never empty.
#[derive(Debug, PartialEq, Eq)]
pub struct WifiConnection {
    ssid: String,
    password: Option<String>,
    hidden: bool,
}

impl View for WifiConnection {
    type V = ConnectionView;

    closed spec fn view(&self) -> ConnectionView {
        ConnectionView {
            ssid: self.ssid@,
            password: match self.password {
                Some(password) => Some(password@),
                None => None,
            },
            hidden: self.hidden,
        }
    }
}

impl WifiConnection {
    #[verifier::type_invariant]
    spec fn named(self) -> bool {
        self.ssid@.len() > 0
    }

    /// The network's name.
    pub fn ssid(&self) -> (ssid: &str)
        ensures
            ssid@ == self@.ssid,
            ssid@.len() > 0,
    {
        proof {
            use_type_invariant(self);
        }
        self.ssid.as_str()
    }

    /// The password, where the network has one.
    pub fn password(&self) -> (password: Option<&str>)
        ensures
            match password {
                Some(text) => self@.password == Some(text@),
                None => self@.password is None,
            },
    {
        match &self.password {
            Some(password) => Some(password.as_str()),
            None => None,
        }
    }

    /// Whether the network hides its name.
    pub fn hidden(&self) -> (hidden: bool)
        ensures
            hidden == self@.hidden,
    {
        self.hidden
    }
}

/// The outcome of parsing, as a mathematical value.
pub open spec fn outcome_view(outcome: Result<WifiConnection, WifiUriError>) -> Result<
    ConnectionView,
    UriFault,
> {
    match outcome {
        Ok(connection) => Ok(connection@),
        Err(fault) => Err(fault@),
    }
}

/// The outcome of reading the fields, as a mathematical value.
pub open spec fn fields_view(outcome: Result<RawUriParams, WifiUriError>) -> Result<
    FieldMap,
    UriFault,
> {
    match outcome {
        Ok(params) => Ok(params@),
        Err(fault) => Err(fault@),
    }
}

/// Whether `text` is a decimal integer equal to zero.
pub fn is_zero_literal(text: &str) -> (yes: bool)
    ensures
        yes == denotes_zero(text@),
{
    broadcast use vstd::string::group_string_axioms;

    let len = text.unicode_len();
    if len == 0 {
        return false;
    }
    let mut chars = text.chars();
    let first = text.get_char(0);
    let start: usize = if first == '+' || first == '-' {
        let _ = chars.next();
        1
    } else {
        0
    };
    if start == len {
        return false;
    }
    let ghost digits = without_sign(text@);
    assert(digits == text@.skip(start as int));
    let mut at: usize = start;
    while at < len
        invariant
            len == text@.len(),
            start <= at <= len,
            start < len,
            digits == without_sign(text@),
            digits == text@.skip(start as int),
            chars.remaining() == text@.skip(at as int),
            forall|j: int| start <= j < at ==> text@[j] == '0',
        decreases len - at,
    {
        let digit = chars.next();
        assert(digit == Some(text@[at as int]));
        if digit != Some('0') {
            assert(digits[at - start] != '0');
            return false;
        }
        at = at + 1;
    }
    assert forall|i: int| 0 <= i < digits.len() implies digits[i] == '0' by {
        assert(digits[i] == text@[start + i]);
    }
    true
}

/// Reads the fields that follow the prefix, up to the closing `;`.
pub fn scan_fields(fields: &str) -> (scanned: Result<RawUriParams, WifiUriError>)
    ensures
        fields_view(scanned) == scanned_fields(fields@, Map::empty()),
{
    let mut remaining = fields;
    let mut params = RawUriParams::new();
    loop
        invariant
            scanned_fields(fields@, Map::empty()) == scanned_fields(remaining@, params@),
        decreases remaining@.len(),
    {
        proof {
            reveal_strlit(";");
            assert(";"@ =~= seq![';']);
            remaining@.index_of_first_ensures(':');
        }
        if same_text(remaining, ";") {
            assert(remaining@ =~= seq![';']);
            return Ok(params);
        }
        if remaining.unicode_len() == 0 {
            return Err(WifiUriError::Unterminated);
        }
        let (tag, after) = match split_once(remaining, ':') {
            Some(parts) => parts,
            None => {
                return Err(WifiUriError::MissingColon);
            },
        };
        proof {
            after@.index_of_first_ensures(';');
        }
        let (raw, rest) = match split_once(after, ';') {
            Some(parts) => parts,
            None => {
                return Err(WifiUriError::UnterminatedField { tag: String::from_str(tag) });
            },
        };
        let value = match percent_decode_utf8(raw) {
            Ok(value) => value,
            Err(_) => {
                return Err(WifiUriError::InvalidUtf8 { tag: String::from_str(tag) });
            },
        };
        let key = match WifiUriParamKey::from_str(tag) {
            Ok(key) => key,
            Err(fault) => {
                return Err(fault);
            },
        };
        if params.insert(key, value).is_some() {
            return Err(WifiUriError::DuplicateKey { tag: String::from_str(tag) });
        }
        remaining = rest;
    }
}

/// Holds the fields to the rules and builds the connection that they describe.
pub fn build_connection(params: RawUriParams) -> (built: Result<WifiConnection, WifiUriError>)
    ensures
        outcome_view(built) == described_connection(params@),
{
    let mut params = params;
    let ghost fields = params@;
    proof {
        reveal_strlit("WPA");
        reveal_strlit("true");
        reveal_strlit("false");
        assert("WPA"@ =~= supported_security());
        assert("true"@ =~= true_text());
        assert("false"@ =~= false_text());
    }
    if let Some(value) = params.remove(WifiUriParamKey::TransitionDisable) {
        if !is_zero_literal(value.as_str()) {
            return Err(WifiUriError::UnsupportedTransitionDisable { value });
        }
    }
    if let Some(value) = params.remove(WifiUriParamKey::SecurityType) {
        if !same_text(value.as_str(), "WPA") {
            return Err(WifiUriError::UnsupportedSecurityType { value });
        }
    }
    let ssid = match params.remove(WifiUriParamKey::Ssid) {
        Some(ssid) => ssid,
        None => {
            return Err(WifiUriError::MissingSsid);
        },
    };
    if ssid.as_str().unicode_len() == 0 {
        return Err(WifiUriError::MissingSsid);
    }
    let password = params.remove(WifiUriParamKey::Password);
    let hidden = match params.remove(WifiUriParamKey::Hidden) {
        Some(value) => {
            if same_text(value.as_str(), "true") {
                true
            } else if same_text(value.as_str(), "false") {
                false
            } else {
                return Err(WifiUriError::InvalidHidden { value });
            }
        },
        None => false,
    };
    let mut keys: Vec<WifiUriParamKey> = Vec::new();
    if params.contains_key(WifiUriParamKey::SaePasswordIdentifier) {
        keys.push(WifiUriParamKey::SaePasswordIdentifier);
    }
    if params.contains_key(WifiUriParamKey::PublicKey) {
        keys.push(WifiUriParamKey::PublicKey);
    }
    assert(keys@ =~= unsupported_keys(fields));
    if keys.len() > 0 {
        return Err(WifiUriError::UnsupportedFlags { keys });
    }
    Ok(WifiConnection { ssid, password, hidden })
}

/// Parses the text of a WiFi-join URI.
///
/// The text must begin with `WIFI:`; fields of the form `tag:value;` follow,
/// and one more `;` closes the URI. Each value is percent-decoded. The result
/// is the connection that the fields describe, or the first fault met.
pub fn parse_wifi_uri(wifi_uri: String) -> (parsed: Result<WifiConnection, WifiUriError>)
    ensures
        outcome_view(parsed) == parsed_uri(wifi_uri@),
{
    proof {
        reveal_strlit("WIFI:");
    }
    assert("WIFI:"@ =~= uri_prefix());
    let fields = match strip_prefix(wifi_uri.as_str(), "WIFI:") {
        Some(fields) => fields,
        None => {
            return Err(WifiUriError::MissingPrefix);
        },
    };
    match scan_fields(fields) {
        Ok(params) => build_connection(params),
        Err(fault) => Err(fault),
    }
}

} // verus!

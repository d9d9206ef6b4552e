//! Laws of the parser, over URIs written as sequences of well-formed fields.

use crate::error::UriFault;
use crate::fields::{
    all_well_formed, distinct_tags, field_text, field_values, fields_text, key_of,
    lemma_scan_past_fields, lemma_tag_of_key, repeats_a_key, uri_text, value_for, values_onto,
    well_formed, RawField,
};
use crate::percent::decoded_text;
use crate::grammar::{
    denotes_zero, described_connection, false_text, parsed_uri, scanned_fields,
    supported_security, true_text, unsupported_keys, uri_prefix, ConnectionView, FieldMap,
};
use crate::key::WifiUriParamKey;
use crate::nmcli::{nmcli_command, rendered_command, shell_quoted};
use vstd::prelude::*;

verus! {

/// The `R` field, where there is one, is zero.
pub open spec fn transition_accepted(fields: Seq<RawField>) -> bool {
    value_for(fields, WifiUriParamKey::TransitionDisable) matches Some(value) ==> denotes_zero(
        value,
    )
}

/// The `T` field, where there is one, names the supported scheme.
pub open spec fn security_accepted(fields: Seq<RawField>) -> bool {
    value_for(fields, WifiUriParamKey::SecurityType) matches Some(value) ==> value
        == supported_security()
}

/// There is an `S` field, and its value is not empty.
pub open spec fn ssid_given(fields: Seq<RawField>) -> bool {
    value_for(fields, WifiUriParamKey::Ssid) matches Some(value) && value.len() > 0
}

/// The `H` field, where there is one, is `true` or `false`.
pub open spec fn hidden_accepted(fields: Seq<RawField>) -> bool {
    value_for(fields, WifiUriParamKey::Hidden) matches Some(value) ==> value == true_text()
        || value == false_text()
}

/// There is neither an `I` nor a `K` field.
pub open spec fn only_supported(fields: Seq<RawField>) -> bool {
    &&& value_for(fields, WifiUriParamKey::SaePasswordIdentifier) is None
    &&& value_for(fields, WifiUriParamKey::PublicKey) is None
}

/// The quoted form of a word that may be absent.
pub open spec fn quoted_if_any(word: Option<Seq<char>>) -> Option<Seq<char>> {
    match word {
        Some(word) => Some(shell_quoted(word)),
        None => None,
    }
}

/// Well-formed fields with distinct tags repeat no key.
pub proof fn lemma_distinct_tags_repeat_no_key(fields: Seq<RawField>)
    requires
        all_well_formed(fields),
        distinct_tags(fields),
    ensures
        !repeats_a_key(fields, Map::empty()),
{
    if repeats_a_key(fields, Map::empty()) {
        let j = choose|j: int|
            0 <= j < fields.len() && (Map::<WifiUriParamKey, Seq<char>>::empty().contains_key(
                key_of(#[trigger] fields[j]),
            ) || exists|i: int| 0 <= i < j && key_of(#[trigger] fields[i]) == key_of(fields[j]));
        let i = choose|i: int| 0 <= i < j && key_of(#[trigger] fields[i]) == key_of(fields[j]);
        lemma_tag_of_key(fields[i].tag);
        lemma_tag_of_key(fields[j].tag);
    }
}

/// A URI of well-formed fields with distinct tags means what its fields,
/// taken by key, describe.
pub proof fn lemma_written_uri_meaning(fields: Seq<RawField>)
    requires
        all_well_formed(fields),
        distinct_tags(fields),
    ensures
        parsed_uri(uri_text(fields)) == described_connection(field_values(fields)),
{
    let text = uri_text(fields);
    assert(uri_prefix().is_prefix_of(text)) by {
        assert(text.subrange(0, 5) =~= uri_prefix());
    }
    assert(text.skip(5) =~= fields_text(fields) + seq![';']);
    lemma_distinct_tags_repeat_no_key(fields);
    lemma_scan_past_fields(fields, seq![';'], Map::empty());
    assert(values_onto(fields, Map::empty()) =~= field_values(fields));
}

/// Where a tag occurs twice among well-formed fields, the URI is refused as
/// holding a duplicate key, whatever the values are and whatever text follows
/// the fields. The error names the tag of one of the fields.
pub proof fn lemma_repeated_tag_is_refused(
    fields: Seq<RawField>,
    rest: Seq<char>,
    first: int,
    second: int,
)
    requires
        all_well_formed(fields),
        0 <= first < second < fields.len(),
        fields[first].tag == fields[second].tag,
    ensures
        exists|k: int|
            0 <= k < fields.len() && parsed_uri(uri_prefix() + fields_text(fields) + rest) == Err::<
                ConnectionView,
                UriFault,
            >(UriFault::DuplicateKey { tag: (#[trigger] fields[k]).tag }),
{
    let text = uri_prefix() + fields_text(fields) + rest;
    assert(uri_prefix().is_prefix_of(text)) by {
        assert(text.subrange(0, 5) =~= uri_prefix());
    }
    assert(text.skip(5) =~= fields_text(fields) + rest);
    assert(key_of(fields[first]) == key_of(fields[second]));
    assert(repeats_a_key(fields, Map::empty()));
    lemma_scan_past_fields(fields, rest, Map::empty());
    let k = choose|k: int|
        0 <= k < fields.len() && scanned_fields(fields_text(fields) + rest, Map::empty()) == Err::<
            FieldMap,
            UriFault,
        >(UriFault::DuplicateKey { tag: (#[trigger] fields[k]).tag });
    assert(parsed_uri(text) == Err::<ConnectionView, UriFault>(
        UriFault::DuplicateKey { tag: fields[k].tag },
    ));
}

/// A URI of well-formed fields among which there is no `S` field is always
/// refused. Where its tags are distinct and its `R` and `T` fields pass, it is
/// refused for the missing SSID.
pub proof fn lemma_missing_ssid_is_refused(fields: Seq<RawField>)
    requires
        all_well_formed(fields),
        value_for(fields, WifiUriParamKey::Ssid) is None,
    ensures
        parsed_uri(uri_text(fields)) is Err,
        distinct_tags(fields) && transition_accepted(fields) && security_accepted(fields)
            ==> parsed_uri(uri_text(fields)) == Err::<ConnectionView, UriFault>(
            UriFault::MissingSsid,
        ),
{
    lemma_refused_unless_fields_pass(fields);
    if distinct_tags(fields) {
        lemma_written_uri_meaning(fields);
    }
}

/// A URI of well-formed fields is refused unless the fields, taken by key,
/// describe a connection.
pub proof fn lemma_refused_unless_fields_pass(fields: Seq<RawField>)
    requires
        all_well_formed(fields),
    ensures
        parsed_uri(uri_text(fields)) is Ok ==> described_connection(field_values(fields)) is Ok,
{
    let text = uri_text(fields);
    assert(uri_prefix().is_prefix_of(text)) by {
        assert(text.subrange(0, 5) =~= uri_prefix());
    }
    assert(text.skip(5) =~= fields_text(fields) + seq![';']);
    lemma_scan_past_fields(fields, seq![';'], Map::empty());
    if !repeats_a_key(fields, Map::empty()) {
        assert(values_onto(fields, Map::empty()) =~= field_values(fields));
    }
}

/// A URI of well-formed fields that holds an `I` or a `K` field is always
/// refused. Where everything else about it would pass, it is refused for its
/// unsupported fields, and the error names them: `I` first, then `K`.
pub proof fn lemma_unsupported_fields_are_refused(fields: Seq<RawField>)
    requires
        all_well_formed(fields),
        !only_supported(fields),
    ensures
        parsed_uri(uri_text(fields)) is Err,
        distinct_tags(fields) && transition_accepted(fields) && security_accepted(fields)
            && ssid_given(fields) && hidden_accepted(fields) ==> parsed_uri(uri_text(fields))
            == Err::<ConnectionView, UriFault>(
            UriFault::UnsupportedFlags { keys: unsupported_keys(field_values(fields)) },
        ) && unsupported_keys(field_values(fields)) == (if value_for(
            fields,
            WifiUriParamKey::SaePasswordIdentifier,
        ) is Some {
            seq![WifiUriParamKey::SaePasswordIdentifier]
        } else {
            Seq::empty()
        }) + (if value_for(fields, WifiUriParamKey::PublicKey) is Some {
            seq![WifiUriParamKey::PublicKey]
        } else {
            Seq::empty()
        }),
{
    lemma_refused_unless_fields_pass(fields);
    if distinct_tags(fields) {
        lemma_written_uri_meaning(fields);
    }
}

/// Of a URI about which everything but the `H` field passes: `H:true` makes
/// the network hidden, `H:false` and no `H` field make it visible, and any
/// other value is refused as such.
pub proof fn lemma_hidden_flag(fields: Seq<RawField>)
    requires
        all_well_formed(fields),
        distinct_tags(fields),
        transition_accepted(fields),
        security_accepted(fields),
        ssid_given(fields),
        only_supported(fields),
    ensures
        match value_for(fields, WifiUriParamKey::Hidden) {
            None => parsed_uri(uri_text(fields)) matches Ok(connection) && !connection.hidden,
            Some(value) => if value == true_text() {
                parsed_uri(uri_text(fields)) matches Ok(connection) && connection.hidden
            } else if value == false_text() {
                parsed_uri(uri_text(fields)) matches Ok(connection) && !connection.hidden
            } else {
                parsed_uri(uri_text(fields)) == Err::<ConnectionView, UriFault>(
                    UriFault::InvalidHidden { value },
                )
            },
        },
{
    lemma_written_uri_meaning(fields);
    assert(true_text() != false_text()) by {
        assert(true_text().len() != false_text().len());
    }
}

/// A URI of well-formed fields whose `R` field is not zero, or whose `T`
/// field names another scheme than the supported one, is always refused.
/// Where its tags are distinct, the error is that of the `R` field if that is
/// at fault, else that of the `T` field, and carries the value.
pub proof fn lemma_other_schemes_are_refused(fields: Seq<RawField>)
    requires
        all_well_formed(fields),
        !transition_accepted(fields) || !security_accepted(fields),
    ensures
        parsed_uri(uri_text(fields)) is Err,
        distinct_tags(fields) ==> parsed_uri(uri_text(fields)) == Err::<ConnectionView, UriFault>(
            if !transition_accepted(fields) {
                UriFault::UnsupportedTransitionDisable {
                    value: value_for(fields, WifiUriParamKey::TransitionDisable)->0,
                }
            } else {
                UriFault::UnsupportedSecurityType {
                    value: value_for(fields, WifiUriParamKey::SecurityType)->0,
                }
            },
        ),
{
    lemma_refused_unless_fields_pass(fields);
    if distinct_tags(fields) {
        lemma_written_uri_meaning(fields);
    }
}

/// The fields that a text spells, where the scan accepts it: the text is
/// those fields and the closing `;`, and each field is well formed.
pub proof fn lemma_scanned_text_is_written(rest: Seq<char>, seen: FieldMap) -> (fields: Seq<
    RawField,
>)
    requires
        scanned_fields(rest, seen) is Ok,
    ensures
        rest == fields_text(fields) + seq![';'],
        all_well_formed(fields),
    decreases rest.len(),
{
    if rest == seq![';'] {
        let fields = Seq::<RawField>::empty();
        assert(fields_text(fields) + seq![';'] =~= rest);
        fields
    } else {
        rest.index_of_first_ensures(':');
        let colon = rest.index_of_first(':')->0;
        let tag = rest.take(colon);
        let after = rest.skip(colon + 1);
        after.index_of_first_ensures(';');
        let end = after.index_of_first(';')->0;
        let raw = after.take(end);
        let following = after.skip(end + 1);
        let field = RawField { tag, raw };
        let key = WifiUriParamKey::of_tag(tag)->0;
        let others = lemma_scanned_text_is_written(
            following,
            seen.insert(key, decoded_text(raw)->0),
        );
        let fields = seq![field] + others;
        assert(!raw.contains(';')) by {
            if raw.contains(';') {
                let j = choose|j: int| 0 <= j < raw.len() && raw[j] == ';';
                assert(after[j] == raw[j]);
            }
        }
        assert(fields[0] == field);
        assert(fields.drop_first() =~= others);
        assert(rest =~= field_text(field) + (fields_text(others) + seq![';']));
        assert(rest =~= fields_text(fields) + seq![';']);
        assert forall|i: int| 0 <= i < fields.len() implies well_formed(#[trigger] fields[i]) by {
            if i > 0 {
                assert(fields[i] == others[i - 1]);
            }
        }
        fields
    }
}

/// Every text that is accepted is a URI of the grammar: it spells well-formed
/// fields with distinct tags, all of which pass, and it means what they
/// describe.
pub proof fn lemma_accepted_text_is_a_valid_uri(text: Seq<char>) -> (fields: Seq<RawField>)
    requires
        parsed_uri(text) is Ok,
    ensures
        text == uri_text(fields),
        all_well_formed(fields),
        distinct_tags(fields),
        transition_accepted(fields),
        security_accepted(fields),
        ssid_given(fields),
        hidden_accepted(fields),
        only_supported(fields),
        parsed_uri(text) == described_connection(field_values(fields)),
{
    let rest = text.skip(5);
    let fields = lemma_scanned_text_is_written(rest, Map::empty());
    assert(text =~= uri_text(fields)) by {
        assert(text.subrange(0, 5) =~= uri_prefix());
        assert(text =~= text.subrange(0, 5) + rest);
    }
    lemma_scan_past_fields(fields, seq![';'], Map::empty());
    assert(!repeats_a_key(fields, Map::empty()));
    assert(values_onto(fields, Map::empty()) =~= field_values(fields));
    assert(distinct_tags(fields)) by {
        assert forall|i: int, j: int| 0 <= i < j < fields.len() implies (#[trigger] fields[i]).tag
            != (#[trigger] fields[j]).tag by {
            if fields[i].tag == fields[j].tag {
                assert(key_of(fields[i]) == key_of(fields[j]));
            }
        }
    }
    fields
}

/// A URI of well-formed fields with distinct tags, all of which pass, parses
/// to the decoded values of its `S` and `P` fields, and the command rendered
/// from the result holds exactly those values, quoted for the shell.
pub proof fn lemma_valid_uri_round_trips(fields: Seq<RawField>)
    requires
        all_well_formed(fields),
        distinct_tags(fields),
        transition_accepted(fields),
        security_accepted(fields),
        ssid_given(fields),
        hidden_accepted(fields),
        only_supported(fields),
    ensures
        parsed_uri(uri_text(fields)) matches Ok(connection) && connection.ssid == value_for(
            fields,
            WifiUriParamKey::Ssid,
        )->0 && connection.password == value_for(fields, WifiUriParamKey::Password)
            && connection.hidden == (value_for(fields, WifiUriParamKey::Hidden) == Some(
            true_text(),
        )) && rendered_command(connection) == nmcli_command(
            shell_quoted(value_for(fields, WifiUriParamKey::Ssid)->0),
            quoted_if_any(value_for(fields, WifiUriParamKey::Password)),
            connection.hidden,
        ),
{
    lemma_written_uri_meaning(fields);
}

} // verus!

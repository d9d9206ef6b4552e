//! URIs as they are written: a sequence of fields, each a tag and a raw
//! value, and the text that spells them. The laws of the parser are stated
//! over such sequences.

use crate::error::UriFault;
use crate::grammar::{scanned_fields, uri_prefix, FieldMap};
use crate::key::WifiUriParamKey;
use crate::percent::decoded_text;
use vstd::prelude::*;

verus! {

/// One field as it is written: `tag:raw;`.
pub struct RawField {
    pub tag: Seq<char>,
    pub raw: Seq<char>,
}

/// A field that the scan accepts by itself: its tag is recognized, its raw
/// value holds no `;`, and the value decodes to text.
pub open spec fn well_formed(field: RawField) -> bool {
    &&& WifiUriParamKey::of_tag(field.tag) is Some
    &&& !field.raw.contains(';')
    &&& decoded_text(field.raw) is Some
}

/// Every field of the sequence is well formed.
pub open spec fn all_well_formed(fields: Seq<RawField>) -> bool {
    forall|i: int| 0 <= i < fields.len() ==> well_formed(#[trigger] fields[i])
}

/// No tag occurs twice in the sequence.
pub open spec fn distinct_tags(fields: Seq<RawField>) -> bool {
    forall|i: int, j: int|
        0 <= i < j < fields.len() ==> (#[trigger] fields[i]).tag != (#[trigger] fields[j]).tag
}

/// The key that a well-formed field is filed under.
pub open spec fn key_of(field: RawField) -> WifiUriParamKey {
    WifiUriParamKey::of_tag(field.tag)->0
}

/// The decoded value of a well-formed field.
pub open spec fn value_of(field: RawField) -> Seq<char> {
    decoded_text(field.raw)->0
}

/// The text of one field.
pub open spec fn field_text(field: RawField) -> Seq<char> {
    field.tag + seq![':'] + field.raw + seq![';']
}

/// The text of a sequence of fields, one after the other.
pub open spec fn fields_text(fields: Seq<RawField>) -> Seq<char>
    decreases fields.len(),
{
    if fields.len() == 0 {
        Seq::empty()
    } else {
        field_text(fields[0]) + fields_text(fields.drop_first())
    }
}

/// The URI that spells the fields: the prefix, the fields, the closing `;`.
pub open spec fn uri_text(fields: Seq<RawField>) -> Seq<char> {
    uri_prefix() + fields_text(fields) + seq![';']
}

/// The decoded value of the first field filed under `key`, if there is one.
pub open spec fn value_for(fields: Seq<RawField>, key: WifiUriParamKey) -> Option<Seq<char>>
    decreases fields.len(),
{
    if fields.len() == 0 {
        None
    } else if key_of(fields[0]) == key {
        Some(value_of(fields[0]))
    } else {
        value_for(fields.drop_first(), key)
    }
}

/// The fields by key, each with its decoded value.
pub open spec fn field_values(fields: Seq<RawField>) -> FieldMap {
    Map::new(
        |key: WifiUriParamKey| value_for(fields, key) is Some,
        |key: WifiUriParamKey| value_for(fields, key)->0,
    )
}

/// The fields by key on top of those in `seen`.
pub open spec fn values_onto(fields: Seq<RawField>, seen: FieldMap) -> FieldMap {
    Map::new(
        |key: WifiUriParamKey| value_for(fields, key) is Some || seen.contains_key(key),
        |key: WifiUriParamKey|
            if value_for(fields, key) is Some {
                value_for(fields, key)->0
            } else {
                seen[key]
            },
    )
}

/// Whether some field of the sequence is filed under a key that an earlier
/// field, or `seen`, holds already.
pub open spec fn repeats_a_key(fields: Seq<RawField>, seen: FieldMap) -> bool {
    exists|j: int|
        0 <= j < fields.len() && (seen.contains_key(key_of(#[trigger] fields[j])) || exists|i: int|
            0 <= i < j && key_of(#[trigger] fields[i]) == key_of(fields[j]))
}

/// A tag names one key only, and is that key's letter.
pub proof fn lemma_tag_of_key(tag: Seq<char>)
    requires
        WifiUriParamKey::of_tag(tag) is Some,
    ensures
        tag == (WifiUriParamKey::of_tag(tag)->0).tag(),
        tag.len() == 1,
        tag[0] != ':',
{
    assert(tag =~= (WifiUriParamKey::of_tag(tag)->0).tag());
}

/// The first place where `c` stands in `s`.
pub proof fn lemma_first_index(s: Seq<char>, c: char, at: int)
    requires
        0 <= at < s.len(),
        s[at] == c,
        forall|j: int| 0 <= j < at ==> s[j] != c,
    ensures
        s.index_of_first(c) == Some(at),
{
    s.index_of_first_ensures(c);
    assert(s.contains(c));
}

/// Scanning the text of one well-formed field: it is a duplicate, or it is
/// filed and the scan goes on behind it.
pub proof fn lemma_scan_one_field(field: RawField, rest: Seq<char>, seen: FieldMap)
    requires
        well_formed(field),
    ensures
        scanned_fields(field_text(field) + rest, seen) == (if seen.contains_key(key_of(field)) {
            Err(UriFault::DuplicateKey { tag: field.tag })
        } else {
            scanned_fields(rest, seen.insert(key_of(field), value_of(field)))
        }),
{
    lemma_tag_of_key(field.tag);
    let text = field_text(field) + rest;
    assert(text.len() >= 3);
    assert(text != seq![';']) by {
        assert(seq![';'].len() == 1);
    }
    assert(text[1] == ':');
    assert(text[0] == field.tag[0]);
    lemma_first_index(text, ':', 1);
    assert(text.take(1) =~= field.tag);
    let after = text.skip(2);
    assert(after =~= field.raw + seq![';'] + rest);
    let end = field.raw.len() as int;
    assert(after[end] == ';');
    assert forall|j: int| 0 <= j < end implies after[j] != ';' by {
        assert(after[j] == field.raw[j]);
        assert(field.raw.contains(field.raw[j]));
    }
    lemma_first_index(after, ';', end);
    assert(after.take(end) =~= field.raw);
    assert(after.skip(end + 1) =~= rest);
}

/// What the scan makes of well-formed fields, whatever text follows them: the
/// first field that repeats a key ends it as a duplicate; where none does,
/// the fields are filed and the scan goes on with what follows.
pub proof fn lemma_scan_past_fields(fields: Seq<RawField>, rest: Seq<char>, seen: FieldMap)
    requires
        all_well_formed(fields),
    ensures
        repeats_a_key(fields, seen) ==> exists|j: int|
            0 <= j < fields.len() && scanned_fields(fields_text(fields) + rest, seen) == Err::<
                FieldMap,
                UriFault,
            >(UriFault::DuplicateKey { tag: (#[trigger] fields[j]).tag }),
        !repeats_a_key(fields, seen) ==> scanned_fields(fields_text(fields) + rest, seen)
            == scanned_fields(rest, values_onto(fields, seen)),
    decreases fields.len(),
{
    if fields.len() == 0 {
        assert(fields_text(fields) + rest =~= rest);
        assert(values_onto(fields, seen) =~= seen);
    } else {
        let first = fields[0];
        let others = fields.drop_first();
        assert(well_formed(first));
        assert(fields_text(fields) + rest =~= field_text(first) + (fields_text(others) + rest));
        lemma_scan_one_field(first, fields_text(others) + rest, seen);
        if seen.contains_key(key_of(first)) {
            assert(repeats_a_key(fields, seen));
        } else {
            let filed = seen.insert(key_of(first), value_of(first));
            assert forall|i: int| 0 <= i < others.len() implies well_formed(
                #[trigger] others[i],
            ) by {
                assert(others[i] == fields[i + 1]);
            }
            lemma_scan_past_fields(others, rest, filed);
            if repeats_a_key(others, filed) {
                let j = choose|j: int|
                    0 <= j < others.len() && (filed.contains_key(key_of(#[trigger] others[j]))
                        || exists|i: int|
                        0 <= i < j && key_of(#[trigger] others[i]) == key_of(others[j]));
                assert(others[j] == fields[j + 1]);
                if filed.contains_key(key_of(others[j])) {
                    if !seen.contains_key(key_of(others[j])) {
                        assert(key_of(fields[0]) == key_of(fields[j + 1]));
                    }
                } else {
                    let i = choose|i: int|
                        0 <= i < j && key_of(#[trigger] others[i]) == key_of(others[j]);
                    assert(others[i] == fields[i + 1]);
                    assert(key_of(fields[i + 1]) == key_of(fields[j + 1]));
                }
                assert(repeats_a_key(fields, seen));
                let k = choose|k: int|
                    0 <= k < others.len() && scanned_fields(fields_text(others) + rest, filed)
                        == Err::<FieldMap, UriFault>(
                        UriFault::DuplicateKey { tag: (#[trigger] others[k]).tag },
                    );
                assert(others[k] == fields[k + 1]);
            } else {
                assert(!repeats_a_key(fields, seen)) by {
                    if repeats_a_key(fields, seen) {
                        let j = choose|j: int|
                            0 <= j < fields.len() && (seen.contains_key(
                                key_of(#[trigger] fields[j]),
                            ) || exists|i: int|
                                0 <= i < j && key_of(#[trigger] fields[i]) == key_of(fields[j]));
                        assert(j > 0);
                        assert(others[j - 1] == fields[j]);
                        if seen.contains_key(key_of(fields[j])) {
                            assert(filed.contains_key(key_of(others[j - 1])));
                        } else {
                            let i = choose|i: int|
                                0 <= i < j && key_of(#[trigger] fields[i]) == key_of(fields[j]);
                            if i == 0 {
                                assert(filed.contains_key(key_of(others[j - 1])));
                            } else {
                                assert(others[i - 1] == fields[i]);
                                assert(key_of(others[i - 1]) == key_of(others[j - 1]));
                            }
                        }
                        assert(repeats_a_key(others, filed));
                    }
                }
                lemma_value_absent_without_field(others, key_of(first));
                assert(values_onto(others, filed) =~= values_onto(fields, seen));
            }
        }
    }
}

/// A key that no field is filed under has no value among the fields.
pub proof fn lemma_value_absent_without_field(fields: Seq<RawField>, key: WifiUriParamKey)
    ensures
        value_for(fields, key) is Some <==> exists|i: int|
            0 <= i < fields.len() && key_of(#[trigger] fields[i]) == key,
    decreases fields.len(),
{
    if fields.len() > 0 {
        let others = fields.drop_first();
        lemma_value_absent_without_field(others, key);
        if key_of(fields[0]) != key {
            if value_for(fields, key) is Some {
                let i = choose|i: int| 0 <= i < others.len() && key_of(#[trigger] others[i]) == key;
                assert(others[i] == fields[i + 1]);
            }
            if exists|i: int| 0 <= i < fields.len() && key_of(#[trigger] fields[i]) == key {
                let i = choose|i: int| 0 <= i < fields.len() && key_of(#[trigger] fields[i]) == key;
                assert(others[i - 1] == fields[i]);
            }
        }
    }
}

} // verus!

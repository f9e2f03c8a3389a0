//! Enum documents.
//!
//! An enum document has the header of a layout document. A group is an
//! object whose members map an enum name to an array with exactly one
//! element: the array of the enum's values. A value is an object with exactly
//! one member, from the value's symbolic name to its integer.

use crate::decimal::decimal_string;
use crate::entry::{Entry, EntryView, all_resolved, enum_key, views};
use crate::error::LoadError;
use crate::gather::{
    Decoder, accepted, appended, decoded, gather, lemma_accepted_step, lemma_decoded_resolved,
    lemma_decoded_step,
};
use crate::json::Json;
use crate::schema::{read_header, tagged_groups};
use crate::text::joined;
use vstd::prelude::*;

verus! {

/// The entry of one value record of the enum `enum_name`.
pub open spec fn value_entries(enum_name: Seq<char>, record: Json) -> Option<Seq<EntryView>> {
    match record {
        Json::Object(members) => {
            if members@.len() != 1 {
                None
            } else {
                match members@[0].1.spec_i64() {
                    Some(value) => Some(
                        seq![
                            EntryView::EnumName {
                                key: enum_key(enum_name, value as int),
                                name: members@[0].0@,
                            },
                        ],
                    ),
                    None => None,
                }
            }
        },
        _ => None,
    }
}

/// Decodes one value record of the enum `enum_name`.
pub open spec fn value_decoder(enum_name: Seq<char>) -> Decoder<Json> {
    |record: Json| value_entries(enum_name, record)
}

/// The entries of one member of a group: an enum name with its values.
pub open spec fn enum_entries(member: (String, Json)) -> Option<Seq<EntryView>> {
    match member.1 {
        Json::Array(outer) => {
            if outer@.len() != 1 {
                None
            } else {
                match outer@[0] {
                    Json::Array(records) => gather(records@, value_decoder(member.0@)),
                    _ => None,
                }
            }
        },
        _ => None,
    }
}

/// Decodes one member of a group.
pub open spec fn enum_decoder() -> Decoder<(String, Json)> {
    |member: (String, Json)| enum_entries(member)
}

/// The entries of one group.
pub open spec fn enum_group_entries(group: Json) -> Option<Seq<EntryView>> {
    match group {
        Json::Object(members) => gather(members@, enum_decoder()),
        _ => None,
    }
}

/// Decodes one group.
pub open spec fn enum_group_decoder() -> Decoder<Json> {
    |group: Json| enum_group_entries(group)
}

/// The entries of an enum document, in document order, or the reason it is
/// refused.
pub open spec fn enum_document_entries(doc: Json) -> Result<Seq<EntryView>, LoadError> {
    match tagged_groups(doc) {
        Ok((_, groups)) => match gather(groups, enum_group_decoder()) {
            Some(entries) => Ok(entries),
            None => Err(LoadError::Malformed),
        },
        Err(e) => Err(e),
    }
}

/// Every entry of a well-formed enum document is resolved: it gives no
/// member at all.
pub proof fn lemma_enum_entries_resolved(doc: Json)
    ensures
        enum_document_entries(doc) is Ok ==> all_resolved(enum_document_entries(doc).unwrap()),
{
    if enum_document_entries(doc) is Ok {
        let groups = tagged_groups(doc).unwrap().1;
        let by_group = enum_group_decoder();
        assert forall|g: int| 0 <= g < groups.len() implies (#[trigger] by_group(groups[g])) is Some
            && all_resolved(by_group(groups[g]).unwrap()) by {
            let enums = groups[g]->Object_0@;
            let by_enum = enum_decoder();
            assert forall|e: int| 0 <= e < enums.len() implies (#[trigger] by_enum(enums[e])) is Some
                && all_resolved(by_enum(enums[e]).unwrap()) by {
                let records = enums[e].1->Array_0@[0]->Array_0@;
                let by_value = value_decoder(enums[e].0@);
                assert forall|v: int| 0 <= v < records.len() implies (#[trigger] by_value(
                    records[v],
                )) is Some && all_resolved(by_value(records[v]).unwrap()) by {}
                lemma_decoded_resolved(records, by_value);
            }
            lemma_decoded_resolved(enums, by_enum);
        }
        lemma_decoded_resolved(groups, by_group);
    }
}

/// The key under which a value of an enum is looked up.
pub fn make_enum_key(enum_name: &str, value: i64) -> (r: String)
    ensures
        r@ == enum_key(enum_name@, value as int),
{
    let digits = decimal_string(value);
    joined(enum_name, digits.as_str())
}

/// Decodes one value record of the enum `enum_name` and appends its entry to
/// `out`.
pub fn decode_value(enum_name: &str, record: &Json, out: &mut Vec<Entry>) -> (ok: bool)
    ensures
        appended(old(out)@, final(out)@, ok, value_entries(enum_name@, *record)),
{
    let members = match record.as_object() {
        Some(members) => members,
        None => {
            return false;
        },
    };
    if members.len() != 1 {
        return false;
    }
    let ghost before = out@;
    match members[0].1.as_i64() {
        Some(value) => {
            out.push(
                Entry::EnumName {
                    key: make_enum_key(enum_name, value),
                    name: members[0].0.clone(),
                },
            );
            assert(views(out@) =~= views(before) + value_entries(enum_name@, *record).unwrap());
            true
        },
        None => false,
    }
}

/// Decodes the values of the enum `enum_name` in order.
pub fn decode_values(enum_name: &str, records: &Vec<Json>, out: &mut Vec<Entry>) -> (ok: bool)
    ensures
        appended(old(out)@, final(out)@, ok, gather(records@, value_decoder(enum_name@))),
{
    let ghost before = out@;
    let ghost decode = value_decoder(enum_name@);
    let mut i: usize = 0;
    assert(views(out@) =~= views(before) + decoded(records@.take(0), decode));
    while i < records.len()
        invariant
            i <= records.len(),
            decode == value_decoder(enum_name@),
            accepted(records@.take(i as int), decode),
            views(out@) == views(before) + decoded(records@.take(i as int), decode),
        decreases records.len() - i,
    {
        assert(decode(records@[i as int]) == value_entries(enum_name@, records@[i as int]));
        let ok = decode_value(enum_name, &records[i], out);
        if !ok {
            return false;
        }
        proof {
            lemma_decoded_step(records@, decode, i as int);
            lemma_accepted_step(records@, decode, i as int);
        }
        i += 1;
    }
    assert(records@.take(i as int) == records@);
    true
}

/// Decodes one member of a group: an enum name with its values.
pub fn decode_enum(member: &(String, Json), out: &mut Vec<Entry>) -> (ok: bool)
    ensures
        appended(old(out)@, final(out)@, ok, enum_entries(*member)),
{
    let outer = match member.1.as_array() {
        Some(outer) => outer,
        None => {
            return false;
        },
    };
    if outer.len() != 1 {
        return false;
    }
    match outer[0].as_array() {
        Some(records) => decode_values(member.0.as_str(), records, out),
        None => false,
    }
}

/// Decodes the enums of one group in order.
pub fn decode_enum_group(group: &Json, out: &mut Vec<Entry>) -> (ok: bool)
    ensures
        appended(old(out)@, final(out)@, ok, enum_group_entries(*group)),
{
    let members = match group.as_object() {
        Some(members) => members,
        None => {
            return false;
        },
    };
    let ghost before = out@;
    let ghost decode = enum_decoder();
    let mut i: usize = 0;
    assert(views(out@) =~= views(before) + decoded(members@.take(0), decode));
    while i < members.len()
        invariant
            i <= members.len(),
            decode == enum_decoder(),
            enum_group_entries(*group) == gather(members@, decode),
            accepted(members@.take(i as int), decode),
            views(out@) == views(before) + decoded(members@.take(i as int), decode),
        decreases members.len() - i,
    {
        assert(decode(members@[i as int]) == enum_entries(members@[i as int]));
        let ok = decode_enum(&members[i], out);
        if !ok {
            return false;
        }
        proof {
            lemma_decoded_step(members@, decode, i as int);
            lemma_accepted_step(members@, decode, i as int);
        }
        i += 1;
    }
    assert(members@.take(i as int) == members@);
    true
}

/// Decodes an enum document into its entries.
pub fn decode_enum_document(doc: &Json) -> (r: Result<Vec<Entry>, LoadError>)
    ensures
        match enum_document_entries(*doc) {
            Ok(entries) => r is Ok && views(r.unwrap()@) == entries,
            Err(e) => r == Err::<Vec<Entry>, LoadError>(e),
        },
{
    let (_, groups) = match read_header(doc) {
        Ok(header) => header,
        Err(e) => {
            return Err(e);
        },
    };
    let mut out: Vec<Entry> = Vec::new();
    let ghost decode = enum_group_decoder();
    let mut i: usize = 0;
    assert(views(out@) =~= decoded(groups@.take(0), decode));
    while i < groups.len()
        invariant
            i <= groups.len(),
            decode == enum_group_decoder(),
            enum_document_entries(*doc) == match gather(groups@, decode) {
                Some(entries) => Ok::<Seq<EntryView>, LoadError>(entries),
                None => Err(LoadError::Malformed),
            },
            accepted(groups@.take(i as int), decode),
            views(out@) == decoded(groups@.take(i as int), decode),
        decreases groups.len() - i,
    {
        assert(decode(groups@[i as int]) == enum_group_entries(groups@[i as int]));
        let ok = decode_enum_group(&groups[i], &mut out);
        if !ok {
            return Err(LoadError::Malformed);
        }
        proof {
            lemma_decoded_step(groups@, decode, i as int);
            lemma_accepted_step(groups@, decode, i as int);
        }
        i += 1;
    }
    assert(groups@.take(i as int) == groups@);
    Ok(out)
}

} // verus!

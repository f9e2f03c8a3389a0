//! Class and struct layout documents.
//!
//! A layout document is an object with a `version` tag and a `data` array of
//! groups. A group is an object whose members map a type name to an array of
//! records, and a record is an object with exactly one member: the size
//! marker with the type's size, the inheritance marker (ignored), or a member
//! name with an array that describes the member.

use crate::entry::{
    Entry, EntryView, OffsetInfo, Tables, all_resolved, lemma_member_after_merge, views,
};
use crate::error::LoadError;
use crate::gather::{
    Decoder, accepted, appended, decoded, gather, lemma_accepted_step, lemma_decoded_contains,
    lemma_decoded_resolved, lemma_decoded_step,
};
use crate::json::Json;
use crate::schema::{SchemaVersion, read_header, tagged_groups};
use crate::text::{joined, same_text, without_last};
use vstd::prelude::*;

verus! {

/// The record key that carries a type's total size.
pub const SIZE_MARKER: &'static str = "__MDKClassSize";

/// The record key that carries base class metadata.
pub const INHERIT_MARKER: &'static str = "__InheritInfo";

/// How many characters the first schema appends to the name of a bitfield
/// member.
pub const BITFIELD_SUFFIX_LEN: usize = 4;

/// Whether a member array of the given length is a bitfield: a function of
/// the schema and the length alone.
pub open spec fn bitfield_shape(version: SchemaVersion, len: int) -> Option<bool> {
    if len == version.plain_len() {
        Some(false)
    } else if len == version.plain_len() + 1 {
        Some(true)
    } else {
        None
    }
}

/// The record of a member, from the elements of its array. Element 0 is not
/// read; elements 1 and 2 are the offset and the size; the last element of a
/// bitfield is the bit offset, kept in 32 bits.
pub open spec fn member_info(version: SchemaVersion, items: Seq<Json>) -> Option<OffsetInfo> {
    match bitfield_shape(version, items.len() as int) {
        None => None,
        Some(is_bit) => match (items[1].spec_i64(), items[2].spec_i64()) {
            (Some(offset), Some(size)) => if is_bit {
                match items[version.plain_len()].spec_i64() {
                    Some(bit) => Some(
                        OffsetInfo { offset, size, is_bit: true, bit_offset: bit as i32, valid: true },
                    ),
                    None => None,
                }
            } else {
                Some(OffsetInfo { offset, size, is_bit: false, bit_offset: 0, valid: true })
            },
            _ => None,
        },
    }
}

/// The key of a member: the owner's name, then the member's name. In the
/// first schema the name of a bitfield loses its suffix first, and is
/// malformed if it is shorter than the suffix.
pub open spec fn member_key(
    version: SchemaVersion,
    owner: Seq<char>,
    member: Seq<char>,
    is_bit: bool,
) -> Option<Seq<char>> {
    if is_bit && version == SchemaVersion::V1 {
        if member.len() >= BITFIELD_SUFFIX_LEN {
            Some(owner + member.take(member.len() - BITFIELD_SUFFIX_LEN))
        } else {
            None
        }
    } else {
        Some(owner + member)
    }
}

/// The entry of a member record.
pub open spec fn member_entry(
    version: SchemaVersion,
    owner: Seq<char>,
    member: Seq<char>,
    value: Json,
) -> Option<EntryView> {
    match value {
        Json::Array(items) => match member_info(version, items@) {
            Some(info) => match member_key(version, owner, member, info.is_bit) {
                Some(key) => Some(EntryView::Member { key, info }),
                None => None,
            },
            None => None,
        },
        _ => None,
    }
}

/// The entries of one record of a type: the size for the size marker, kept
/// in 32 bits; nothing for the inheritance marker; one member for any other
/// key.
pub open spec fn record_entries(version: SchemaVersion, owner: Seq<char>, record: Json) -> Option<
    Seq<EntryView>,
> {
    match record {
        Json::Object(members) => {
            if members@.len() != 1 {
                None
            } else if members@[0].0@ == SIZE_MARKER@ {
                match members@[0].1.spec_i64() {
                    Some(size) => Some(seq![EntryView::Size { owner, size: size as i32 }]),
                    None => None,
                }
            } else if members@[0].0@ == INHERIT_MARKER@ {
                Some(Seq::empty())
            } else {
                match member_entry(version, owner, members@[0].0@, members@[0].1) {
                    Some(entry) => Some(seq![entry]),
                    None => None,
                }
            }
        },
        _ => None,
    }
}

/// Decodes one record of the type `owner`.
pub open spec fn record_decoder(version: SchemaVersion, owner: Seq<char>) -> Decoder<Json> {
    |record: Json| record_entries(version, owner, record)
}

/// The entries of one member of a group: a type name with its records.
pub open spec fn type_entries(version: SchemaVersion, member: (String, Json)) -> Option<
    Seq<EntryView>,
> {
    match member.1 {
        Json::Array(records) => gather(records@, record_decoder(version, member.0@)),
        _ => None,
    }
}

/// Decodes one member of a group.
pub open spec fn type_decoder(version: SchemaVersion) -> Decoder<(String, Json)> {
    |member: (String, Json)| type_entries(version, member)
}

/// The entries of one group.
pub open spec fn group_entries(version: SchemaVersion, group: Json) -> Option<Seq<EntryView>> {
    match group {
        Json::Object(members) => gather(members@, type_decoder(version)),
        _ => None,
    }
}

/// Decodes one group.
pub open spec fn group_decoder(version: SchemaVersion) -> Decoder<Json> {
    |group: Json| group_entries(version, group)
}

/// The entries of a layout document, in document order, or the reason it is
/// refused.
pub open spec fn layout_entries(doc: Json) -> Result<Seq<EntryView>, LoadError> {
    match tagged_groups(doc) {
        Ok((version, groups)) => match gather(groups, group_decoder(version)) {
            Some(entries) => Ok(entries),
            None => Err(LoadError::Malformed),
        },
        Err(e) => Err(e),
    }
}

/// Whether a record describes a member: an object with exactly one member,
/// whose key is neither the size marker nor the inheritance marker.
pub open spec fn is_member_record(record: Json) -> bool {
    match record {
        Json::Object(members) => {
            &&& members@.len() == 1
            &&& members@[0].0@ != SIZE_MARKER@
            &&& members@[0].0@ != INHERIT_MARKER@
        },
        _ => false,
    }
}

/// Whether `record` is one of the records that the groups list for the type
/// `owner`.
pub open spec fn lists_record(groups: Seq<Json>, owner: Seq<char>, record: Json) -> bool {
    exists|g: int, t: int, k: int|
        0 <= g < groups.len() && 0 <= t && 0 <= k && #[trigger] sits_at(
            groups,
            owner,
            record,
            g,
            t,
            k,
        )
}

/// Whether `record` is record `k` of member `t` of group `g`, and that
/// member is called `owner`.
pub open spec fn sits_at(
    groups: Seq<Json>,
    owner: Seq<char>,
    record: Json,
    g: int,
    t: int,
    k: int,
) -> bool {
    match groups[g] {
        Json::Object(types) => t < types@.len() && types@[t].0@ == owner && match types@[t].1 {
            Json::Array(records) => k < records@.len() && records@[k] == record,
            _ => false,
        },
        _ => false,
    }
}

/// Whether a member array is a bitfield depends on the schema and the length
/// of the array alone: in the first schema 3 elements are a plain member and
/// 4 a bitfield, in the second 4 and 5, and an array of any other length is
/// refused.
pub proof fn lemma_bitfield_by_version_and_length(version: SchemaVersion, items: Seq<Json>)
    ensures
        bitfield_shape(SchemaVersion::V1, 4) == Some(true),
        bitfield_shape(SchemaVersion::V2, 5) == Some(true),
        bitfield_shape(SchemaVersion::V1, 3) == Some(false),
        bitfield_shape(SchemaVersion::V2, 4) == Some(false),
        bitfield_shape(version, items.len() as int) is None ==> member_info(version, items) is None,
        member_info(version, items) matches Some(info) ==> bitfield_shape(
            version,
            items.len() as int,
        ) == Some(info.is_bit),
        forall|len: int|
            len != version.plain_len() && len != version.plain_len() + 1 ==> bitfield_shape(
                version,
                len,
            ) is None,
{
}

/// A well-formed member record yields exactly one entry: a member that is
/// valid, under the key that its owner and name make, and a bitfield as the
/// schema and the length of its array say.
pub proof fn lemma_member_record_yields_one(
    version: SchemaVersion,
    owner: Seq<char>,
    record: Json,
)
    requires
        is_member_record(record),
        record_entries(version, owner, record) is Some,
    ensures
        record_entries(version, owner, record).unwrap().len() == 1,
        ({
            let entry = record_entries(version, owner, record).unwrap()[0];
            let name = record->Object_0@[0].0@;
            let items = record->Object_0@[0].1->Array_0@;
            &&& entry is Member
            &&& entry->Member_info.valid
            &&& Some(entry->Member_info.is_bit) == bitfield_shape(version, items.len() as int)
            &&& Some(entry->Member_key) == member_key(
                version,
                owner,
                name,
                entry->Member_info.is_bit,
            )
        }),
{
}

/// In a well-formed layout document every member record yields exactly one
/// valid member entry, and that entry is among the entries of the document.
pub proof fn lemma_member_records_resolve(doc: Json, owner: Seq<char>, record: Json)
    requires
        layout_entries(doc) is Ok,
        lists_record(tagged_groups(doc).unwrap().1, owner, record),
        is_member_record(record),
    ensures
        record_entries(tagged_groups(doc).unwrap().0, owner, record) is Some,
        ({
            let entries = record_entries(tagged_groups(doc).unwrap().0, owner, record).unwrap();
            &&& entries.len() == 1
            &&& entries[0] is Member
            &&& entries[0]->Member_info.valid
            &&& layout_entries(doc).unwrap().contains(entries[0])
        }),
{
    let (version, groups) = tagged_groups(doc).unwrap();
    let (g, t, k) = choose|g: int, t: int, k: int|
        0 <= g < groups.len() && 0 <= t && 0 <= k && #[trigger] sits_at(
            groups,
            owner,
            record,
            g,
            t,
            k,
        );
    let by_group = group_decoder(version);
    let by_type = type_decoder(version);
    let by_record = record_decoder(version, owner);
    assert(accepted(groups, by_group));
    assert(by_group(groups[g]) is Some);
    let types = groups[g]->Object_0@;
    assert(accepted(types, by_type));
    assert(by_type(types[t]) is Some);
    let records = types[t].1->Array_0@;
    assert(accepted(records, by_record));
    assert(by_record(records[k]) is Some);
    lemma_member_record_yields_one(version, owner, record);
    let entry = record_entries(version, owner, record).unwrap()[0];
    lemma_decoded_contains(records, by_record, k, entry);
    lemma_decoded_contains(types, by_type, t, entry);
    lemma_decoded_contains(groups, by_group, g, entry);
}

/// Once a well-formed layout document is merged, the tables hold a record
/// under the key of each of its member records.
pub proof fn lemma_member_record_is_found(before: Tables, doc: Json, owner: Seq<char>, record: Json)
    requires
        layout_entries(doc) is Ok,
        lists_record(tagged_groups(doc).unwrap().1, owner, record),
        is_member_record(record),
    ensures
        ({
            let entry = record_entries(tagged_groups(doc).unwrap().0, owner, record).unwrap()[0];
            &&& entry is Member
            &&& before.apply_all(layout_entries(doc).unwrap()).members.contains_key(
                entry->Member_key,
            )
        }),
{
    lemma_member_records_resolve(doc, owner, record);
    let entries = layout_entries(doc).unwrap();
    let entry = record_entries(tagged_groups(doc).unwrap().0, owner, record).unwrap()[0];
    let key = entry->Member_key;
    let i = choose|i: int| 0 <= i < entries.len() && entries[i] == entry;
    assert(entries[i].member_under(key) is Some);
    lemma_member_after_merge(before, entries, key);
}

/// Every entry of a well-formed record is resolved: a member it gives is
/// valid, and has a bit offset only where it is a bitfield.
pub proof fn lemma_record_resolved(version: SchemaVersion, owner: Seq<char>, record: Json)
    ensures
        record_entries(version, owner, record) is Some ==> all_resolved(
            record_entries(version, owner, record).unwrap(),
        ),
{
}

/// Every entry of the well-formed records of a type is resolved.
pub proof fn lemma_type_resolved(version: SchemaVersion, member: (String, Json))
    ensures
        type_entries(version, member) is Some ==> all_resolved(
            type_entries(version, member).unwrap(),
        ),
{
    if type_entries(version, member) is Some {
        let records = member.1->Array_0@;
        let decode = record_decoder(version, member.0@);
        assert forall|i: int| 0 <= i < records.len() implies (#[trigger] decode(records[i])) is Some
            && all_resolved(decode(records[i]).unwrap()) by {
            lemma_record_resolved(version, member.0@, records[i]);
        }
        lemma_decoded_resolved(records, decode);
    }
}

/// Every entry of a well-formed group is resolved.
pub proof fn lemma_group_resolved(version: SchemaVersion, group: Json)
    ensures
        group_entries(version, group) is Some ==> all_resolved(
            group_entries(version, group).unwrap(),
        ),
{
    if group_entries(version, group) is Some {
        let types = group->Object_0@;
        let decode = type_decoder(version);
        assert forall|i: int| 0 <= i < types.len() implies (#[trigger] decode(types[i])) is Some
            && all_resolved(decode(types[i]).unwrap()) by {
            lemma_type_resolved(version, types[i]);
        }
        lemma_decoded_resolved(types, decode);
    }
}

/// Every entry of a well-formed layout document is resolved.
pub proof fn lemma_layout_entries_resolved(doc: Json)
    ensures
        layout_entries(doc) is Ok ==> all_resolved(layout_entries(doc).unwrap()),
{
    if layout_entries(doc) is Ok {
        let (version, groups) = tagged_groups(doc).unwrap();
        let decode = group_decoder(version);
        assert forall|i: int| 0 <= i < groups.len() implies (#[trigger] decode(groups[i])) is Some
            && all_resolved(decode(groups[i]).unwrap()) by {
            lemma_group_resolved(version, groups[i]);
        }
        lemma_decoded_resolved(groups, decode);
    }
}

/// Whether a member array of the given length is a bitfield; `None` for a
/// length that the schema does not have.
pub fn classify(version: SchemaVersion, len: usize) -> (r: Option<bool>)
    ensures
        r == bitfield_shape(version, len as int),
{
    let plain: usize = match version {
        SchemaVersion::V1 => 3,
        SchemaVersion::V2 => 4,
    };
    if len == plain {
        Some(false)
    } else if len == plain + 1 {
        Some(true)
    } else {
        None
    }
}

/// Decodes the array of a member.
pub fn decode_member_info(version: SchemaVersion, items: &Vec<Json>) -> (r: Option<OffsetInfo>)
    ensures
        r == member_info(version, items@),
{
    let is_bit = classify(version, items.len())?;
    let offset = items[1].as_i64()?;
    let size = items[2].as_i64()?;
    if is_bit {
        let bit = items[items.len() - 1].as_i64()?;
        let bit_offset = #[verifier::truncate]
        (bit as i32);
        Some(OffsetInfo { offset, size, is_bit: true, bit_offset, valid: true })
    } else {
        Some(OffsetInfo { offset, size, is_bit: false, bit_offset: 0, valid: true })
    }
}

/// Decodes a member record of the type `owner`.
pub fn decode_member(version: SchemaVersion, owner: &str, member: &str, value: &Json) -> (r:
    Option<Entry>)
    ensures
        match member_entry(version, owner@, member@, *value) {
            Some(entry) => r is Some && r.unwrap()@ == entry,
            None => r is None,
        },
{
    let items = value.as_array()?;
    let info = decode_member_info(version, items)?;
    let strip = info.is_bit && match version {
        SchemaVersion::V1 => true,
        SchemaVersion::V2 => false,
    };
    if strip {
        match without_last(member, BITFIELD_SUFFIX_LEN) {
            Some(stem) => Some(Entry::Member { key: joined(owner, stem), info }),
            None => None,
        }
    } else {
        Some(Entry::Member { key: joined(owner, member), info })
    }
}

/// Decodes one record of the type `owner` and appends its entry, if it has
/// one, to `out`.
pub fn decode_record(version: SchemaVersion, owner: &str, record: &Json, out: &mut Vec<Entry>) -> (ok:
    bool)
    ensures
        appended(old(out)@, final(out)@, ok, record_entries(version, owner@, *record)),
{
    let members = match record.as_object() {
        Some(members) => members,
        None => {
            return false;
        },
    };
    if members.len() != 1 {
        return false;
    }
    let key = members[0].0.as_str();
    let value = &members[0].1;
    let ghost before = out@;
    if same_text(key, SIZE_MARKER) {
        match value.as_i64() {
            Some(size) => {
                out.push(
                    Entry::Size {
                        owner: String::from_str(owner),
                        size: #[verifier::truncate]
                        (size as i32),
                    },
                );
                assert(views(out@) =~= views(before) + record_entries(
                    version,
                    owner@,
                    *record,
                ).unwrap());
                true
            },
            None => false,
        }
    } else if same_text(key, INHERIT_MARKER) {
        assert(views(out@) =~= views(before) + Seq::<EntryView>::empty());
        true
    } else {
        match decode_member(version, owner, key, value) {
            Some(entry) => {
                out.push(entry);
                assert(views(out@) =~= views(before) + record_entries(
                    version,
                    owner@,
                    *record,
                ).unwrap());
                true
            },
            None => false,
        }
    }
}

/// Decodes the records of the type `owner` in order.
pub fn decode_type(version: SchemaVersion, owner: &str, records: &Vec<Json>, out: &mut Vec<Entry>) -> (ok:
    bool)
    ensures
        appended(
            old(out)@,
            final(out)@,
            ok,
            gather(records@, record_decoder(version, owner@)),
        ),
{
    let ghost before = out@;
    let ghost decode = record_decoder(version, owner@);
    let mut i: usize = 0;
    assert(views(out@) =~= views(before) + decoded(records@.take(0), decode));
    while i < records.len()
        invariant
            i <= records.len(),
            decode == record_decoder(version, owner@),
            accepted(records@.take(i as int), decode),
            views(out@) == views(before) + decoded(records@.take(i as int), decode),
        decreases records.len() - i,
    {
        let ok = decode_record(version, owner, &records[i], out);
        assert(decode(records@[i as int]) == record_entries(version, owner@, records@[i as int]));
        if !ok {
            return false;
        }
        proof {
            lemma_decoded_step(records@, decode, i as int);
            lemma_accepted_step(records@, decode, i as int);
        }
        i += 1;
    }
    assert(records@.take(i as int) == records@);
    true
}

/// Decodes the types of one group in order.
pub fn decode_group(version: SchemaVersion, group: &Json, out: &mut Vec<Entry>) -> (ok: bool)
    ensures
        appended(old(out)@, final(out)@, ok, group_entries(version, *group)),
{
    let members = match group.as_object() {
        Some(members) => members,
        None => {
            return false;
        },
    };
    let ghost before = out@;
    let ghost decode = type_decoder(version);
    let mut i: usize = 0;
    assert(views(out@) =~= views(before) + decoded(members@.take(0), decode));
    while i < members.len()
        invariant
            i <= members.len(),
            decode == type_decoder(version),
            group_entries(version, *group) == gather(members@, decode),
            accepted(members@.take(i as int), decode),
            views(out@) == views(before) + decoded(members@.take(i as int), decode),
        decreases members.len() - i,
    {
        assert(decode(members@[i as int]) == type_entries(version, members@[i as int]));
        let ok = match members[i].1.as_array() {
            Some(records) => decode_type(version, members[i].0.as_str(), records, out),
            None => false,
        };
        if !ok {
            return false;
        }
        proof {
            lemma_decoded_step(members@, decode, i as int);
            lemma_accepted_step(members@, decode, i as int);
        }
        i += 1;
    }
    assert(members@.take(i as int) == members@);
    true
}

/// Decodes a class or struct layout document into its entries.
pub fn decode_layout(doc: &Json) -> (r: Result<Vec<Entry>, LoadError>)
    ensures
        match layout_entries(*doc) {
            Ok(entries) => r is Ok && views(r.unwrap()@) == entries,
            Err(e) => r == Err::<Vec<Entry>, LoadError>(e),
        },
{
    let (version, groups) = match read_header(doc) {
        Ok(header) => header,
        Err(e) => {
            return Err(e);
        },
    };
    let mut out: Vec<Entry> = Vec::new();
    let ghost decode = group_decoder(version);
    let mut i: usize = 0;
    assert(views(out@) =~= decoded(groups@.take(0), decode));
    while i < groups.len()
        invariant
            i <= groups.len(),
            decode == group_decoder(version),
            layout_entries(*doc) == match gather(groups@, decode) {
                Some(entries) => Ok::<Seq<EntryView>, LoadError>(entries),
                None => Err(LoadError::Malformed),
            },
            accepted(groups@.take(i as int), decode),
            views(out@) == decoded(groups@.take(i as int), decode),
        decreases groups.len() - i,
    {
        assert(decode(groups@[i as int]) == group_entries(version, groups@[i as int]));
        let ok = decode_group(version, &groups[i], &mut out);
        if !ok {
            return Err(LoadError::Malformed);
        }
        proof {
            lemma_decoded_step(groups@, decode, i as int);
            lemma_accepted_step(groups@, decode, i as int);
        }
        i += 1;
    }
    assert(groups@.take(i as int) == groups@);
    Ok(out)
}

} // verus!

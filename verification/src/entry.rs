//! The normalized records that a layout document decodes to, and the tables
//! they are merged into.

use crate::decimal::{decimal, lemma_decimal_injective};
use vstd::prelude::*;

verus! {

/// One resolved field of a class or struct.
#[derive(Debug, Clone, Copy, PartialEq, Eq, Structural)]
pub struct OffsetInfo {
    /// Byte offset from the start of the instance.
    pub offset: i64,
    /// Size in bytes of the field's storage; for a bitfield, of its storage
    /// unit.
    pub size: i64,
    /// Whether the field is packed into part of its storage unit.
    pub is_bit: bool,
    /// Bit position within the storage unit; 0 unless `is_bit`.
    pub bit_offset: i32,
    /// Set on every record that was decoded from a document.
    pub valid: bool,
}

impl OffsetInfo {
    /// A record that describes nothing yet: all zero, not valid.
    pub fn new() -> (r: Self)
        ensures
            r == (OffsetInfo { offset: 0, size: 0, is_bit: false, bit_offset: 0, valid: false }),
    {
        OffsetInfo { offset: 0, size: 0, is_bit: false, bit_offset: 0, valid: false }
    }
}

/// A record converts to whether it is valid.
impl From<OffsetInfo> for bool {
    fn from(info: OffsetInfo) -> (r: bool) {
        info.valid
    }
}

impl vstd::std_specs::convert::FromSpecImpl<OffsetInfo> for bool {
    open spec fn obeys_from_spec() -> bool {
        true
    }

    open spec fn from_spec(info: OffsetInfo) -> bool {
        info.valid
    }
}

/// One record decoded from a document, ready to be written to its table.
#[derive(Debug, PartialEq, Eq)]
pub enum Entry {
    /// The total byte size of a type.
    Size { owner: String, size: i32 },
    /// A member, under the key that lookups use.
    Member { key: String, info: OffsetInfo },
    /// The symbolic name of one value of an enum, under the key that lookups
    /// use.
    EnumName { key: String, name: String },
    /// A named global offset.
    Offset { name: String, value: u64 },
}

/// An `Entry` with its strings as sequences of characters.
pub enum EntryView {
    Size { owner: Seq<char>, size: i32 },
    Member { key: Seq<char>, info: OffsetInfo },
    EnumName { key: Seq<char>, name: Seq<char> },
    Offset { name: Seq<char>, value: u64 },
}

impl View for Entry {
    type V = EntryView;

    open spec fn view(&self) -> EntryView {
        match *self {
            Entry::Size { owner, size } => EntryView::Size { owner: owner@, size },
            Entry::Member { key, info } => EntryView::Member { key: key@, info },
            Entry::EnumName { key, name } => EntryView::EnumName { key: key@, name: name@ },
            Entry::Offset { name, value } => EntryView::Offset { name: name@, value },
        }
    }
}

impl EntryView {
    /// The record that the entry writes under the member key `key`, if it
    /// writes one there.
    pub open spec fn member_under(self, key: Seq<char>) -> Option<OffsetInfo> {
        match self {
            EntryView::Member { key: k, info } => if k == key {
                Some(info)
            } else {
                None
            },
            _ => None,
        }
    }
}

impl OffsetInfo {
    /// Whether the record is one that a document gives: valid, and with a
    /// bit offset only where it is a bitfield.
    pub open spec fn resolved(self) -> bool {
        self.valid && (self.is_bit || self.bit_offset == 0)
    }
}

impl EntryView {
    /// Whether the entry may be written to the tables: a member entry must
    /// carry a resolved record.
    pub open spec fn resolved(self) -> bool {
        match self {
            EntryView::Member { info, .. } => info.resolved(),
            _ => true,
        }
    }
}

/// Whether every entry of a run may be written to the tables.
pub open spec fn all_resolved(entries: Seq<EntryView>) -> bool {
    forall|i: int| 0 <= i < entries.len() ==> (#[trigger] entries[i]).resolved()
}

/// The record that the last entry under the member key `key` writes, if any
/// entry writes under that key.
pub open spec fn last_member(entries: Seq<EntryView>, key: Seq<char>) -> Option<OffsetInfo>
    decreases entries.len(),
{
    if entries.len() == 0 {
        None
    } else {
        match entries.last().member_under(key) {
            Some(info) => Some(info),
            None => last_member(entries.drop_last(), key),
        }
    }
}

/// The views of a run of entries, in order.
pub open spec fn views(entries: Seq<Entry>) -> Seq<EntryView> {
    entries.map_values(|e: Entry| e@)
}

/// The key under which a value of an enum is kept: the enum's name followed
/// by the value in decimal.
pub open spec fn enum_key(enum_name: Seq<char>, value: int) -> Seq<char> {
    enum_name + decimal(value)
}

/// The contents of the lookup tables.
pub struct Tables {
    /// Members by type name followed by member name.
    pub members: Map<Seq<char>, OffsetInfo>,
    /// Total sizes by type name.
    pub sizes: Map<Seq<char>, i32>,
    /// Function offsets; no document fills this table.
    pub functions: Map<Seq<char>, u64>,
    /// Enum value names by enum name followed by the value in decimal.
    pub enum_names: Map<Seq<char>, Seq<char>>,
    /// Global offsets by name.
    pub offsets: Map<Seq<char>, u64>,
}

impl Tables {
    /// Tables that hold nothing.
    pub open spec fn empty() -> Tables {
        Tables {
            members: Map::empty(),
            sizes: Map::empty(),
            functions: Map::empty(),
            enum_names: Map::empty(),
            offsets: Map::empty(),
        }
    }

    /// Whether every record of a member that the tables hold is resolved.
    pub open spec fn resolved(self) -> bool {
        forall|key: Seq<char>| #[trigger]
            self.members.contains_key(key) ==> self.members[key].resolved()
    }

    /// The record of the member `member` of the type `owner`: the one under
    /// the key made of the two names, one after the other.
    pub open spec fn member(self, owner: Seq<char>, member: Seq<char>) -> Option<OffsetInfo> {
        if self.members.contains_key(owner + member) {
            Some(self.members[owner + member])
        } else {
            None
        }
    }

    /// The total size of the type `owner`.
    pub open spec fn size(self, owner: Seq<char>) -> Option<i32> {
        if self.sizes.contains_key(owner) {
            Some(self.sizes[owner])
        } else {
            None
        }
    }

    /// The offset of the function `name` of the type `owner`.
    pub open spec fn function(self, owner: Seq<char>, name: Seq<char>) -> Option<u64> {
        if self.functions.contains_key(owner + name) {
            Some(self.functions[owner + name])
        } else {
            None
        }
    }

    /// The symbolic name of the value `value` of the enum `enum_name`: the one
    /// under the key made of the enum's name and the value in decimal.
    pub open spec fn enum_name(self, enum_name: Seq<char>, value: int) -> Option<Seq<char>> {
        if self.enum_names.contains_key(enum_key(enum_name, value)) {
            Some(self.enum_names[enum_key(enum_name, value)])
        } else {
            None
        }
    }

    /// The global offset called `name`.
    pub open spec fn offset(self, name: Seq<char>) -> Option<u64> {
        if self.offsets.contains_key(name) {
            Some(self.offsets[name])
        } else {
            None
        }
    }

    /// The tables after one entry is written; an entry under a key that is
    /// taken replaces what was there.
    pub open spec fn apply(self, entry: EntryView) -> Tables {
        match entry {
            EntryView::Size { owner, size } => Tables {
                sizes: self.sizes.insert(owner, size),
                ..self
            },
            EntryView::Member { key, info } => Tables {
                members: self.members.insert(key, info),
                ..self
            },
            EntryView::EnumName { key, name } => Tables {
                enum_names: self.enum_names.insert(key, name),
                ..self
            },
            EntryView::Offset { name, value } => Tables {
                offsets: self.offsets.insert(name, value),
                ..self
            },
        }
    }

    /// The tables after a run of entries is written in order.
    pub open spec fn apply_all(self, entries: Seq<EntryView>) -> Tables
        decreases entries.len(),
    {
        if entries.len() == 0 {
            self
        } else {
            self.apply_all(entries.drop_last()).apply(entries.last())
        }
    }
}

/// Merging two runs of entries one after the other is merging the two runs
/// joined.
pub proof fn lemma_apply_all_joined(before: Tables, first: Seq<EntryView>, second: Seq<EntryView>)
    ensures
        before.apply_all(first + second) == before.apply_all(first).apply_all(second),
    decreases second.len(),
{
    if second.len() == 0 {
        assert(first + second == first);
    } else {
        lemma_apply_all_joined(before, first, second.drop_last());
        assert((first + second).drop_last() == first + second.drop_last());
        assert((first + second).last() == second.last());
    }
}

/// Tables whose records are all resolved stay so when a resolved entry is
/// written.
pub proof fn lemma_apply_keeps_resolved(before: Tables, entry: EntryView)
    requires
        before.resolved(),
        entry.resolved(),
    ensures
        before.apply(entry).resolved(),
{
    let after = before.apply(entry);
    assert forall|key: Seq<char>| #[trigger]
        after.members.contains_key(key) implies after.members[key].resolved() by {
        if before.members.contains_key(key) {
        }
    }
}

/// Tables whose records are all resolved stay so when resolved entries are
/// merged, however many runs of them; and so do tables filled from nothing.
pub proof fn lemma_merge_keeps_resolved(before: Tables, entries: Seq<EntryView>)
    requires
        before.resolved(),
        all_resolved(entries),
    ensures
        before.apply_all(entries).resolved(),
        Tables::empty().resolved(),
    decreases entries.len(),
{
    if entries.len() > 0 {
        let head = entries.drop_last();
        assert forall|i: int| 0 <= i < head.len() implies (#[trigger] head[i]).resolved() by {
            assert(head[i] == entries[i]);
        }
        lemma_merge_keeps_resolved(before, head);
        assert(entries[entries.len() - 1].resolved());
    }
}

/// Two runs of resolved entries, joined, are a run of resolved entries.
pub proof fn lemma_joined_resolved(first: Seq<EntryView>, second: Seq<EntryView>)
    requires
        all_resolved(first),
        all_resolved(second),
    ensures
        all_resolved(first + second),
{
    assert forall|i: int| 0 <= i < (first + second).len() implies (#[trigger] (first
        + second)[i]).resolved() by {
        if i < first.len() {
            assert((first + second)[i] == first[i]);
        } else {
            assert((first + second)[i] == second[i - first.len()]);
        }
    }
}

/// Some entry writes under a member key exactly when there is a last one
/// that does.
pub proof fn lemma_last_member_exists(entries: Seq<EntryView>, key: Seq<char>)
    ensures
        last_member(entries, key) is Some <==> exists|i: int|
            0 <= i < entries.len() && (#[trigger] entries[i]).member_under(key) is Some,
    decreases entries.len(),
{
    if entries.len() > 0 {
        let head = entries.drop_last();
        lemma_last_member_exists(head, key);
        if entries.last().member_under(key) is Some {
            assert(entries[entries.len() - 1].member_under(key) is Some);
        } else if last_member(head, key) is Some {
            let i = choose|i: int|
                0 <= i < head.len() && (#[trigger] head[i]).member_under(key) is Some;
            assert(entries[i] == head[i]);
        } else {
            assert forall|i: int| 0 <= i < entries.len() implies (#[trigger] entries[i]).member_under(
                key,
            ) is None by {
                if i < head.len() {
                    assert(entries[i] == head[i]);
                }
            }
        }
    }
}

/// After a run of entries is merged, a member key is in the tables exactly
/// when it was there before or one of the entries was written under it; and
/// the record under it is that of the last such entry, or else the one that
/// was there before.
pub proof fn lemma_member_after_merge(before: Tables, entries: Seq<EntryView>, key: Seq<char>)
    ensures
        before.apply_all(entries).members.contains_key(key) <==> before.members.contains_key(key)
            || exists|i: int|
            0 <= i < entries.len() && (#[trigger] entries[i]).member_under(key) is Some,
        before.apply_all(entries).members.contains_key(key) ==> before.apply_all(
            entries,
        ).members[key] == match last_member(entries, key) {
            Some(info) => info,
            None => before.members[key],
        },
    decreases entries.len(),
{
    lemma_last_member_exists(entries, key);
    if entries.len() > 0 {
        lemma_member_after_merge(before, entries.drop_last(), key);
        lemma_last_member_exists(entries.drop_last(), key);
    }
}

/// In tables that were filled from nothing, a member is found exactly when
/// one of the merged entries was written under the key that the names of its
/// owner and of the member make, and what is found is the record of the last
/// such entry.
pub proof fn lemma_member_found_iff_written(
    entries: Seq<EntryView>,
    owner: Seq<char>,
    member: Seq<char>,
)
    ensures
        Tables::empty().apply_all(entries).member(owner, member) is Some <==> exists|i: int|
            0 <= i < entries.len() && (#[trigger] entries[i]).member_under(owner + member) is Some,
        Tables::empty().apply_all(entries).member(owner, member) == last_member(
            entries,
            owner + member,
        ),
{
    lemma_member_after_merge(Tables::empty(), entries, owner + member);
    lemma_last_member_exists(entries, owner + member);
}

/// Two values of one enum that are kept under one key are the same value.
pub proof fn lemma_enum_keys_distinct(enum_name: Seq<char>, a: int, b: int)
    requires
        enum_key(enum_name, a) == enum_key(enum_name, b),
    ensures
        a == b,
{
    let n = enum_name.len() as int;
    assert(enum_key(enum_name, a).skip(n) == decimal(a));
    assert(enum_key(enum_name, b).skip(n) == decimal(b));
    lemma_decimal_injective(a, b);
}

/// Once the name of a value of an enum is written, looking the value up
/// gives that name, and the other values of the enum are found as before.
pub proof fn lemma_enum_value_found(
    before: Tables,
    enum_name: Seq<char>,
    value: int,
    name: Seq<char>,
    other: int,
)
    ensures
        before.apply(EntryView::EnumName { key: enum_key(enum_name, value), name }).enum_name(
            enum_name,
            value,
        ) == Some(name),
        other != value ==> before.apply(
            EntryView::EnumName { key: enum_key(enum_name, value), name },
        ).enum_name(enum_name, other) == before.enum_name(enum_name, other),
{
    if other != value && enum_key(enum_name, other) == enum_key(enum_name, value) {
        lemma_enum_keys_distinct(enum_name, other, value);
    }
}

/// Merging entries leaves the table of function offsets as it was: no entry
/// writes to it.
pub proof fn lemma_functions_untouched(before: Tables, entries: Seq<EntryView>)
    ensures
        before.apply_all(entries).functions == before.functions,
    decreases entries.len(),
{
    if entries.len() > 0 {
        lemma_functions_untouched(before, entries.drop_last());
    }
}

} // verus!

//! The lookup tables of one game and the queries over them.

use crate::catalog::{GameList, first_game, has_hash};
use crate::document::{
    DocumentKind, decode_document, decode_response, decode_text, document_address,
    document_entries, document_url, lemma_document_entries_resolved,
    lemma_kind_entries_resolved, response_entries, text_entries,
};
use crate::entry::{
    Entry, EntryView, OffsetInfo, Tables, all_resolved, lemma_apply_all_joined,
    lemma_apply_keeps_resolved, views,
};
use crate::enums::make_enum_key;
use crate::error::{LoadError, LoadFailure};
use crate::json::Json;
use crate::schema::SchemaVersion;
use crate::text::joined;
use crate::transport::Response;
use vstd::hash_map::StringHashMap;
use vstd::prelude::*;

verus! {

/// The tables themselves. Every record of a member in them is resolved: the
/// only way into them is through the entries of a document.
struct Store {
    class_member_map: StringHashMap<OffsetInfo>,
    class_size_map: StringHashMap<i32>,
    function_offset_map: StringHashMap<u64>,
    enum_name_map: StringHashMap<String>,
    offset_map: StringHashMap<u64>,
}

impl View for Store {
    type V = Tables;

    closed spec fn view(&self) -> Tables {
        Tables {
            members: self.class_member_map@,
            sizes: self.class_size_map@,
            functions: self.function_offset_map@,
            enum_names: self.enum_name_map@.map_values(|name: String| name@),
            offsets: self.offset_map@,
        }
    }
}

impl Store {
    /// Holds of every store there is: each record of a member is resolved.
    #[verifier::type_invariant]
    spec fn resolved(self) -> bool {
        self@.resolved()
    }

    /// Tables that hold nothing.
    fn new() -> (r: Store)
        ensures
            r@ == Tables::empty(),
    {
        let class_member_map = StringHashMap::new();
        let class_size_map = StringHashMap::new();
        let function_offset_map = StringHashMap::new();
        let enum_name_map: StringHashMap<String> = StringHashMap::new();
        let offset_map = StringHashMap::new();
        assert(enum_name_map@.map_values(|name: String| name@) =~= Map::<
            Seq<char>,
            Seq<char>,
        >::empty());
        Store { class_member_map, class_size_map, function_offset_map, enum_name_map, offset_map }
    }

    /// Writes one entry to its table.
    fn apply(self, entry: Entry) -> (r: Store)
        requires
            entry@.resolved(),
        ensures
            r@ == self@.apply(entry@),
    {
        proof {
            use_type_invariant(&self);
            lemma_apply_keeps_resolved(self@, entry@);
        }
        let Store {
            mut class_member_map,
            mut class_size_map,
            function_offset_map,
            mut enum_name_map,
            mut offset_map,
        } = self;
        match entry {
            Entry::Size { owner, size } => {
                class_size_map.insert(owner, size);
            },
            Entry::Member { key, info } => {
                class_member_map.insert(key, info);
            },
            Entry::EnumName { key, name } => {
                enum_name_map.insert(key, name);
                assert(enum_name_map@.map_values(|name: String| name@)
                    =~= self@.enum_names.insert(key@, name@));
            },
            Entry::Offset { name, value } => {
                offset_map.insert(name, value);
            },
        }
        Store { class_member_map, class_size_map, function_offset_map, enum_name_map, offset_map }
    }

    /// Writes a run of entries to their tables, in order.
    fn apply_all(self, entries: Vec<Entry>) -> (r: Store)
        requires
            all_resolved(views(entries@)),
        ensures
            r@ == self@.apply_all(views(entries@)),
    {
        let ghost items = entries@;
        let ghost all = views(entries@);
        let ghost start = self@;
        let mut store = self;
        assert(all.take(0) == Seq::<EntryView>::empty());
        for entry in it: entries
            invariant
                it.seq() == items,
                all == views(items),
                all_resolved(all),
                store@ == start.apply_all(all.take(it.index())),
        {
            proof {
                let i = it.index();
                assert(all.take(i + 1).drop_last() == all.take(i));
                assert(all.take(i + 1).last() == entry@);
                assert(all[i].resolved());
            }
            store = store.apply(entry);
        }
        assert(all.take(items.len() as int) == all);
        store
    }
}

/// The layout of one game: which game it is, and the tables built from its
/// documents.
///
/// A new value holds empty tables. Each document that is ingested is merged
/// as a whole or, where it is refused, not at all. Nothing else writes to the
/// tables, so every record that a query returns is resolved.
pub struct DSAPI {
    game_list: GameList,
    store: Store,
    /// The engine of the game; the first part of the address of its
    /// documents.
    pub engine: String,
    /// The location of the game; the second part of the address of its
    /// documents.
    pub location: String,
}

impl View for DSAPI {
    type V = Tables;

    closed spec fn view(&self) -> Tables {
        self.store@
    }
}

/// What ingesting a document does to the tables: every entry of the document
/// is written, in order, or the document is refused for its reason and
/// nothing is written.
pub open spec fn merged(
    before: Tables,
    after: Tables,
    r: Result<(), LoadError>,
    expected: Result<Seq<EntryView>, LoadError>,
) -> bool {
    match expected {
        Ok(entries) => r is Ok && after == before.apply_all(entries),
        Err(e) => r == Err::<(), LoadError>(e) && after == before,
    }
}

/// The entries of the four documents of a game, in the order classes,
/// structs, enums, offsets; or the first of them that is refused, with its
/// reason.
pub open spec fn game_entries(
    classes: Response,
    structs: Response,
    enums: Response,
    offsets: Response,
) -> Result<Seq<EntryView>, LoadFailure> {
    match response_entries(DocumentKind::Classes, classes.status, classes.spec_body()) {
        Err(reason) => Err(LoadFailure { document: DocumentKind::Classes, reason }),
        Ok(a) => match response_entries(DocumentKind::Structs, structs.status, structs.spec_body()) {
            Err(reason) => Err(LoadFailure { document: DocumentKind::Structs, reason }),
            Ok(b) => match response_entries(DocumentKind::Enums, enums.status, enums.spec_body()) {
                Err(reason) => Err(LoadFailure { document: DocumentKind::Enums, reason }),
                Ok(c) => match response_entries(
                    DocumentKind::Offsets,
                    offsets.status,
                    offsets.spec_body(),
                ) {
                    Err(reason) => Err(LoadFailure { document: DocumentKind::Offsets, reason }),
                    Ok(d) => Ok(a + b + c + d),
                },
            },
        },
    }
}

/// Whether a document carries a version tag that stands for a known schema.
pub open spec fn has_known_version(doc: Json) -> bool {
    match doc.spec_field("version"@) {
        Some(tag) => match tag.spec_u64() {
            Some(tag) => SchemaVersion::of_tag(tag) is Some,
            None => false,
        },
        None => false,
    }
}

/// A class, struct or enum document without a known version tag is refused,
/// and nothing of it reaches the tables.
pub proof fn lemma_unknown_version_refused(
    kind: DocumentKind,
    doc: Json,
    before: Tables,
    after: Tables,
    r: Result<(), LoadError>,
)
    requires
        kind != DocumentKind::Offsets,
        !has_known_version(doc),
        merged(before, after, r, document_entries(kind, doc)),
    ensures
        r is Err,
        after == before,
        (doc.spec_field("version"@) is Some && doc.spec_field("version"@).unwrap().spec_u64() is Some
            && doc.spec_field("data"@) is Some && doc.spec_field("data"@).unwrap() is Array) ==> r
            == Err::<(), LoadError>(
            LoadError::UnknownVersion(doc.spec_field("version"@).unwrap().spec_u64().unwrap()),
        ),
{
}

/// A refused document leaves the tables as they were, whatever the reason.
pub proof fn lemma_refused_leaves_tables(
    before: Tables,
    after: Tables,
    r: Result<(), LoadError>,
    expected: Result<Seq<EntryView>, LoadError>,
)
    requires
        merged(before, after, r, expected),
    ensures
        r is Err <==> expected is Err,
        r is Err ==> after == before,
{
}

impl DSAPI {
    /// The catalog that the game was selected from.
    pub closed spec fn catalog(&self) -> GameList {
        self.game_list
    }

    /// The characters of the field `engine`.
    pub closed spec fn spec_engine(&self) -> Seq<char> {
        self.engine@
    }

    /// The characters of the field `location`.
    pub closed spec fn spec_location(&self) -> Seq<char> {
        self.location@
    }

    /// Whether two values describe the same game of the same catalog.
    pub open spec fn same_game(&self, other: &DSAPI) -> bool {
        &&& self.catalog() == other.catalog()
        &&& self.spec_engine() == other.spec_engine()
        &&& self.spec_location() == other.spec_location()
    }

    /// Selects the game with the identifier `game_id` from the catalog. The
    /// game must be in the catalog.
    pub fn new(game_list: GameList, game_id: &str) -> (r: DSAPI)
        requires
            first_game(game_list.games@, has_hash(game_id@)) is Some,
        ensures
            r@ == Tables::empty(),
            r@.resolved(),
            r.catalog() == game_list,
            r.spec_engine() == first_game(game_list.games@, has_hash(game_id@)).unwrap().engine@,
            r.spec_location() == first_game(
                game_list.games@,
                has_hash(game_id@),
            ).unwrap().location@,
    {
        let game = game_list.get_game_by_hash(game_id).unwrap();
        let engine = game.engine.clone();
        let location = game.location.clone();
        DSAPI { game_list, store: Store::new(), engine, location }
    }

    /// The engine of the game.
    pub fn engine(&self) -> (r: &str)
        ensures
            r@ == self.spec_engine(),
    {
        self.engine.as_str()
    }

    /// The location of the game.
    pub fn location(&self) -> (r: &str)
        ensures
            r@ == self.spec_location(),
    {
        self.location.as_str()
    }

    /// The address of one of the game's documents.
    pub fn document_url(&self, kind: DocumentKind) -> (r: String)
        ensures
            r@ == document_address(self.spec_engine(), self.spec_location(), kind),
    {
        document_url(self.engine.as_str(), self.location.as_str(), kind)
    }

    /// Writes the entries of a document to the tables, in order. The store is
    /// taken out, rewritten and put back, so that it is a whole value
    /// wherever its invariant is asked for.
    fn write(&mut self, entries: Vec<Entry>)
        requires
            all_resolved(views(entries@)),
        ensures
            final(self)@ == old(self)@.apply_all(views(entries@)),
            final(self)@.resolved(),
            final(self).same_game(old(self)),
    {
        let mut store = Store::new();
        std::mem::swap(&mut self.store, &mut store);
        let mut store = store.apply_all(entries);
        proof {
            use_type_invariant(&store);
        }
        std::mem::swap(&mut self.store, &mut store);
    }

    /// Merges a decoded document of the given kind into the tables.
    pub fn ingest(&mut self, kind: DocumentKind, doc: &Json) -> (r: Result<(), LoadError>)
        ensures
            merged(old(self)@, final(self)@, r, document_entries(kind, *doc)),
            final(self)@.resolved(),
            final(self).same_game(old(self)),
    {
        proof {
            use_type_invariant(&self.store);
            lemma_kind_entries_resolved(kind, *doc);
        }
        match decode_document(kind, doc) {
            Ok(entries) => {
                self.write(entries);
                Ok(())
            },
            Err(e) => Err(e),
        }
    }

    /// Merges a document of the given kind, given as text, into the tables.
    pub fn ingest_text(&mut self, kind: DocumentKind, text: &str) -> (r: Result<(), LoadError>)
        ensures
            merged(old(self)@, final(self)@, r, text_entries(kind, text@)),
            final(self)@.resolved(),
            final(self).same_game(old(self)),
    {
        proof {
            use_type_invariant(&self.store);
            lemma_document_entries_resolved(kind, Json::Null, text@, 0, None);
        }
        match decode_text(kind, text) {
            Ok(entries) => {
                self.write(entries);
                Ok(())
            },
            Err(e) => Err(e),
        }
    }

    /// Merges the document of the given kind that the server answered with
    /// into the tables.
    pub fn ingest_response(&mut self, kind: DocumentKind, response: &Response) -> (r: Result<
        (),
        LoadError,
    >)
        ensures
            merged(
                old(self)@,
                final(self)@,
                r,
                response_entries(kind, response.status, response.spec_body()),
            ),
            final(self)@.resolved(),
            final(self).same_game(old(self)),
    {
        proof {
            use_type_invariant(&self.store);
            lemma_document_entries_resolved(
                kind,
                Json::Null,
                Seq::empty(),
                response.status,
                response.spec_body(),
            );
        }
        match decode_response(kind, response.status, response.body()) {
            Ok(entries) => {
                self.write(entries);
                Ok(())
            },
            Err(e) => Err(e),
        }
    }

    /// Merges the four documents of the game into the tables, all of them or,
    /// where one is refused, none.
    pub fn load(
        &mut self,
        classes: &Response,
        structs: &Response,
        enums: &Response,
        offsets: &Response,
    ) -> (r: Result<(), LoadFailure>)
        ensures
            match game_entries(*classes, *structs, *enums, *offsets) {
                Ok(entries) => r is Ok && final(self)@ == old(self)@.apply_all(entries),
                Err(failure) => r == Err::<(), LoadFailure>(failure) && final(self)@ == old(self)@,
            },
            final(self)@.resolved(),
            final(self).same_game(old(self)),
    {
        proof {
            use_type_invariant(&self.store);
            let none = Seq::<char>::empty();
            lemma_document_entries_resolved(
                DocumentKind::Classes,
                Json::Null,
                none,
                classes.status,
                classes.spec_body(),
            );
            lemma_document_entries_resolved(
                DocumentKind::Structs,
                Json::Null,
                none,
                structs.status,
                structs.spec_body(),
            );
            lemma_document_entries_resolved(
                DocumentKind::Enums,
                Json::Null,
                none,
                enums.status,
                enums.spec_body(),
            );
            lemma_document_entries_resolved(
                DocumentKind::Offsets,
                Json::Null,
                none,
                offsets.status,
                offsets.spec_body(),
            );
        }
        let a = match decode_response(DocumentKind::Classes, classes.status, classes.body()) {
            Ok(entries) => entries,
            Err(reason) => {
                return Err(LoadFailure { document: DocumentKind::Classes, reason });
            },
        };
        let b = match decode_response(DocumentKind::Structs, structs.status, structs.body()) {
            Ok(entries) => entries,
            Err(reason) => {
                return Err(LoadFailure { document: DocumentKind::Structs, reason });
            },
        };
        let c = match decode_response(DocumentKind::Enums, enums.status, enums.body()) {
            Ok(entries) => entries,
            Err(reason) => {
                return Err(LoadFailure { document: DocumentKind::Enums, reason });
            },
        };
        let d = match decode_response(DocumentKind::Offsets, offsets.status, offsets.body()) {
            Ok(entries) => entries,
            Err(reason) => {
                return Err(LoadFailure { document: DocumentKind::Offsets, reason });
            },
        };
        proof {
            let start = self@;
            lemma_apply_all_joined(start, views(a@), views(b@));
            lemma_apply_all_joined(start, views(a@) + views(b@), views(c@));
            lemma_apply_all_joined(start, views(a@) + views(b@) + views(c@), views(d@));
        }
        self.write(a);
        self.write(b);
        self.write(c);
        self.write(d);
        Ok(())
    }

    /// Returns the record of a member of a class or struct, if the tables
    /// have one.
    pub fn get_member_offset(&self, class_name: &str, member_name: &str) -> (r: Option<OffsetInfo>)
        ensures
            r == self@.member(class_name@, member_name@),
            r is Some ==> r.unwrap().resolved(),
    {
        proof {
            use_type_invariant(&self.store);
        }
        let key = joined(class_name, member_name);
        match self.store.class_member_map.get(key.as_str()) {
            Some(info) => Some(*info),
            None => None,
        }
    }

    /// Returns the total size of a class or struct, if the tables have it.
    pub fn get_class_size(&self, class_name: &str) -> (r: Option<i32>)
        ensures
            r == self@.size(class_name@),
    {
        match self.store.class_size_map.get(class_name) {
            Some(size) => Some(*size),
            None => None,
        }
    }

    /// Returns the offset of a function, if the tables have it. No document
    /// fills this table.
    pub fn get_function_offset(&self, function_class: &str, function_name: &str) -> (r: Option<u64>)
        ensures
            r == self@.function(function_class@, function_name@),
    {
        let key = joined(function_class, function_name);
        match self.store.function_offset_map.get(key.as_str()) {
            Some(offset) => Some(*offset),
            None => None,
        }
    }

    /// Returns the symbolic name of a value of an enum, if the tables have
    /// it.
    pub fn get_enum_name(&self, enum_name: &str, enum_value: i64) -> (r: Option<String>)
        ensures
            match self@.enum_name(enum_name@, enum_value as int) {
                Some(name) => r is Some && r.unwrap()@ == name,
                None => r is None,
            },
    {
        let key = make_enum_key(enum_name, enum_value);
        match self.store.enum_name_map.get(key.as_str()) {
            Some(name) => Some(name.clone()),
            None => None,
        }
    }

    /// Returns a named global offset, if the tables have it.
    pub fn get_offset(&self, offset_name: &str) -> (r: Option<u64>)
        ensures
            r == self@.offset(offset_name@),
    {
        match self.store.offset_map.get(offset_name) {
            Some(offset) => Some(*offset),
            None => None,
        }
    }

    /// Returns the byte offset of a member that the tables have: the offset
    /// of the record that `get_member_offset` returns. The member must be in
    /// the tables.
    pub fn get_member_offset_unchecked(&self, class_name: &str, member_name: &str) -> (r: i64)
        requires
            self@.member(class_name@, member_name@) is Some,
        ensures
            r == self@.member(class_name@, member_name@).unwrap().offset,
    {
        let key = joined(class_name, member_name);
        let info = self.store.class_member_map.get(key.as_str()).unwrap();
        info.offset
    }
}

} // verus!

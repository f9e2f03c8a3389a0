//! The kinds of document that make up the description of one game, and how
//! each is addressed and decoded.

use crate::entry::{Entry, EntryView, all_resolved, views};
use crate::enums::{decode_enum_document, enum_document_entries, lemma_enum_entries_resolved};
use crate::error::LoadError;
use crate::json::{Json, json_of};
use crate::layout::{decode_layout, layout_entries, lemma_layout_entries_resolved};
use crate::offsets::{decode_offsets, lemma_offset_entries_resolved, offset_entries};
use crate::transport::{response_text, response_text_of};
use vstd::prelude::*;

verus! {

/// Where the documents of all games live.
pub const GAMES_URL: &'static str = "https://dumpspace.spuckwaffel.com/Games/";

/// Where the catalog lives.
pub const CATALOG_URL: &'static str = "https://dumpspace.spuckwaffel.com/Games/GameList.json";

/// The ending of the address of a compressed document.
pub const DOCUMENT_SUFFIX: &'static str = ".json.gz";

/// A kind of document that is loaded into the tables. Function offsets are
/// part of the protocol too, but nothing decodes them.
#[derive(Debug, Clone, Copy, PartialEq, Eq, Structural)]
pub enum DocumentKind {
    /// The layouts of classes.
    Classes,
    /// The layouts of structs; decoded as classes are, into the same tables.
    Structs,
    /// The names of enum values.
    Enums,
    /// Named global offsets.
    Offsets,
}

impl DocumentKind {
    /// The name of the document on the server.
    pub open spec fn spec_stem(self) -> Seq<char> {
        match self {
            DocumentKind::Classes => "ClassesInfo"@,
            DocumentKind::Structs => "StructsInfo"@,
            DocumentKind::Enums => "EnumsInfo"@,
            DocumentKind::Offsets => "OffsetsInfo"@,
        }
    }

    /// The kind that is loaded after this one, if any: classes, structs,
    /// enums, offsets.
    pub open spec fn spec_next(self) -> Option<DocumentKind> {
        match self {
            DocumentKind::Classes => Some(DocumentKind::Structs),
            DocumentKind::Structs => Some(DocumentKind::Enums),
            DocumentKind::Enums => Some(DocumentKind::Offsets),
            DocumentKind::Offsets => None,
        }
    }

    /// The name of the document on the server.
    pub fn stem(self) -> (r: &'static str)
        ensures
            r@ == self.spec_stem(),
    {
        match self {
            DocumentKind::Classes => "ClassesInfo",
            DocumentKind::Structs => "StructsInfo",
            DocumentKind::Enums => "EnumsInfo",
            DocumentKind::Offsets => "OffsetsInfo",
        }
    }

    /// The kind that is loaded first.
    pub fn first() -> (r: DocumentKind)
        ensures
            r == DocumentKind::Classes,
    {
        DocumentKind::Classes
    }

    /// The kind that is loaded after this one, if any.
    pub fn next(self) -> (r: Option<DocumentKind>)
        ensures
            r == self.spec_next(),
    {
        match self {
            DocumentKind::Classes => Some(DocumentKind::Structs),
            DocumentKind::Structs => Some(DocumentKind::Enums),
            DocumentKind::Enums => Some(DocumentKind::Offsets),
            DocumentKind::Offsets => None,
        }
    }
}

/// The address of a document of the game at `engine` and `location`.
pub open spec fn document_address(engine: Seq<char>, location: Seq<char>, kind: DocumentKind) -> Seq<
    char,
> {
    GAMES_URL@ + engine + "/"@ + location + "/"@ + kind.spec_stem() + DOCUMENT_SUFFIX@
}

/// The address of a document of the game at `engine` and `location`.
pub fn document_url(engine: &str, location: &str, kind: DocumentKind) -> (r: String)
    ensures
        r@ == document_address(engine@, location@, kind),
{
    let mut url = String::from_str(GAMES_URL);
    url.append(engine);
    url.append("/");
    url.append(location);
    url.append("/");
    url.append(kind.stem());
    url.append(DOCUMENT_SUFFIX);
    url
}

/// The entries of a document of the given kind, or the reason it is refused.
pub open spec fn document_entries(kind: DocumentKind, doc: Json) -> Result<
    Seq<EntryView>,
    LoadError,
> {
    match kind {
        DocumentKind::Classes => layout_entries(doc),
        DocumentKind::Structs => layout_entries(doc),
        DocumentKind::Enums => enum_document_entries(doc),
        DocumentKind::Offsets => offset_entries(doc),
    }
}

/// The entries of a document given as text: a text that is not JSON is
/// refused for its syntax.
pub open spec fn text_entries(kind: DocumentKind, text: Seq<char>) -> Result<
    Seq<EntryView>,
    LoadError,
> {
    match json_of(text) {
        Some(doc) => document_entries(kind, doc),
        None => Err(LoadError::Syntax),
    }
}

/// The entries of a document, from the status and the body of the server's
/// answer.
pub open spec fn response_entries(
    kind: DocumentKind,
    status: u16,
    body: Option<Seq<u8>>,
) -> Result<Seq<EntryView>, LoadError> {
    match response_text_of(status, body) {
        Ok(text) => text_entries(kind, text),
        Err(e) => Err(e),
    }
}

/// Every entry that a document of any kind gives is resolved, whether the
/// document comes as a value, as text, or as the server's answer.
pub proof fn lemma_document_entries_resolved(
    kind: DocumentKind,
    doc: Json,
    text: Seq<char>,
    status: u16,
    body: Option<Seq<u8>>,
)
    ensures
        document_entries(kind, doc) is Ok ==> all_resolved(document_entries(kind, doc).unwrap()),
        text_entries(kind, text) is Ok ==> all_resolved(text_entries(kind, text).unwrap()),
        response_entries(kind, status, body) is Ok ==> all_resolved(
            response_entries(kind, status, body).unwrap(),
        ),
{
    lemma_kind_entries_resolved(kind, doc);
    if json_of(text) is Some {
        lemma_kind_entries_resolved(kind, json_of(text).unwrap());
    }
    if response_text_of(status, body) is Ok {
        let inner = response_text_of(status, body).unwrap();
        if json_of(inner) is Some {
            lemma_kind_entries_resolved(kind, json_of(inner).unwrap());
        }
    }
}

/// Every entry that a document of any kind gives is resolved.
pub proof fn lemma_kind_entries_resolved(kind: DocumentKind, doc: Json)
    ensures
        document_entries(kind, doc) is Ok ==> all_resolved(document_entries(kind, doc).unwrap()),
{
    lemma_layout_entries_resolved(doc);
    lemma_enum_entries_resolved(doc);
    lemma_offset_entries_resolved(doc);
}

/// Whether a decoding gave what the document stands for.
pub open spec fn decodes_to(
    r: Result<Vec<Entry>, LoadError>,
    expected: Result<Seq<EntryView>, LoadError>,
) -> bool {
    match expected {
        Ok(entries) => r is Ok && views(r.unwrap()@) == entries,
        Err(e) => r == Err::<Vec<Entry>, LoadError>(e),
    }
}

/// Decodes a document of the given kind.
pub fn decode_document(kind: DocumentKind, doc: &Json) -> (r: Result<Vec<Entry>, LoadError>)
    ensures
        decodes_to(r, document_entries(kind, *doc)),
{
    match kind {
        DocumentKind::Classes => decode_layout(doc),
        DocumentKind::Structs => decode_layout(doc),
        DocumentKind::Enums => decode_enum_document(doc),
        DocumentKind::Offsets => decode_offsets(doc),
    }
}

/// Decodes a document of the given kind from its text.
pub fn decode_text(kind: DocumentKind, text: &str) -> (r: Result<Vec<Entry>, LoadError>)
    ensures
        decodes_to(r, text_entries(kind, text@)),
{
    match Json::parse(text) {
        Some(doc) => decode_document(kind, &doc),
        None => Err(LoadError::Syntax),
    }
}

/// Decodes a document of the given kind from the status and the body of the
/// server's answer.
pub fn decode_response(kind: DocumentKind, status: u16, body: Option<&[u8]>) -> (r: Result<
    Vec<Entry>,
    LoadError,
>)
    ensures
        decodes_to(
            r,
            response_entries(
                kind,
                status,
                match body {
                    Some(payload) => Some(payload@),
                    None => None,
                },
            ),
        ),
{
    match response_text(status, body) {
        Ok(text) => decode_text(kind, text.as_str()),
        Err(e) => Err(e),
    }
}

} // verus!

//! Symbolic lookups into the memory layout of a target binary.
//!
//! The layout of a game is described by four documents: the members and
//! sizes of its classes, the same of its structs, the names of its enum
//! values, and its named global offsets. Each arrives as gzip-compressed
//! JSON. A document is decoded into a flat list of validated entries, and the
//! entries are merged into tables that answer point queries by name: the
//! offset of a member of a type, the size of a type, the name of an enum
//! value, a global offset.
//!
//! A document is merged as a whole or not at all: one that is malformed, or
//! that carries an unknown version tag, is refused and leaves the tables as
//! they were.
//!
//! The library does no input or output. Its caller fetches the catalog and
//! the documents and hands over what the server answered.

pub mod api;
pub mod catalog;
pub mod decimal;
pub mod document;
pub mod entry;
pub mod enums;
pub mod error;
pub mod gather;
pub mod json;
pub mod layout;
pub mod offsets;
pub mod schema;
pub mod text;
pub mod transport;

pub use api::DSAPI;
pub use catalog::{Game, GameList, Uploader};
pub use document::DocumentKind;
pub use entry::{Entry, OffsetInfo};
pub use error::{LoadError, LoadFailure};
pub use json::Json;
pub use transport::Response;

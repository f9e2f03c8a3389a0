//! Why a document could not be loaded.

use crate::decimal::{decimal_nat, unsigned_string};
use crate::document::DocumentKind;
use crate::text::joined;
use crate::transport::{status_text, status_text_of};
use vstd::prelude::*;

verus! {

/// The reason a document was refused. A refused document leaves the tables as
/// they were.
#[derive(Debug, Clone, Copy, PartialEq, Eq, Structural)]
pub enum LoadError {
    /// The server answered with a status outside 200 to 299.
    Status(u16),
    /// The text of the answer could not be read.
    Unreadable,
    /// The payload could not be read, or is not gzip-compressed UTF-8 text.
    Encoding,
    /// The text is not JSON.
    Syntax,
    /// The JSON does not have the shape of its document kind.
    Malformed,
    /// The document carries a version tag that this parser does not know.
    UnknownVersion(u64),
}

/// How the message of every document that could not be parsed begins,
/// whether its text is no JSON or its JSON has the wrong shape.
pub const PARSE_FAILURE: &'static str = "Failed to parse JSON: ";

impl LoadError {
    /// The reason in words.
    pub open spec fn spec_message(self) -> Seq<char> {
        match self {
            LoadError::Status(status) => "Request failed with status: "@ + status_text_of(status),
            LoadError::Unreadable => "Failed to read response text"@,
            LoadError::Encoding => "Failed to read decompressed data"@,
            LoadError::Syntax => PARSE_FAILURE@ + "the text is not JSON"@,
            LoadError::Malformed => PARSE_FAILURE@
                + "the document does not have the shape of its kind"@,
            LoadError::UnknownVersion(tag) => "Unknown version: "@ + decimal_nat(tag as nat),
        }
    }

    /// The reason in words.
    pub fn message(&self) -> (r: String)
        ensures
            r@ == self.spec_message(),
    {
        match self {
            LoadError::Status(status) => {
                let status = status_text(*status);
                joined("Request failed with status: ", status.as_str())
            },
            LoadError::Unreadable => String::from_str("Failed to read response text"),
            LoadError::Encoding => String::from_str("Failed to read decompressed data"),
            LoadError::Syntax => joined(PARSE_FAILURE, "the text is not JSON"),
            LoadError::Malformed => joined(
                PARSE_FAILURE,
                "the document does not have the shape of its kind",
            ),
            LoadError::UnknownVersion(tag) => {
                let number = unsigned_string(*tag);
                joined("Unknown version: ", number.as_str())
            },
        }
    }
}

/// A document that was refused, and why.
#[derive(Debug, Clone, Copy, PartialEq, Eq, Structural)]
pub struct LoadFailure {
    pub document: DocumentKind,
    pub reason: LoadError,
}

impl LoadFailure {
    /// The failure in words: the name of the document, then the reason.
    pub open spec fn spec_message(self) -> Seq<char> {
        self.document.spec_stem() + ": "@ + self.reason.spec_message()
    }

    /// The failure in words: the name of the document, then the reason.
    pub fn message(&self) -> (r: String)
        ensures
            r@ == self.spec_message(),
    {
        let mut out = String::from_str(self.document.stem());
        out.append(": ");
        let reason = self.reason.message();
        out.append(reason.as_str());
        out
    }
}

} // verus!

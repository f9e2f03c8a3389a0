//! The header that class, struct and enum documents share: a version tag and
//! an array of groups.

use crate::error::LoadError;
use crate::json::Json;
use vstd::prelude::*;

verus! {

/// The version tag of the first schema.
pub const TAG_V1: u64 = 10201;

/// The version tag of the second schema.
pub const TAG_V2: u64 = 10202;

/// The schema that a layout document follows.
#[derive(Debug, Clone, Copy, PartialEq, Eq, Structural)]
pub enum SchemaVersion {
    /// Tag 10201: a member array has 3 elements, a bitfield 4, and the name
    /// of a bitfield carries a suffix.
    V1,
    /// Tag 10202: a member array has 4 elements, a bitfield 5.
    V2,
}

impl SchemaVersion {
    /// The schema that a version tag stands for.
    pub open spec fn of_tag(tag: u64) -> Option<SchemaVersion> {
        if tag == TAG_V1 {
            Some(SchemaVersion::V1)
        } else if tag == TAG_V2 {
            Some(SchemaVersion::V2)
        } else {
            None
        }
    }

    /// The length of the array of a member that is no bitfield. The array of
    /// a bitfield is one longer, and its last element is the bit offset.
    pub open spec fn plain_len(self) -> int {
        match self {
            SchemaVersion::V1 => 3,
            SchemaVersion::V2 => 4,
        }
    }

    /// Resolves a version tag.
    pub fn from_tag(tag: u64) -> (r: Option<SchemaVersion>)
        ensures
            r == Self::of_tag(tag),
    {
        if tag == TAG_V1 {
            Some(SchemaVersion::V1)
        } else if tag == TAG_V2 {
            Some(SchemaVersion::V2)
        } else {
            None
        }
    }
}

/// The schema and the groups of a document, or the reason it is refused: a
/// document without a `version` that fits 64 bits unsigned or without a
/// `data` array is malformed, and one with an unknown tag is refused for that
/// tag, whatever its groups hold.
pub open spec fn tagged_groups(doc: Json) -> Result<(SchemaVersion, Seq<Json>), LoadError> {
    match (doc.spec_field("version"@), doc.spec_field("data"@)) {
        (Some(tag), Some(Json::Array(groups))) => match tag.spec_u64() {
            Some(tag) => match SchemaVersion::of_tag(tag) {
                Some(version) => Ok((version, groups@)),
                None => Err(LoadError::UnknownVersion(tag)),
            },
            None => Err(LoadError::Malformed),
        },
        _ => Err(LoadError::Malformed),
    }
}

/// Reads the header of a document: resolves its version, once, and finds its
/// groups.
pub fn read_header(doc: &Json) -> (r: Result<(SchemaVersion, &Vec<Json>), LoadError>)
    ensures
        match tagged_groups(*doc) {
            Ok((version, groups)) => r is Ok && r.unwrap().0 == version && r.unwrap().1@ == groups,
            Err(e) => r == Err::<(SchemaVersion, &Vec<Json>), LoadError>(e),
        },
{
    let tag = match doc.get("version") {
        Some(tag) => tag,
        None => {
            return Err(LoadError::Malformed);
        },
    };
    let groups = match doc.get("data") {
        Some(data) => match data.as_array() {
            Some(groups) => groups,
            None => {
                return Err(LoadError::Malformed);
            },
        },
        None => {
            return Err(LoadError::Malformed);
        },
    };
    let tag = match tag.as_u64() {
        Some(tag) => tag,
        None => {
            return Err(LoadError::Malformed);
        },
    };
    match SchemaVersion::from_tag(tag) {
        Some(version) => Ok((version, groups)),
        None => Err(LoadError::UnknownVersion(tag)),
    }
}

} // verus!

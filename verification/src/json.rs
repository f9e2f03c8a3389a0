//! JSON values as plain data, and the parser that produces them.

use crate::text::same_text;
use vstd::prelude::*;

verus! {

/// A JSON value.
///
/// Integers hold every integral number that fits `i64` or `u64`; any other
/// number is `Real`, whose magnitude the library never reads. An object keeps
/// its members as a list of name and value pairs.
#[derive(Debug, PartialEq, Eq)]
pub enum Json {
    Null,
    Bool(bool),
    Integer(i128),
    Real,
    Text(String),
    Array(Vec<Json>),
    Object(Vec<(String, Json)>),
}

/// The value that the parser reads from a text, or `None` where it refuses
/// the text: where the text is not one JSON value, nests deeper than the
/// parser goes, or holds a number that the parser cannot hold.
pub uninterp spec fn json_of(text: Seq<char>) -> Option<Json>;

/// Calls `serde_json::from_str` to read one `serde_json::Value` from the text
/// and hands it to `plain`.
///
/// Trusted: whether a value comes back, and which, depends on the text alone.
/// What the value is for a given text is not stated.
#[verifier::external_body]
fn read_json(text: &str) -> (r: Option<Json>)
    ensures
        r == json_of(text@),
{
    match serde_json::from_str::<serde_json::Value>(text) {
        Ok(value) => Some(plain(value)),
        Err(_) => None,
    }
}

/// `serde_json::Value`, carried from the parser to `plain` and never read by
/// verified code.
#[verifier::external_type_specification]
#[verifier::external_body]
pub struct ExValue(serde_json::Value);

/// Rewrites a `serde_json::Value` as a `Json`, variant by variant: a number
/// by `serde_json::Number::as_i128`, an array element by element, an object
/// member by member in the order in which `serde_json::Map` hands them out.
///
/// Trusted, and nothing is claimed of the result.
#[verifier::external_body]
fn plain(value: serde_json::Value) -> Json {
    match value {
        serde_json::Value::Null => Json::Null,
        serde_json::Value::Bool(b) => Json::Bool(b),
        serde_json::Value::Number(n) => n.as_i128().map_or(Json::Real, Json::Integer),
        serde_json::Value::String(s) => Json::Text(s),
        serde_json::Value::Array(items) => Json::Array(items.into_iter().map(plain).collect()),
        serde_json::Value::Object(members) => Json::Object(
            members.into_iter().map(|(name, value)| (name, plain(value))).collect(),
        ),
    }
}

/// The value of the first member called `name`, if there is one.
pub open spec fn first_named(members: Seq<(String, Json)>, name: Seq<char>) -> Option<Json>
    decreases members.len(),
{
    if members.len() == 0 {
        None
    } else if members[0].0@ == name {
        Some(members[0].1)
    } else {
        first_named(members.drop_first(), name)
    }
}

/// Looks for the first member called `name`.
pub fn find_member<'a>(members: &'a Vec<(String, Json)>, name: &str) -> (r: Option<&'a Json>)
    ensures
        r is Some == first_named(members@, name@) is Some,
        r is Some ==> *r.unwrap() == first_named(members@, name@).unwrap(),
{
    let mut i: usize = 0;
    assert(members@.skip(0) == members@);
    while i < members.len()
        invariant
            i <= members.len(),
            first_named(members@, name@) == first_named(members@.skip(i as int), name@),
        decreases members.len() - i,
    {
        assert(members@.skip(i as int)[0] == members@[i as int]);
        if same_text(members[i].0.as_str(), name) {
            return Some(&members[i].1);
        }
        assert(members@.skip(i as int).drop_first() == members@.skip(i + 1));
        i += 1;
    }
    None
}

impl Json {
    /// The number, where the value is an integer that fits `i64`.
    pub open spec fn spec_i64(self) -> Option<i64> {
        match self {
            Json::Integer(n) if i64::MIN <= n <= i64::MAX => Some(n as i64),
            _ => None,
        }
    }

    /// The number, where the value is an integer that fits `u64`.
    pub open spec fn spec_u64(self) -> Option<u64> {
        match self {
            Json::Integer(n) if 0 <= n <= u64::MAX => Some(n as u64),
            _ => None,
        }
    }

    /// The characters, where the value is a string.
    pub open spec fn spec_text(self) -> Option<Seq<char>> {
        match self {
            Json::Text(s) => Some(s@),
            _ => None,
        }
    }

    /// The elements, where the value is an array.
    pub open spec fn spec_items(self) -> Option<Seq<Json>> {
        match self {
            Json::Array(items) => Some(items@),
            _ => None,
        }
    }

    /// The members in order, where the value is an object.
    pub open spec fn spec_members(self) -> Option<Seq<(String, Json)>> {
        match self {
            Json::Object(members) => Some(members@),
            _ => None,
        }
    }

    /// The first member called `name`, where the value is an object that has
    /// one.
    pub open spec fn spec_field(self, name: Seq<char>) -> Option<Json> {
        match self {
            Json::Object(members) => first_named(members@, name),
            _ => None,
        }
    }

    /// Reads one JSON value from a text; `None` where the parser refuses the
    /// text.
    pub fn parse(text: &str) -> (r: Option<Json>)
        ensures
            r == json_of(text@),
    {
        read_json(text)
    }

    /// The number, where the value is an integer that fits `i64`.
    pub fn as_i64(&self) -> (r: Option<i64>)
        ensures
            r == self.spec_i64(),
    {
        match self {
            Json::Integer(n) => {
                if -0x8000_0000_0000_0000 <= *n && *n <= 0x7fff_ffff_ffff_ffff {
                    Some(*n as i64)
                } else {
                    None
                }
            },
            _ => None,
        }
    }

    /// The number, where the value is an integer that fits `u64`.
    pub fn as_u64(&self) -> (r: Option<u64>)
        ensures
            r == self.spec_u64(),
    {
        match self {
            Json::Integer(n) => {
                if 0 <= *n && *n <= 0xffff_ffff_ffff_ffff {
                    Some(*n as u64)
                } else {
                    None
                }
            },
            _ => None,
        }
    }

    /// The text, where the value is a string.
    pub fn as_str(&self) -> (r: Option<&str>)
        ensures
            r is Some == self.spec_text() is Some,
            r is Some ==> r.unwrap()@ == self.spec_text().unwrap(),
    {
        match self {
            Json::Text(s) => Some(s.as_str()),
            _ => None,
        }
    }

    /// The elements, where the value is an array.
    pub fn as_array(&self) -> (r: Option<&Vec<Json>>)
        ensures
            r is Some == self.spec_items() is Some,
            r is Some ==> r.unwrap()@ == self.spec_items().unwrap(),
    {
        match self {
            Json::Array(items) => Some(items),
            _ => None,
        }
    }

    /// The members in order, where the value is an object.
    pub fn as_object(&self) -> (r: Option<&Vec<(String, Json)>>)
        ensures
            r is Some == self.spec_members() is Some,
            r is Some ==> r.unwrap()@ == self.spec_members().unwrap(),
    {
        match self {
            Json::Object(members) => Some(members),
            _ => None,
        }
    }

    /// Looks a member up by name; of several with one name the first counts.
    pub fn get(&self, name: &str) -> (r: Option<&Json>)
        ensures
            r is Some == self.spec_field(name@) is Some,
            r is Some ==> *r.unwrap() == self.spec_field(name@).unwrap(),
    {
        match self {
            Json::Object(members) => find_member(members, name),
            _ => None,
        }
    }
}

} // verus!

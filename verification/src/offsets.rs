//! Global offset documents.
//!
//! An offsets document is an object with a `data` array of pairs: a name and
//! an unsigned number, each pair an array of exactly two elements.

use crate::entry::{Entry, EntryView, all_resolved, views};
use crate::error::LoadError;
use crate::gather::{
    Decoder, accepted, appended, decoded, gather, lemma_accepted_step, lemma_decoded_resolved,
    lemma_decoded_step,
};
use crate::json::Json;
use vstd::prelude::*;

verus! {

/// The entry of one pair.
pub open spec fn pair_entries(pair: Json) -> Option<Seq<EntryView>> {
    match pair {
        Json::Array(items) => {
            if items@.len() != 2 {
                None
            } else {
                match (items@[0], items@[1].spec_u64()) {
                    (Json::Text(name), Some(value)) => Some(
                        seq![EntryView::Offset { name: name@, value }],
                    ),
                    _ => None,
                }
            }
        },
        _ => None,
    }
}

/// Decodes one pair.
pub open spec fn pair_decoder() -> Decoder<Json> {
    |pair: Json| pair_entries(pair)
}

/// The entries of an offsets document, in document order, or the reason it
/// is refused.
pub open spec fn offset_entries(doc: Json) -> Result<Seq<EntryView>, LoadError> {
    match doc.spec_field("data"@) {
        Some(Json::Array(pairs)) => match gather(pairs@, pair_decoder()) {
            Some(entries) => Ok(entries),
            None => Err(LoadError::Malformed),
        },
        _ => Err(LoadError::Malformed),
    }
}

/// Every entry of a well-formed offsets document is resolved: it gives no
/// member at all.
pub proof fn lemma_offset_entries_resolved(doc: Json)
    ensures
        offset_entries(doc) is Ok ==> all_resolved(offset_entries(doc).unwrap()),
{
    if offset_entries(doc) is Ok {
        let pairs = doc.spec_field("data"@).unwrap()->Array_0@;
        let decode = pair_decoder();
        assert forall|i: int| 0 <= i < pairs.len() implies (#[trigger] decode(pairs[i])) is Some
            && all_resolved(decode(pairs[i]).unwrap()) by {}
        lemma_decoded_resolved(pairs, decode);
    }
}

/// Decodes one pair and appends its entry to `out`.
pub fn decode_pair(pair: &Json, out: &mut Vec<Entry>) -> (ok: bool)
    ensures
        appended(old(out)@, final(out)@, ok, pair_entries(*pair)),
{
    let items = match pair.as_array() {
        Some(items) => items,
        None => {
            return false;
        },
    };
    if items.len() != 2 {
        return false;
    }
    let ghost before = out@;
    match (&items[0], items[1].as_u64()) {
        (Json::Text(name), Some(value)) => {
            out.push(Entry::Offset { name: name.clone(), value });
            assert(views(out@) =~= views(before) + pair_entries(*pair).unwrap());
            true
        },
        _ => false,
    }
}

/// Decodes an offsets document into its entries.
pub fn decode_offsets(doc: &Json) -> (r: Result<Vec<Entry>, LoadError>)
    ensures
        match offset_entries(*doc) {
            Ok(entries) => r is Ok && views(r.unwrap()@) == entries,
            Err(e) => r == Err::<Vec<Entry>, LoadError>(e),
        },
{
    let pairs = match doc.get("data") {
        Some(data) => match data.as_array() {
            Some(pairs) => pairs,
            None => {
                return Err(LoadError::Malformed);
            },
        },
        None => {
            return Err(LoadError::Malformed);
        },
    };
    let mut out: Vec<Entry> = Vec::new();
    let ghost decode = pair_decoder();
    let mut i: usize = 0;
    assert(views(out@) =~= decoded(pairs@.take(0), decode));
    while i < pairs.len()
        invariant
            i <= pairs.len(),
            decode == pair_decoder(),
            offset_entries(*doc) == match gather(pairs@, decode) {
                Some(entries) => Ok::<Seq<EntryView>, LoadError>(entries),
                None => Err(LoadError::Malformed),
            },
            accepted(pairs@.take(i as int), decode),
            views(out@) == decoded(pairs@.take(i as int), decode),
        decreases pairs.len() - i,
    {
        assert(decode(pairs@[i as int]) == pair_entries(pairs@[i as int]));
        let ok = decode_pair(&pairs[i], &mut out);
        if !ok {
            return Err(LoadError::Malformed);
        }
        proof {
            lemma_decoded_step(pairs@, decode, i as int);
            lemma_accepted_step(pairs@, decode, i as int);
        }
        i += 1;
    }
    assert(pairs@.take(i as int) == pairs@);
    Ok(out)
}

} // verus!

//! Decoding a sequence item by item: all or nothing.

use crate::entry::{Entry, EntryView, all_resolved, lemma_joined_resolved, views};
use vstd::prelude::*;

verus! {

/// What decoding one item gives: the entries it stands for, or `None` where
/// the item is malformed.
pub type Decoder<A> = spec_fn(A) -> Option<Seq<EntryView>>;

/// The entries of all items joined in order, where every item is well formed.
pub open spec fn decoded<A>(items: Seq<A>, decode: Decoder<A>) -> Seq<EntryView>
    decreases items.len(),
{
    if items.len() == 0 {
        Seq::empty()
    } else {
        decoded(items.drop_last(), decode) + decode(items.last()).unwrap()
    }
}

/// Whether every item is well formed.
pub open spec fn accepted<A>(items: Seq<A>, decode: Decoder<A>) -> bool {
    forall|i: int| 0 <= i < items.len() ==> (#[trigger] decode(items[i])) is Some
}

/// The entries of all items joined in order; `None` where any one item is
/// malformed.
pub open spec fn gather<A>(items: Seq<A>, decode: Decoder<A>) -> Option<Seq<EntryView>> {
    if accepted(items, decode) {
        Some(decoded(items, decode))
    } else {
        None
    }
}

/// How a decoding step relates the output list before and after it to what
/// the step was to decode: it reports success exactly where there is
/// something to decode, and has then appended exactly that.
pub open spec fn appended(
    before: Seq<Entry>,
    after: Seq<Entry>,
    ok: bool,
    expected: Option<Seq<EntryView>>,
) -> bool {
    &&& ok == expected is Some
    &&& ok ==> views(after) == views(before) + expected.unwrap()
}

/// Decoding one item more appends that item's entries.
pub proof fn lemma_decoded_step<A>(items: Seq<A>, decode: Decoder<A>, i: int)
    requires
        0 <= i < items.len(),
    ensures
        decoded(items.take(i + 1), decode) == decoded(items.take(i), decode) + decode(
            items[i],
        ).unwrap(),
{
    assert(items.take(i + 1).drop_last() == items.take(i));
}

/// A well-formed item after well-formed items leaves all of them well formed.
pub proof fn lemma_accepted_step<A>(items: Seq<A>, decode: Decoder<A>, i: int)
    requires
        0 <= i < items.len(),
        accepted(items.take(i), decode),
        decode(items[i]) is Some,
    ensures
        accepted(items.take(i + 1), decode),
{
    assert forall|j: int| 0 <= j < items.take(i + 1).len() implies (#[trigger] decode(
        items.take(i + 1)[j],
    )) is Some by {
        if j < i {
            assert(items.take(i)[j] == items[j]);
        }
    }
}

/// Where every item gives resolved entries only, so do all items together.
pub proof fn lemma_decoded_resolved<A>(items: Seq<A>, decode: Decoder<A>)
    requires
        forall|i: int|
            0 <= i < items.len() ==> (#[trigger] decode(items[i])) is Some && all_resolved(
                decode(items[i]).unwrap(),
            ),
    ensures
        all_resolved(decoded(items, decode)),
    decreases items.len(),
{
    if items.len() > 0 {
        let head = items.drop_last();
        assert forall|i: int| 0 <= i < head.len() implies (#[trigger] decode(head[i])) is Some
            && all_resolved(decode(head[i]).unwrap()) by {
            assert(head[i] == items[i]);
        }
        lemma_decoded_resolved(head, decode);
        assert(all_resolved(decode(items[items.len() - 1]).unwrap()));
        lemma_joined_resolved(decoded(head, decode), decode(items.last()).unwrap());
    }
}

/// Every entry of an item is among the entries of all items.
pub proof fn lemma_decoded_contains<A>(
    items: Seq<A>,
    decode: Decoder<A>,
    i: int,
    entry: EntryView,
)
    requires
        0 <= i < items.len(),
        decode(items[i]) is Some,
        decode(items[i]).unwrap().contains(entry),
    ensures
        decoded(items, decode).contains(entry),
    decreases items.len(),
{
    let head = decoded(items.drop_last(), decode);
    let tail = decode(items.last()).unwrap();
    if i == items.len() - 1 {
        let j = choose|j: int| 0 <= j < tail.len() && tail[j] == entry;
        assert((head + tail)[head.len() + j] == entry);
    } else {
        assert(items.drop_last()[i] == items[i]);
        lemma_decoded_contains(items.drop_last(), decode, i, entry);
        let j = choose|j: int| 0 <= j < head.len() && head[j] == entry;
        assert((head + tail)[j] == entry);
    }
}

} // verus!

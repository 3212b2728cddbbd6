//! The candidate event queue: a thin verified boundary around
//! `priq::PriorityQueue`, a binary min-heap keyed by a `PartialOrd` score.
//!
//! Scores are `(fire time, insertion sequence number)` pairs, compared
//! lexicographically, so equal-time candidates resolve deterministically in
//! insertion order.  Entries are plain tuples
//! `(rule index, first location, second location, fire time, issue time)`.
//! The queue's contents are modelled as a multiset of score/entry pairs.

use vstd::prelude::*;
use vstd::multiset::Multiset;

verus! {

broadcast use vstd::multiset::group_multiset_axioms;

/// The priority of a queued candidate: its fire time, then the insertion
/// sequence number as a deterministic tie-break.
pub type EventScore = (u64, u64);

/// A queued candidate as plain values:
/// (rule index, first reactant cell, second reactant cell, fire time, issue time).
pub type EventEntry = (usize, usize, Option<usize>, u64, u64);

/// Declares priq::PriorityQueue, so that queue values can stand in fields
/// and signatures.  The type is opaque: proofs see its contents only
/// through `queue_entries`.
#[verifier::external_type_specification]
#[verifier::external_body]
#[verifier::reject_recursive_types(S)]
#[verifier::reject_recursive_types(T)]
pub struct ExPriorityQueue<S, T>(priq::PriorityQueue<S, T>) where S: PartialOrd;

/// What the queue holds, as a multiset of score/entry pairs.
pub uninterp spec fn queue_entries(q: priq::PriorityQueue<EventScore, EventEntry>) -> Multiset<
    (EventScore, EventEntry),
>;

/// Lexicographic order on scores: the order std documents for `(u64, u64)`,
/// and hence the order the heap pops in.
pub open spec fn score_le(a: EventScore, b: EventScore) -> bool {
    a.0 < b.0 || (a.0 == b.0 && a.1 <= b.1)
}

/// Relies on priq::PriorityQueue::new: creates an empty queue.
#[verifier::external_body]
pub fn queue_new() -> (q: priq::PriorityQueue<EventScore, EventEntry>)
    ensures
        queue_entries(q) == Multiset::<(EventScore, EventEntry)>::empty(),
{
    priq::PriorityQueue::new()
}

/// Relies on priq::PriorityQueue::put: inserts one scored entry.
#[verifier::external_body]
pub fn queue_put(
    q: &mut priq::PriorityQueue<EventScore, EventEntry>,
    score: EventScore,
    entry: EventEntry,
)
    ensures
        queue_entries(*final(q)) == queue_entries(*old(q)).insert((score, entry)),
{
    q.put(score, entry);
}

/// Relies on priq::PriorityQueue::pop: removes and returns an entry whose
/// score is minimal (scores are totally ordered here), or returns None and
/// leaves the queue untouched when it is empty.
#[verifier::external_body]
pub fn queue_pop(q: &mut priq::PriorityQueue<EventScore, EventEntry>) -> (r: Option<
    (EventScore, EventEntry),
>)
    ensures
        r is None <==> queue_entries(*old(q)).len() == 0,
        r is None ==> queue_entries(*final(q)) == queue_entries(*old(q)),
        r matches Some(se) ==> {
            &&& queue_entries(*old(q)).count(se) > 0
            &&& queue_entries(*final(q)) == queue_entries(*old(q)).remove(se)
            &&& forall|other: (EventScore, EventEntry)|
                #[trigger] queue_entries(*final(q)).count(other) > 0 ==> score_le(se.0, other.0)
        },
{
    q.pop()
}

} // verus!

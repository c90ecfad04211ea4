//! The waypoints a vehicle still has to visit, in visiting order.

use std::collections::VecDeque;
use vstd::prelude::*;
use crate::vector::Vector;

verus! {

/// A waypoint: the identifier of its marker, and where it lies.
pub type Waypoint = (u64, Vector);

/// The queue after an arrival at the marker `id` is reported: without its
/// head if the head carries that identifier, unchanged otherwise.
pub open spec fn after_arrival(pending: Seq<Waypoint>, id: u64) -> Seq<Waypoint> {
    if pending.len() > 0 && pending[0].0 == id {
        pending.drop_first()
    } else {
        pending
    }
}

/// The queue after `count` arrivals, each reported for the marker that is
/// then at the head.
pub open spec fn after_arrivals(pending: Seq<Waypoint>, count: nat) -> Seq<Waypoint>
    decreases count,
{
    if count == 0 || pending.len() == 0 {
        pending
    } else {
        after_arrivals(after_arrival(pending, pending[0].0), (count - 1) as nat)
    }
}

/// The queue of waypoints of one vehicle. The view is the sequence of
/// waypoints still to visit, the next one first.
#[derive(Debug)]
pub struct Destination {
    dests: VecDeque<Waypoint>,
}

impl View for Destination {
    type V = Seq<Waypoint>;

    closed spec fn view(&self) -> Seq<Waypoint> {
        self.dests@
    }
}

impl Default for Destination {
    fn default() -> (queue: Destination)
        ensures
            queue@ == Seq::<Waypoint>::empty(),
    {
        Destination::new()
    }
}

impl Destination {
    /// Makes an empty queue.
    pub fn new() -> (queue: Destination)
        ensures
            queue@ == Seq::<Waypoint>::empty(),
    {
        Destination { dests: VecDeque::new() }
    }

    /// The number of waypoints still to visit.
    pub fn len(&self) -> (n: usize)
        ensures
            n == self@.len(),
    {
        self.dests.len()
    }

    /// Tells whether no waypoint is left.
    pub fn is_last(&self) -> (done: bool)
        ensures
            done == (self@.len() == 0),
    {
        self.dests.len() == 0
    }

    /// The waypoint to visit next, which stays in the queue; `None` when the
    /// queue is empty.
    pub fn next(&self) -> (head: Option<&Waypoint>)
        ensures
            self@.len() == 0 ==> head is None,
            self@.len() > 0 ==> head == Some(&self@[0]),
    {
        if self.dests.len() == 0 {
            None
        } else {
            Some(&self.dests[0])
        }
    }

    /// Appends a waypoint behind all the others.
    pub fn push(&mut self, entity: u64, position: Vector)
        ensures
            final(self)@ == old(self)@.push((entity, position)),
    {
        self.dests.push_back((entity, position));
    }

    /// Removes the head of the queue, if there is one.
    pub fn arrive(&mut self)
        ensures
            old(self)@.len() == 0 ==> final(self)@ == old(self)@,
            old(self)@.len() > 0 ==> final(self)@ == old(self)@.drop_first(),
    {
        let _ = self.dests.pop_front();
    }

    /// Takes note that the marker `entity` was reached: removes the head of
    /// the queue if it carries that identifier and says so; leaves the
    /// queue as it is otherwise.
    pub fn pop_if_matches(&mut self, entity: u64) -> (removed: bool)
        ensures
            final(self)@ == after_arrival(old(self)@, entity),
            removed == (old(self)@.len() > 0 && old(self)@[0].0 == entity),
    {
        if self.dests.len() > 0 && self.dests[0].0 == entity {
            self.arrive();
            true
        } else {
            false
        }
    }
}

/// An arrival reported for a marker that is not at the head changes
/// nothing: neither the waypoints nor their number.
pub proof fn lemma_stale_arrival_ignored(pending: Seq<Waypoint>, id: u64)
    requires
        pending.len() == 0 || pending[0].0 != id,
    ensures
        after_arrival(pending, id) == pending,
        after_arrival(pending, id).len() == pending.len(),
{
}

/// An arrival reported for the marker at the head removes that waypoint and
/// no other, and keeps the rest in order.
pub proof fn lemma_matching_arrival_removes_head(pending: Seq<Waypoint>, id: u64)
    requires
        pending.len() > 0,
        pending[0].0 == id,
    ensures
        after_arrival(pending, id).len() == pending.len() - 1,
        forall|i: int|
            0 <= i < pending.len() - 1 ==> #[trigger] after_arrival(pending, id)[i] == pending[i
                + 1],
{
}

/// First in, first out: waypoints pushed onto a queue come to its head in
/// the order in which they were pushed. After the waypoints `added` were
/// pushed one by one behind `pending`, and `count` arrivals were each
/// reported for the head of the time, the queue holds what is left of
/// `pending` followed by `added`, in that order.
pub proof fn lemma_first_in_first_out(pending: Seq<Waypoint>, added: Seq<Waypoint>, count: nat)
    requires
        count <= pending.len() + added.len(),
    ensures
        after_arrivals(pending + added, count) == (pending + added).skip(count as int),
        count < pending.len() ==> after_arrivals(pending + added, count)[0] == pending[
            count as int],
        pending.len() <= count < pending.len() + added.len() ==> after_arrivals(
            pending + added,
            count,
        )[0] == added[count - pending.len()],
{
    lemma_after_arrivals_skips(pending + added, count);
}

/// `count` arrivals, each for the head of the time, remove the first
/// `count` waypoints.
proof fn lemma_after_arrivals_skips(pending: Seq<Waypoint>, count: nat)
    requires
        count <= pending.len(),
    ensures
        after_arrivals(pending, count) == pending.skip(count as int),
    decreases count,
{
    if count == 0 || pending.len() == 0 {
        assert(pending.skip(0) =~= pending);
    } else {
        let rest = after_arrival(pending, pending[0].0);
        assert(rest == pending.drop_first());
        lemma_after_arrivals_skips(rest, (count - 1) as nat);
        assert(rest.skip(count - 1) =~= pending.skip(count as int));
    }
}

} // verus!

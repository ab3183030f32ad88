//! The aliasing state machine: the tracker a cell keeps, the transition each
//! borrow request and each guard release makes, and the laws the protocol
//! obeys.

use vstd::prelude::*;

verus! {

/// A cell's bookkeeping state: how many guards, and of which kind, are
/// currently outstanding.
#[derive(Clone, Copy, Debug, PartialEq, Eq, Structural)]
pub enum Tracker {
    /// No outstanding guard.
    Unshared,
    /// `n >= 1` outstanding read-only guards.
    Shared(usize),
    /// Exactly one outstanding read-write guard.
    Exclusive,
}

/// `Shared(0)` is not a valid representation: a shared count that reaches
/// zero must collapse to `Unshared`.
pub open spec fn tracker_valid(t: Tracker) -> bool {
    t matches Tracker::Shared(n) ==> n >= 1
}

/// A shared request is granted exactly when no exclusive guard is out.
pub open spec fn grants_shared(t: Tracker) -> bool {
    !(t is Exclusive)
}

/// An exclusive request is granted exactly when no guard at all is out.
pub open spec fn grants_exclusive(t: Tracker) -> bool {
    t is Unshared
}

/// There is room to count one more shared guard on this machine.
pub open spec fn count_below_max(t: Tracker) -> bool {
    t matches Tracker::Shared(n) ==> n < usize::MAX
}

/// The tracker after a shared request: granted from `Unshared` and from
/// `Shared`, denied on `Exclusive` with no change.
pub open spec fn after_shared_request(t: Tracker) -> Tracker {
    match t {
        Tracker::Unshared => Tracker::Shared(1),
        Tracker::Shared(n) => Tracker::Shared((n + 1) as usize),
        Tracker::Exclusive => Tracker::Exclusive,
    }
}

/// The tracker after an exclusive request: granted only from `Unshared`,
/// denied otherwise with no change.
pub open spec fn after_exclusive_request(t: Tracker) -> Tracker {
    match t {
        Tracker::Unshared => Tracker::Exclusive,
        _ => t,
    }
}

/// The tracker after one shared guard is released: the count goes down by
/// one, and a count of one collapses to `Unshared`.
pub open spec fn after_shared_release(t: Tracker) -> Tracker {
    match t {
        Tracker::Shared(n) => if n <= 1 {
            Tracker::Unshared
        } else {
            Tracker::Shared((n - 1) as usize)
        },
        _ => t,
    }
}

/// The tracker after the exclusive guard is released.
pub open spec fn after_exclusive_release(t: Tracker) -> Tracker {
    match t {
        Tracker::Exclusive => Tracker::Unshared,
        _ => t,
    }
}

/// A ghost snapshot of one cell together with the guards its owner holds:
/// the tracker, the number of live guards of each kind, and the value. The
/// exec contracts in [`crate::cell`] use the same transition functions, so a
/// cell and the guards a caller keeps follow exactly these steps: each
/// granted `borrow` is one more live shared guard, each granted `borrow_mut`
/// one more live exclusive guard, and each `release` consumes its guard.
pub struct Protocol<T> {
    pub tracker: Tracker,
    pub live_shared: nat,
    pub live_exclusive: nat,
    pub value: T,
}

/// One event in the life of a cell. Requests may be denied; a release or a
/// write happens through a live guard.
pub enum Op<T> {
    RequestShared,
    RequestExclusive,
    ReleaseShared,
    ReleaseExclusive,
    Write(T),
}

/// Which events can happen. A release or a write needs a live guard of the
/// right kind; a request can always be made (and may be denied), though the
/// machine counter must have room for one more shared guard.
pub open spec fn enabled<T>(p: Protocol<T>, op: Op<T>) -> bool {
    match op {
        Op::RequestShared => count_below_max(p.tracker),
        Op::RequestExclusive => true,
        Op::ReleaseShared => p.live_shared >= 1,
        Op::ReleaseExclusive => p.live_exclusive >= 1,
        Op::Write(_) => p.live_exclusive >= 1,
    }
}

/// How one event changes the snapshot. A denied request changes nothing;
/// only a write changes the value.
pub open spec fn step<T>(p: Protocol<T>, op: Op<T>) -> Protocol<T> {
    match op {
        Op::RequestShared => Protocol {
            tracker: after_shared_request(p.tracker),
            live_shared: if grants_shared(p.tracker) {
                p.live_shared + 1
            } else {
                p.live_shared
            },
            ..p
        },
        Op::RequestExclusive => Protocol {
            tracker: after_exclusive_request(p.tracker),
            live_exclusive: if grants_exclusive(p.tracker) {
                p.live_exclusive + 1
            } else {
                p.live_exclusive
            },
            ..p
        },
        Op::ReleaseShared => Protocol {
            tracker: after_shared_release(p.tracker),
            live_shared: (p.live_shared - 1) as nat,
            ..p
        },
        Op::ReleaseExclusive => Protocol {
            tracker: after_exclusive_release(p.tracker),
            live_exclusive: (p.live_exclusive - 1) as nat,
            ..p
        },
        Op::Write(v) => Protocol { value: v, ..p },
    }
}

/// The snapshot after a whole sequence of events.
pub open spec fn run<T>(p: Protocol<T>, ops: Seq<Op<T>>) -> Protocol<T>
    decreases ops.len(),
{
    if ops.len() == 0 {
        p
    } else {
        run(step(p, ops[0]), ops.subrange(1, ops.len() as int))
    }
}

/// Every event in the sequence is possible in the state it meets.
pub open spec fn all_enabled<T>(p: Protocol<T>, ops: Seq<Op<T>>) -> bool
    decreases ops.len(),
{
    ops.len() == 0 || (enabled(p, ops[0]) && all_enabled(
        step(p, ops[0]),
        ops.subrange(1, ops.len() as int),
    ))
}

/// No guard is live and the tracker says so.
pub open spec fn no_live_guards<T>(p: Protocol<T>) -> bool {
    p.tracker is Unshared && p.live_shared == 0 && p.live_exclusive == 0
}

/// Only shared guards are live, and the tracker counts them exactly.
pub open spec fn only_shared_live<T>(p: Protocol<T>) -> bool {
    p.tracker matches Tracker::Shared(n) && n >= 1 && p.live_shared == n as nat
        && p.live_exclusive == 0
}

/// Exactly one exclusive guard is live, and no shared guard.
pub open spec fn one_exclusive_live<T>(p: Protocol<T>) -> bool {
    p.tracker is Exclusive && p.live_shared == 0 && p.live_exclusive == 1
}

/// The shape every reachable snapshot has: one of the three above.
pub open spec fn consistent<T>(p: Protocol<T>) -> bool {
    no_live_guards(p) || only_shared_live(p) || one_exclusive_live(p)
}

/// The three shapes exclude one another: a consistent snapshot is of exactly
/// one of them.
pub proof fn lemma_exactly_one_shape<T>(p: Protocol<T>)
    requires
        consistent(p),
    ensures
        no_live_guards(p) ==> !only_shared_live(p) && !one_exclusive_live(p),
        only_shared_live(p) ==> !no_live_guards(p) && !one_exclusive_live(p),
        one_exclusive_live(p) ==> !no_live_guards(p) && !only_shared_live(p),
{
}

/// A fresh cell is consistent: it starts with no guard live.
pub proof fn lemma_fresh_consistent<T>(p: Protocol<T>)
    requires
        no_live_guards(p),
    ensures
        consistent(p),
{
}

/// Every possible event keeps the snapshot consistent.
pub proof fn lemma_step_preserves_consistency<T>(p: Protocol<T>, op: Op<T>)
    requires
        consistent(p),
        enabled(p, op),
    ensures
        consistent(step(p, op)),
{
}

/// At any point in a run from a consistent snapshot, either zero guards are
/// live, or only shared guards are live and the tracker counts them, or
/// exactly one exclusive guard is live.
pub proof fn lemma_run_consistent<T>(p: Protocol<T>, ops: Seq<Op<T>>)
    requires
        consistent(p),
        all_enabled(p, ops),
    ensures
        consistent(run(p, ops)),
    decreases ops.len(),
{
    if ops.len() > 0 {
        lemma_step_preserves_consistency(p, ops[0]);
        lemma_run_consistent(step(p, ops[0]), ops.subrange(1, ops.len() as int));
    }
}

/// Shared and exclusive access exclude each other: while any shared guard is
/// live an exclusive request is denied, and while the exclusive guard is live
/// a request of either kind is denied; a denied request changes nothing.
pub proof fn lemma_mutual_exclusion<T>(p: Protocol<T>)
    requires
        consistent(p),
    ensures
        p.live_shared >= 1 ==> !grants_exclusive(p.tracker) && step(p, Op::RequestExclusive) == p,
        p.live_exclusive >= 1 ==> !grants_shared(p.tracker) && step(p, Op::RequestShared) == p,
        p.live_exclusive >= 1 ==> !grants_exclusive(p.tracker) && step(
            p,
            Op::RequestExclusive,
        ) == p,
{
}

/// `k` shared releases in a row.
pub open spec fn shared_releases<T>(k: nat) -> Seq<Op<T>> {
    Seq::new(k, |i: int| Op::ReleaseShared)
}

/// Releasing every live shared guard is possible, drives the tracker back to
/// `Unshared`, and an exclusive request then succeeds.
pub proof fn lemma_release_all_shared<T>(p: Protocol<T>)
    requires
        consistent(p),
        p.live_shared >= 1,
    ensures
        ({
            let q = run(p, shared_releases(p.live_shared));
            &&& all_enabled(p, shared_releases(p.live_shared))
            &&& q.tracker is Unshared
            &&& q.live_shared == 0 && q.live_exclusive == 0
            &&& grants_exclusive(q.tracker)
            &&& step(q, Op::RequestExclusive).tracker is Exclusive
        }),
    decreases p.live_shared,
{
    let ops = shared_releases::<T>(p.live_shared);
    let p1 = step(p, Op::<T>::ReleaseShared);
    assert(ops.subrange(1, ops.len() as int) =~= shared_releases::<T>(
        (p.live_shared - 1) as nat,
    ));
    lemma_step_preserves_consistency(p, Op::<T>::ReleaseShared);
    if p.live_shared > 1 {
        lemma_release_all_shared::<T>(p1);
    }
}

/// While the blocking guard stays live, repeated requests are all denied and
/// leave the snapshot, counts included, exactly as it was: with the exclusive
/// guard live this holds for requests of either kind.
pub proof fn lemma_denied_requests_while_exclusive<T>(p: Protocol<T>, ops: Seq<Op<T>>)
    requires
        consistent(p),
        p.live_exclusive >= 1,
        forall|i: int|
            0 <= i < ops.len() ==> (ops[i] is RequestShared || ops[i] is RequestExclusive),
    ensures
        run(p, ops) == p,
    decreases ops.len(),
{
    if ops.len() > 0 {
        assert(step(p, ops[0]) == p);
        lemma_denied_requests_while_exclusive(p, ops.subrange(1, ops.len() as int));
    }
}

/// While any shared guard stays live, repeated exclusive requests are all
/// denied and leave the snapshot, count included, exactly as it was.
pub proof fn lemma_denied_requests_while_shared<T>(p: Protocol<T>, ops: Seq<Op<T>>)
    requires
        consistent(p),
        p.live_shared >= 1,
        forall|i: int| 0 <= i < ops.len() ==> ops[i] is RequestExclusive,
    ensures
        run(p, ops) == p,
    decreases ops.len(),
{
    if ops.len() > 0 {
        assert(step(p, ops[0]) == p);
        lemma_denied_requests_while_shared(p, ops.subrange(1, ops.len() as int));
    }
}

/// No event but a write changes the value.
pub proof fn lemma_value_preserved_without_write<T>(p: Protocol<T>, ops: Seq<Op<T>>)
    requires
        forall|i: int| 0 <= i < ops.len() ==> !(ops[i] is Write),
    ensures
        run(p, ops).value == p.value,
    decreases ops.len(),
{
    if ops.len() > 0 {
        lemma_value_preserved_without_write(step(p, ops[0]), ops.subrange(1, ops.len() as int));
    }
}

/// Round trip: a value written while the exclusive guard is live is the value
/// the cell holds after any later events that write nothing more, releasing
/// the guard and granting shared guards among them; a read through such a
/// guard then yields it, since by `Ref::get`'s contract a read returns the
/// cell's value.
pub proof fn lemma_round_trip<T>(p: Protocol<T>, v: T, ops: Seq<Op<T>>)
    requires
        enabled(p, Op::Write(v)),
        forall|i: int| 0 <= i < ops.len() ==> !(ops[i] is Write),
    ensures
        run(step(p, Op::Write(v)), ops).value == v,
{
    lemma_value_preserved_without_write(step(p, Op::Write(v)), ops);
}

} // verus!

//! Bounded history buffers.
//!
//! Every time series shown by the dashboard (traffic rates, bandwidth, ping
//! round-trip times, jitter, connection counts, per-hop RTT history) is kept
//! in a fixed-capacity FIFO: pushing at capacity evicts the oldest sample.

use vstd::prelude::*;
use std::collections::VecDeque;

verus! {

/// The sequence that a bounded buffer holds after one push: the new sample is
/// appended, and the oldest sample is dropped if the buffer was full.
pub open spec fn pushed_bounded<T>(s: Seq<T>, cap: nat, v: T) -> Seq<T> {
    if s.len() < cap {
        s.push(v)
    } else {
        s.subrange(1, s.len() as int).push(v)
    }
}

/// The sequence a buffer holds after pushing every sample of `vs` in order.
pub open spec fn pushed_bounded_all<T>(s: Seq<T>, cap: nat, vs: Seq<T>) -> Seq<T>
    decreases vs.len(),
{
    if vs.len() == 0 {
        s
    } else {
        pushed_bounded_all(pushed_bounded(s, cap, vs[0]), cap, vs.subrange(1, vs.len() as int))
    }
}

/// The last `cap` elements of `s` (all of `s` if it is shorter).
pub open spec fn last_n<T>(s: Seq<T>, cap: nat) -> Seq<T> {
    if s.len() <= cap {
        s
    } else {
        s.subrange(s.len() - cap, s.len() as int)
    }
}

/// Push one sample into a bounded buffer, evicting the oldest sample if the
/// buffer is at capacity.
pub fn push_bounded<T>(q: &mut VecDeque<T>, cap: usize, v: T)
    requires
        cap >= 1,
        old(q)@.len() <= cap,
    ensures
        final(q)@ == pushed_bounded(old(q)@, cap as nat, v),
        final(q)@.len() <= cap,
{
    q.push_back(v);
    if q.len() > cap {
        q.pop_front();
    }
}

/// One bounded push keeps exactly the last `cap` elements of the buffer with
/// the new sample appended.
pub proof fn lemma_pushed_bounded_is_last_n<T>(s: Seq<T>, cap: nat, v: T)
    requires
        cap >= 1,
        s.len() <= cap,
    ensures
        pushed_bounded(s, cap, v) == last_n(s.push(v), cap),
{
    if s.len() < cap {
        assert(pushed_bounded(s, cap, v) =~= last_n(s.push(v), cap));
    } else {
        assert(pushed_bounded(s, cap, v) =~= last_n(s.push(v), cap));
    }
}

/// Taking the last `cap` elements, appending more, and taking the last `cap`
/// again is the same as appending first and taking the last `cap` once.
pub proof fn lemma_last_n_absorb<T>(t: Seq<T>, u: Seq<T>, cap: nat)
    ensures
        last_n(last_n(t, cap) + u, cap) == last_n(t + u, cap),
{
    assert(last_n(last_n(t, cap) + u, cap) =~= last_n(t + u, cap));
}

/// Closed form of a run of bounded pushes: the buffer holds the last `cap`
/// elements of the old contents followed by everything pushed.
pub proof fn lemma_pushed_bounded_all_is_last_n<T>(s: Seq<T>, cap: nat, vs: Seq<T>)
    requires
        cap >= 1,
        s.len() <= cap,
    ensures
        pushed_bounded_all(s, cap, vs) == last_n(s + vs, cap),
    decreases vs.len(),
{
    if vs.len() == 0 {
        assert(s + vs =~= s);
    } else {
        let s1 = pushed_bounded(s, cap, vs[0]);
        let vs1 = vs.subrange(1, vs.len() as int);
        lemma_pushed_bounded_is_last_n(s, cap, vs[0]);
        lemma_pushed_bounded_all_is_last_n(s1, cap, vs1);
        lemma_last_n_absorb(s.push(vs[0]), vs1, cap);
        assert(s.push(vs[0]) + vs1 =~= s + vs);
    }
}

/// A bounded buffer never exceeds its capacity, regardless of how many
/// samples are pushed.
pub proof fn lemma_pushed_bounded_all_len<T>(s: Seq<T>, cap: nat, vs: Seq<T>)
    requires
        cap >= 1,
        s.len() <= cap,
    ensures
        pushed_bounded_all(s, cap, vs).len() <= cap,
{
    lemma_pushed_bounded_all_is_last_n(s, cap, vs);
}

/// After pushing at least `cap` samples, the buffer holds exactly the last
/// `cap` samples pushed, oldest first: the prior contents are gone.
pub proof fn lemma_pushed_bounded_all_suffix<T>(s: Seq<T>, cap: nat, vs: Seq<T>)
    requires
        cap >= 1,
        s.len() <= cap,
        vs.len() >= cap,
    ensures
        pushed_bounded_all(s, cap, vs) == vs.subrange(vs.len() - cap, vs.len() as int),
{
    lemma_pushed_bounded_all_is_last_n(s, cap, vs);
    assert(last_n(s + vs, cap) =~= vs.subrange(vs.len() - cap, vs.len() as int));
}

} // verus!

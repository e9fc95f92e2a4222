//! Composable adapters over fallible sequences.
//!
//! A fallible sequence yields elements that are each either a success value
//! or an error. The [`TryIterator`] trait is the pull-based capability every
//! source must satisfy; the adapters wrap such a source lazily, and the
//! terminal operations drain it eagerly, short-circuiting on the first
//! failure.

use vstd::prelude::*;

pub mod adapters;
pub mod buffer;
pub mod collector;
pub mod model;
pub mod reduce;
pub mod source;

pub use adapters::TryFilter;
pub use adapters::TryFlatMap;
pub use adapters::TryMap;
pub use adapters::all_skippable;
pub use adapters::filters_to;
pub use buffer::Buffered;
pub use collector::Collector;
pub use model::all_successes;
pub use model::first_failure;
pub use model::successes_before_failure;
pub use reduce::FilterOk;
pub use reduce::TakeOk;
pub use source::VecSource;

verus! {

/// The fallible-sequence capability: pull the next outcome, or signal the end.
///
/// `remaining()` is the mathematical view of a sequence: the outcomes it will
/// yield, in order, from its current position to its end.
pub trait TryIterator: Sized {
    type OkVal;

    type ErrVal;

    /// The outcomes this sequence has yet to yield, in order.
    spec fn remaining(&self) -> Seq<Result<Self::OkVal, Self::ErrVal>>;

    /// Pulls the next outcome: `Some` of the first remaining outcome, or
    /// `None` once the sequence is exhausted (and then forever after).
    fn try_next(&mut self) -> (r: Option<Result<Self::OkVal, Self::ErrVal>>)
        ensures
            match r {
                Some(x) => old(self).remaining().len() > 0 && x == old(self).remaining()[0]
                    && final(self).remaining() == old(self).remaining().drop_first(),
                None => old(self).remaining().len() == 0 && final(self).remaining()
                    == old(self).remaining(),
            },
    ;

    /// Lazily wraps the sequence so that every success is re-expressed
    /// through `f` while failures pass through unchanged, `f` never invoked
    /// on them.
    fn try_map<T, F: Fn(Self::OkVal) -> T>(self, f: F) -> (r: TryMap<Self, F>)
        ensures
            r.iter == self && r.f == f,
    {
        TryMap { iter: self, f }
    }

    /// Lazily wraps the sequence so that every success is re-expressed
    /// through the fallible `f`, while the wrapped sequence's failures are
    /// carried into the unifying error type by `convert`.
    fn try_flat_map<T, E, F: Fn(Self::OkVal) -> Result<T, E>, C: Fn(Self::ErrVal) -> E>(
        self,
        f: F,
        convert: C,
    ) -> (r: TryFlatMap<Self, F, C>)
        ensures
            r.iter == self && r.f == f && r.convert == convert,
    {
        TryFlatMap { iter: self, f, convert }
    }

    /// Lazily wraps the sequence so that successes rejected by `predicate`
    /// are skipped, while failures are always forwarded untouched.
    fn try_filter<F: Fn(&Self::OkVal) -> bool>(self, predicate: F) -> (r: TryFilter<Self, F>)
        ensures
            r.iter == self && r.predicate == predicate,
    {
        TryFilter { iter: self, predicate }
    }

    /// Wraps the sequence as a plain sequence of its successes up to the
    /// first failure: on meeting a failure the wrapper halts for good,
    /// discarding the error, even if later outcomes would succeed.
    fn take_ok(self) -> (r: TakeOk<Self>)
        ensures
            r.iter == self && r.flag == false,
    {
        TakeOk { iter: self, flag: false }
    }

    /// Wraps the sequence as the plain sequence of all its successes, in
    /// order: every failure is silently skipped, never halting the sequence.
    fn filter_ok(self) -> (r: FilterOk<Self>)
        ensures
            r.0 == self,
    {
        FilterOk(self)
    }

    /// Eagerly drains the sequence into a caller-chosen container.
    ///
    /// Returns `Ok` of the container of all success values, in order, exactly
    /// when the sequence holds no failure; otherwise short-circuits and
    /// returns the first failure, exposing no partial container.
    fn try_collect<B: Collector<Self::OkVal>>(self) -> (r: Result<B, Self::ErrVal>)
        ensures
            r is Ok <==> first_failure(self.remaining()) == self.remaining().len(),
            r matches Ok(b) ==> b.collected() == all_successes(self.remaining()),
            r matches Err(e) ==> e == self.remaining()[first_failure(self.remaining())]->Err_0,
    {
        let ghost s0 = self.remaining();
        let mut it = self;
        let mut b = B::new_empty();
        proof {
            assert(b.collected() + all_successes(s0) =~= all_successes(s0));
            assert(it.remaining() =~= s0.skip(0));
        }
        #[verifier::loop_isolation(false)]
        loop
            invariant
                b.collected() + all_successes(it.remaining()) == all_successes(s0),
                first_failure(s0) == s0.len() - it.remaining().len() + first_failure(
                    it.remaining(),
                ),
                it.remaining().len() <= s0.len(),
                it.remaining() == s0.skip(s0.len() - it.remaining().len()),
            decreases it.remaining().len(),
        {
            let ghost rem = it.remaining();
            match it.try_next() {
                None => {
                    proof {
                        assert(first_failure(rem) == 0);
                        assert(b.collected() + all_successes(rem) =~= b.collected());
                    }
                    return Ok(b);
                },
                Some(Ok(v)) => {
                    let ghost bc = b.collected();
                    b.insert_value(v);
                    proof {
                        assert(all_successes(rem) == seq![v] + all_successes(rem.drop_first()));
                        assert(bc.push(v) + all_successes(rem.drop_first()) =~= bc + all_successes(
                            rem,
                        ));
                        assert(rem.drop_first() =~= s0.skip(s0.len() - rem.drop_first().len()));
                    }
                },
                Some(Err(e)) => {
                    proof {
                        assert(first_failure(rem) == 0);
                        assert(rem == s0.skip(s0.len() - rem.len()));
                        assert(rem[0] == s0[s0.len() - rem.len()]);
                    }
                    return Err(e);
                },
            }
        }
    }

    /// Eagerly drains the sequence into a fresh buffer.
    ///
    /// On the first failure it aborts and returns that failure, discarding
    /// the partial buffer; with no failure it returns a finite plain sequence
    /// that replays every success in order, forwards or backwards, reports
    /// its exact remaining count, and is fused once exhausted.
    fn try_buffer(self) -> (r: Result<Buffered<Self::OkVal>, Self::ErrVal>)
        ensures
            r is Ok <==> first_failure(self.remaining()) == self.remaining().len(),
            r matches Ok(b) ==> b.remaining_values() == all_successes(self.remaining()),
            r matches Err(e) ==> e == self.remaining()[first_failure(self.remaining())]->Err_0,
    {
        let c: Result<std::collections::VecDeque<Self::OkVal>, Self::ErrVal> = self.try_collect();
        match c {
            Ok(items) => Ok(Buffered { items }),
            Err(e) => Err(e),
        }
    }
}

/// A plain (non-fallible) pull-based sequence of values.
///
/// The reduction adapters and the buffer yield their values through this
/// capability. A sequence is fused: once `next` answers `None`, the view is
/// empty and stays empty.
pub trait PlainIterator: Sized {
    type Item;

    /// The values this sequence has yet to yield, in order.
    spec fn remaining_values(&self) -> Seq<Self::Item>;

    /// Pulls the next value: `Some` of the first remaining value, or `None`
    /// once the sequence is exhausted (and then forever after).
    fn next(&mut self) -> (r: Option<Self::Item>)
        ensures
            match r {
                Some(v) => old(self).remaining_values().len() > 0
                    && v == old(self).remaining_values()[0]
                    && final(self).remaining_values() == old(self).remaining_values().drop_first(),
                None => old(self).remaining_values().len() == 0
                    && final(self).remaining_values().len() == 0,
            },
    ;

    /// Eagerly drains every remaining value, in order, into a caller-chosen
    /// container.
    fn collect_into<B: Collector<Self::Item>>(self) -> (r: B)
        ensures
            r.collected() == self.remaining_values(),
    {
        let ghost v0 = self.remaining_values();
        let mut it = self;
        let mut b = B::new_empty();
        proof {
            assert(b.collected() + v0 =~= v0);
        }
        #[verifier::loop_isolation(false)]
        loop
            invariant
                b.collected() + it.remaining_values() == v0,
            decreases it.remaining_values().len(),
        {
            let ghost prev = it.remaining_values();
            match it.next() {
                None => {
                    proof {
                        assert(b.collected() + prev =~= b.collected());
                    }
                    return b;
                },
                Some(v) => {
                    let ghost bc = b.collected();
                    b.insert_value(v);
                    proof {
                        assert(prev =~= seq![v] + it.remaining_values());
                        assert(bc.push(v) + it.remaining_values() =~= bc + prev);
                    }
                },
            }
        }
    }
}

} // verus!

//! Transform adapters: lazy wrappers that re-express each pulled outcome.

use vstd::prelude::*;

use crate::TryIterator;
use crate::collector::Collector;
use crate::model::first_failure;
use crate::model::lemma_first_failure_at;
use crate::model::lemma_no_failure_iff;

verus! {

/// Every element of `s` is a success that `p` may answer `false` on: a run of
/// elements that a filtering pull is allowed to skip. In particular no
/// failure is ever skipped.
pub open spec fn all_skippable<T, E, F: Fn(&T) -> bool>(s: Seq<Result<T, E>>, p: F) -> bool {
    forall|j: int|
        0 <= j < s.len() ==> (#[trigger] s[j]) is Ok && call_ensures(p, (&(s[j]->Ok_0),), false)
}

/// The outcomes `s`, filtered by the predicate `p`, drain to exactly the
/// successes `out`: `s` holds no failure, and `out` keeps, in order, exactly
/// those success values that `p` accepted, skipping those it rejected.
pub open spec fn filters_to<T, E, F: Fn(&T) -> bool>(
    s: Seq<Result<T, E>>,
    p: F,
    out: Seq<T>,
) -> bool
    decreases s.len(),
{
    if s.len() == 0 {
        out.len() == 0
    } else {
        match s[0] {
            Err(_) => false,
            Ok(v) => (out.len() > 0 && out[0] == v && call_ensures(p, (&v,), true) && filters_to(
                s.drop_first(),
                p,
                out.drop_first(),
            )) || (call_ensures(p, (&v,), false) && filters_to(s.drop_first(), p, out)),
        }
    }
}

/// Extending a filtered drain by one accepted or rejected success keeps the
/// drain valid: the value lands at the end of the output exactly when the
/// predicate accepted it.
pub proof fn lemma_filters_to_snoc<T, E, F: Fn(&T) -> bool>(
    s: Seq<Result<T, E>>,
    p: F,
    out: Seq<T>,
    v: T,
    b: bool,
)
    requires
        filters_to(s, p, out),
        call_ensures(p, (&v,), b),
    ensures
        filters_to(s.push(Ok(v)), p, if b {
            out.push(v)
        } else {
            out
        }),
    decreases s.len(),
{
    let s2 = s.push(Ok::<T, E>(v));
    let out2 = if b {
        out.push(v)
    } else {
        out
    };
    if s.len() == 0 {
        assert(s2[0] == Ok::<T, E>(v));
        assert(s2.drop_first() =~= Seq::<Result<T, E>>::empty());
        if b {
            assert(out2[0] == v);
            assert(out2.drop_first() =~= Seq::<T>::empty());
            assert(filters_to(s2.drop_first(), p, out2.drop_first()));
        } else {
            assert(filters_to(s2.drop_first(), p, out2));
        }
        assert(filters_to(s2, p, out2));
    } else {
        let w = s[0]->Ok_0;
        assert(s2[0] == s[0]);
        assert(s2.drop_first() =~= s.drop_first().push(Ok::<T, E>(v)));
        if out.len() > 0 && out[0] == w && call_ensures(p, (&w,), true) && filters_to(
            s.drop_first(),
            p,
            out.drop_first(),
        ) {
            lemma_filters_to_snoc(s.drop_first(), p, out.drop_first(), v, b);
            if b {
                assert(out2.drop_first() =~= out.drop_first().push(v));
                assert(filters_to(s2.drop_first(), p, out2.drop_first()));
            } else {
                assert(out2.drop_first() == out.drop_first());
                assert(filters_to(s2.drop_first(), p, out2.drop_first()));
            }
            assert(out2.len() > 0 && out2[0] == w);
            assert(filters_to(s2, p, out2));
        } else {
            assert(call_ensures(p, (&w,), false) && filters_to(s.drop_first(), p, out));
            lemma_filters_to_snoc(s.drop_first(), p, out, v, b);
            if b {
                assert(filters_to(s2.drop_first(), p, out.push(v)));
            } else {
                assert(filters_to(s2.drop_first(), p, out));
            }
            assert(filters_to(s2, p, out2));
        }
    }
}

/// Lazily applies a function to every success, leaving failures untouched.
///
/// Each pull consumes exactly one wrapped outcome, so the element count and
/// the positions of all failures match the wrapped sequence exactly.
pub struct TryMap<I, F> {
    pub iter: I,
    pub f: F,
}

impl<I: TryIterator, F> TryMap<I, F> {
    /// Pulls the next outcome: a success `v` becomes `Ok(f(v))`, a failure is
    /// forwarded unchanged, and `f` is never invoked on a failure.
    pub fn next<T>(&mut self) -> (r: Option<Result<T, I::ErrVal>>) where F: Fn(I::OkVal) -> T
        requires
            old(self).iter.remaining().len() > 0 && old(self).iter.remaining()[0] is Ok
                ==> call_requires(old(self).f, (old(self).iter.remaining()[0]->Ok_0,)),
        ensures
            final(self).f == old(self).f,
            match r {
                None => old(self).iter.remaining().len() == 0 && final(self).iter.remaining()
                    == old(self).iter.remaining(),
                Some(Ok(w)) => old(self).iter.remaining().len() > 0
                    && old(self).iter.remaining()[0] is Ok
                    && call_ensures(old(self).f, (old(self).iter.remaining()[0]->Ok_0,), w)
                    && final(self).iter.remaining() == old(self).iter.remaining().drop_first(),
                Some(Err(e)) => old(self).iter.remaining().len() > 0
                    && old(self).iter.remaining()[0] is Err
                    && e == old(self).iter.remaining()[0]->Err_0
                    && final(self).iter.remaining() == old(self).iter.remaining().drop_first(),
            },
    {
        match self.iter.try_next() {
            None => None,
            Some(Ok(v)) => Some(Ok((self.f)(v))),
            Some(Err(e)) => Some(Err(e)),
        }
    }
}

/// Lazily applies a fallible function to every success, converting the
/// wrapped sequence's failures into the unifying error type.
///
/// This is the only adapter whose transformation can itself introduce a new
/// failure: a success `v` becomes whatever outcome `f(v)` is; a wrapped
/// failure `e` becomes `Err(convert(e))`, and `f` is never invoked on it.
pub struct TryFlatMap<I, F, C> {
    pub iter: I,
    pub f: F,
    pub convert: C,
}

impl<I: TryIterator, F, C> TryFlatMap<I, F, C> {
    /// Pulls the next outcome and re-expresses it as described on the type.
    pub fn next<T, E>(&mut self) -> (r: Option<Result<T, E>>) where
        F: Fn(I::OkVal) -> Result<T, E>,
        C: Fn(I::ErrVal) -> E,

        requires
            old(self).iter.remaining().len() > 0 && old(self).iter.remaining()[0] is Ok
                ==> call_requires(old(self).f, (old(self).iter.remaining()[0]->Ok_0,)),
            old(self).iter.remaining().len() > 0 && old(self).iter.remaining()[0] is Err
                ==> call_requires(old(self).convert, (old(self).iter.remaining()[0]->Err_0,)),
        ensures
            final(self).f == old(self).f,
            final(self).convert == old(self).convert,
            match r {
                None => old(self).iter.remaining().len() == 0 && final(self).iter.remaining()
                    == old(self).iter.remaining(),
                Some(out) => old(self).iter.remaining().len() > 0 && final(self).iter.remaining()
                    == old(self).iter.remaining().drop_first() && (match old(self).iter.remaining()[0] {
                    Ok(v) => call_ensures(old(self).f, (v,), out),
                    Err(e0) => out is Err && call_ensures(old(self).convert, (e0,), out->Err_0),
                }),
            },
    {
        match self.iter.try_next() {
            None => None,
            Some(Ok(v)) => Some((self.f)(v)),
            Some(Err(e)) => Some(Err((self.convert)(e))),
        }
    }
}

/// Lazily filters successes by a predicate, forwarding every failure.
///
/// A pull skips successes the predicate rejects, and stops at the first
/// success the predicate accepts or at the first failure, which is forwarded
/// unchanged with the predicate never applied to it. The sequence is never
/// halted by a failure: pulling may continue afterwards.
pub struct TryFilter<I, F> {
    pub iter: I,
    pub predicate: F,
}

impl<I: TryIterator, F: Fn(&I::OkVal) -> bool> TryFilter<I, F> {
    /// Pulls until the sequence ends, a failure appears (forwarded), or a
    /// success satisfies the predicate (forwarded); the skipped run holds
    /// only successes the predicate rejected, never a failure.
    pub fn next(&mut self) -> (r: Option<Result<I::OkVal, I::ErrVal>>)
        requires
            forall|j: int|
                0 <= j < old(self).iter.remaining().len() && (#[trigger] old(self).iter.remaining()[j]) is Ok ==> call_requires(
                    old(self).predicate,
                    (&(old(self).iter.remaining()[j]->Ok_0),),
                ),
        ensures
            final(self).predicate == old(self).predicate,
            match r {
                None => all_skippable(old(self).iter.remaining(), old(self).predicate) && final(self).iter.remaining().len() == 0,
                Some(Ok(v)) => exists|k: int|
                    0 <= k < old(self).iter.remaining().len() && all_skippable(
                        #[trigger] old(self).iter.remaining().take(k),
                        old(self).predicate,
                    ) && old(self).iter.remaining()[k] is Ok && v == old(self).iter.remaining()[k]->Ok_0 && call_ensures(old(self).predicate, (&v,), true)
                        && final(self).iter.remaining() == old(self).iter.remaining().skip(k + 1),
                Some(Err(e)) => exists|k: int|
                    0 <= k < old(self).iter.remaining().len() && all_skippable(
                        #[trigger] old(self).iter.remaining().take(k),
                        old(self).predicate,
                    ) && old(self).iter.remaining()[k] is Err && e == old(self).iter.remaining()[k]->Err_0 && final(self).iter.remaining() == old(self).iter.remaining().skip(k + 1),
            },
    {
        let ghost rem0 = self.iter.remaining();
        let ghost mut k: int = 0;
        #[verifier::loop_isolation(false)]
        loop
            invariant
                0 <= k <= rem0.len(),
                self.iter.remaining() == rem0.skip(k),
                all_skippable(rem0.take(k), old(self).predicate),
                self.predicate == old(self).predicate,
            decreases self.iter.remaining().len(),
        {
            match self.iter.try_next() {
                None => {
                    proof {
                        assert(rem0.take(k) =~= rem0);
                    }
                    return None;
                },
                Some(Ok(v)) => {
                    proof {
                        assert(rem0[k] is Ok && rem0[k]->Ok_0 == v);
                        assert(self.iter.remaining() =~= rem0.skip(k + 1));
                    }
                    if (self.predicate)(&v) {
                        return Some(Ok(v));
                    } else {
                        proof {
                            assert forall|j: int|
                                0 <= j < rem0.take(k + 1).len() implies (#[trigger] rem0.take(
                                k + 1,
                            )[j]) is Ok && call_ensures(
                                old(self).predicate,
                                (&(rem0.take(k + 1)[j]->Ok_0),),
                                false,
                            ) by {
                                if j < k {
                                    assert(rem0.take(k)[j] is Ok);
                                    assert(rem0.take(k + 1)[j] == rem0.take(k)[j]);
                                } else {
                                    assert(rem0.take(k + 1)[j] == rem0[k]);
                                }
                            }
                            k = k + 1;
                        }
                    }
                },
                Some(Err(e)) => {
                    proof {
                        assert(rem0[k] is Err && rem0[k]->Err_0 == e);
                        assert(self.iter.remaining() =~= rem0.skip(k + 1));
                    }
                    return Some(Err(e));
                },
            }
        }
    }

    /// Eagerly drains the filtered sequence into a caller-chosen container.
    ///
    /// Succeeds exactly when the wrapped sequence holds no failure, and then
    /// the container drains to exactly the successes the predicate accepted,
    /// in order; otherwise it short-circuits on the first failure and returns
    /// it, exposing no partial container.
    pub fn try_collect<B: Collector<I::OkVal>>(self) -> (r: Result<B, I::ErrVal>)
        requires
            forall|j: int|
                0 <= j < self.iter.remaining().len() && (#[trigger] self.iter.remaining()[j]) is Ok
                    ==> call_requires(self.predicate, (&(self.iter.remaining()[j]->Ok_0),)),
        ensures
            r is Ok <==> first_failure(self.iter.remaining()) == self.iter.remaining().len(),
            r matches Ok(b) ==> filters_to(self.iter.remaining(), self.predicate, b.collected()),
            r matches Err(e) ==> e == self.iter.remaining()[first_failure(
                self.iter.remaining(),
            )]->Err_0,
    {
        let ghost rem0 = self.iter.remaining();
        let ghost p = self.predicate;
        let mut it = self;
        let mut b = B::new_empty();
        let ghost mut k: int = 0;
        proof {
            assert(filters_to(rem0.take(0), p, b.collected()));
        }
        #[verifier::loop_isolation(false)]
        loop
            invariant
                0 <= k <= rem0.len(),
                it.iter.remaining() == rem0.skip(k),
                it.predicate == p,
                filters_to(rem0.take(k), p, b.collected()),
                forall|j: int| 0 <= j < k ==> (#[trigger] rem0[j]) is Ok,
            decreases it.iter.remaining().len(),
        {
            match it.iter.try_next() {
                None => {
                    proof {
                        assert(rem0.take(k) =~= rem0);
                        lemma_no_failure_iff(rem0);
                    }
                    return Ok(b);
                },
                Some(Ok(v)) => {
                    proof {
                        assert(rem0[k] is Ok && rem0[k]->Ok_0 == v);
                        assert(it.iter.remaining() =~= rem0.skip(k + 1));
                    }
                    let accepted = (it.predicate)(&v);
                    proof {
                        lemma_filters_to_snoc(rem0.take(k), p, b.collected(), v, accepted);
                        assert(rem0.take(k + 1) =~= rem0.take(k).push(Ok::<I::OkVal, I::ErrVal>(v)));
                    }
                    if accepted {
                        b.insert_value(v);
                    }
                    proof {
                        k = k + 1;
                    }
                },
                Some(Err(e)) => {
                    proof {
                        assert(rem0[k] is Err && rem0[k]->Err_0 == e);
                        lemma_first_failure_at(rem0, k);
                    }
                    return Err(e);
                },
            }
        }
    }
}

} // verus!

//! Mathematical model of fallible sequences.
//!
//! A fallible sequence is modelled as a `Seq<Result<T, E>>`: each element is
//! either a success value or an error. The spec functions here describe the
//! policies that the adapters and terminal operations implement, and the
//! lemmas state the laws those policies obey.

use vstd::prelude::*;

use crate::collector::Collector;

verus! {

/// Index of the first failure in `s`, or `s.len()` if every element succeeds.
pub open spec fn first_failure<T, E>(s: Seq<Result<T, E>>) -> int
    decreases s.len(),
{
    if s.len() == 0 {
        0
    } else if s[0] is Err {
        0
    } else {
        1 + first_failure(s.drop_first())
    }
}

/// The success values of `s`, in order, with every failure skipped.
pub open spec fn all_successes<T, E>(s: Seq<Result<T, E>>) -> Seq<T>
    decreases s.len(),
{
    if s.len() == 0 {
        Seq::empty()
    } else {
        match s[0] {
            Ok(v) => seq![v] + all_successes(s.drop_first()),
            Err(_) => all_successes(s.drop_first()),
        }
    }
}

/// The success values of `s` occurring strictly before the first failure.
pub open spec fn successes_before_failure<T, E>(s: Seq<Result<T, E>>) -> Seq<T>
    decreases s.len(),
{
    if s.len() == 0 {
        Seq::empty()
    } else {
        match s[0] {
            Ok(v) => seq![v] + successes_before_failure(s.drop_first()),
            Err(_) => Seq::empty(),
        }
    }
}

/// `first_failure` stays within bounds and lands on an actual failure.
pub proof fn lemma_first_failure_bounds<T, E>(s: Seq<Result<T, E>>)
    ensures
        0 <= first_failure(s) <= s.len(),
        first_failure(s) < s.len() ==> s[first_failure(s)] is Err,
        forall|j: int| 0 <= j < first_failure(s) ==> (#[trigger] s[j]) is Ok,
    decreases s.len(),
{
    if s.len() != 0 && s[0] is Ok {
        lemma_first_failure_bounds(s.drop_first());
        assert forall|j: int| 0 <= j < first_failure(s) implies (#[trigger] s[j]) is Ok by {
            if j > 0 {
                assert(s.drop_first()[j - 1] is Ok);
            }
        }
    }
}

/// A position holding a failure, with only successes before it, is exactly
/// where `first_failure` points.
pub proof fn lemma_first_failure_at<T, E>(s: Seq<Result<T, E>>, k: int)
    requires
        0 <= k < s.len(),
        s[k] is Err,
        forall|j: int| 0 <= j < k ==> (#[trigger] s[j]) is Ok,
    ensures
        first_failure(s) == k,
    decreases k,
{
    if k > 0 {
        assert(s[0] is Ok);
        lemma_first_failure_at(s.drop_first(), k - 1);
    }
}

/// Every success of `s` re-expressed through the pure function `f`, failures
/// left in place.
pub open spec fn map_successes<T, U, E>(s: Seq<Result<T, E>>, f: spec_fn(T) -> U) -> Seq<
    Result<U, E>,
> {
    s.map(
        |i: int, r: Result<T, E>|
            match r {
                Ok(v) => Ok(f(v)),
                Err(e) => Err(e),
            },
    )
}

/// Law: mapping successes through a pure function preserves the length of
/// the sequence and the position and value of every failure, and carries the
/// success at each position to its image at the same position.
pub proof fn lemma_map_successes_shape<T, U, E>(s: Seq<Result<T, E>>, f: spec_fn(T) -> U)
    ensures
        map_successes(s, f).len() == s.len(),
        forall|i: int|
            0 <= i < s.len() && s[i] is Err ==> (#[trigger] map_successes(s, f)[i]) == Err::<
                U,
                E,
            >(s[i]->Err_0),
        forall|i: int|
            0 <= i < s.len() && s[i] is Ok ==> (#[trigger] map_successes(s, f)[i]) == Ok::<U, E>(
                f(s[i]->Ok_0),
            ),
{
}

/// Law: the halting reduction yields exactly the successes occurring before
/// the first failure of the sequence.
pub proof fn lemma_take_ok_prefix<T, E>(s: Seq<Result<T, E>>)
    ensures
        successes_before_failure(s) == all_successes(s.take(first_failure(s))),
    decreases s.len(),
{
    lemma_first_failure_bounds(s);
    if s.len() == 0 {
        assert(s.take(0) =~= s);
    } else if s[0] is Err {
        assert(s.take(0) =~= Seq::<Result<T, E>>::empty());
    } else {
        lemma_take_ok_prefix(s.drop_first());
        let f = first_failure(s);
        lemma_first_failure_bounds(s.drop_first());
        assert(s.take(f)[0] == s[0]);
        assert(s.take(f).drop_first() =~= s.drop_first().take(f - 1));
        assert(all_successes(s.take(f)) == seq![s[0]->Ok_0] + all_successes(
            s.take(f).drop_first(),
        ));
    }
}

/// Law: once a sequence holds a failure, the halting reduction yields nothing
/// past it: whatever outcomes follow, even successes, change nothing.
pub proof fn lemma_take_ok_ignores_tail<T, E>(s: Seq<Result<T, E>>, t: Seq<Result<T, E>>)
    requires
        first_failure(s) < s.len(),
    ensures
        successes_before_failure(s + t) == successes_before_failure(s),
    decreases s.len(),
{
    lemma_first_failure_bounds(s);
    assert((s + t)[0] == s[0]);
    if s[0] is Err {
        assert(successes_before_failure(s + t) =~= successes_before_failure(s));
    } else {
        lemma_take_ok_ignores_tail(s.drop_first(), t);
        assert((s + t).drop_first() =~= s.drop_first() + t);
    }
}

/// Law: the skipping reduction yields exactly the successes of the sequence,
/// in order, regardless of interspersed failures: deleting any one failure
/// leaves its yield unchanged.
pub proof fn lemma_filter_ok_skips_failures<T, E>(
    s: Seq<Result<T, E>>,
    t: Seq<Result<T, E>>,
    e: E,
)
    ensures
        all_successes(s + seq![Err::<T, E>(e)] + t) == all_successes(s + t),
    decreases s.len(),
{
    if s.len() == 0 {
        assert(s + seq![Err::<T, E>(e)] + t =~= seq![Err::<T, E>(e)] + t);
        assert((seq![Err::<T, E>(e)] + t)[0] is Err);
        assert((seq![Err::<T, E>(e)] + t).drop_first() =~= t);
        assert(s + t =~= t);
    } else {
        lemma_filter_ok_skips_failures(s.drop_first(), t, e);
        assert((s + seq![Err::<T, E>(e)] + t)[0] == s[0]);
        assert((s + seq![Err::<T, E>(e)] + t).drop_first() =~= s.drop_first() + seq![Err::<T, E>(e)]
            + t);
        assert((s + t)[0] == s[0]);
        assert((s + t).drop_first() =~= s.drop_first() + t);
    }
}

/// Law: on a failure-free sequence the successes are all the values, in
/// order, so an eager drain returns the container of every value.
pub proof fn lemma_all_values_when_no_failure<T, E>(s: Seq<Result<T, E>>)
    requires
        forall|j: int| 0 <= j < s.len() ==> (#[trigger] s[j]) is Ok,
    ensures
        all_successes(s).len() == s.len(),
        forall|j: int| 0 <= j < s.len() ==> all_successes(s)[j] == (#[trigger] s[j])->Ok_0,
    decreases s.len(),
{
    if s.len() > 0 {
        assert(s[0] is Ok);
        assert forall|j: int| 0 <= j < s.drop_first().len() implies (#[trigger] s.drop_first()[j]) is Ok by {
            assert(s[j + 1] is Ok);
        }
        lemma_all_values_when_no_failure(s.drop_first());
        assert forall|j: int| 0 <= j < s.len() implies all_successes(s)[j] == (#[trigger] s[j])->Ok_0 by {
            if j > 0 {
                assert(all_successes(s)[j] == all_successes(s.drop_first())[j - 1]);
                assert(s.drop_first()[j - 1] == s[j]);
            }
        }
    }
}

/// Law: round trip through a buffer. On a failure-free sequence, buffering
/// holds exactly the successes, re-collecting a buffer returns its contents
/// unchanged, and a direct collection returns the successes too — so the
/// re-collected container equals the directly collected one.
pub proof fn lemma_buffer_roundtrip<T, E, B: Collector<T>>(
    s: Seq<Result<T, E>>,
    buffered: Seq<T>,
    direct: B,
    re: B,
)
    requires
        first_failure(s) == s.len(),
        buffered == all_successes(s),
        re.collected() == buffered,
        direct.collected() == all_successes(s),
    ensures
        re.collected() == direct.collected(),
{
}

/// A sequence has no failure exactly when `first_failure` is its length.
pub proof fn lemma_no_failure_iff<T, E>(s: Seq<Result<T, E>>)
    ensures
        first_failure(s) == s.len() <==> forall|j: int| 0 <= j < s.len() ==> (#[trigger] s[j]) is Ok,
    decreases s.len(),
{
    lemma_first_failure_bounds(s);
    if s.len() != 0 && s[0] is Ok {
        lemma_no_failure_iff(s.drop_first());
        if forall|j: int| 0 <= j < s.len() ==> (#[trigger] s[j]) is Ok {
            assert forall|j: int| 0 <= j < s.drop_first().len() implies (#[trigger] s.drop_first()[j]) is Ok by {
                assert(s[j + 1] is Ok);
            }
        }
    }
}

} // verus!

//! Reduction adapters: wrappers that emit plain success values.
//!
//! Both wrap a fallible sequence but diverge on failures: [`TakeOk`] treats
//! the first failure as the end of the data, while [`FilterOk`] discards
//! every failure and keeps going.

use vstd::prelude::*;

use crate::PlainIterator;
use crate::TryIterator;
use crate::model::all_successes;
use crate::model::successes_before_failure;

verus! {

/// Yields the successes occurring before the first failure, then halts for
/// good: the halting error is discarded, and nothing is yielded afterwards
/// even if the wrapped sequence would produce further successes.
pub struct TakeOk<I> {
    pub iter: I,
    pub flag: bool,
}

impl<I: TryIterator> PlainIterator for TakeOk<I> {
    type Item = I::OkVal;

    open spec fn remaining_values(&self) -> Seq<I::OkVal> {
        if self.flag {
            Seq::empty()
        } else {
            successes_before_failure(self.iter.remaining())
        }
    }

    fn next(&mut self) -> (r: Option<I::OkVal>)
        ensures
            old(self).flag ==> *final(self) == *old(self),
    {
        if self.flag {
            None
        } else {
            let ghost rem = self.iter.remaining();
            match self.iter.try_next() {
                None => None,
                Some(Ok(v)) => {
                    proof {
                        assert(successes_before_failure(rem) == seq![v]
                            + successes_before_failure(rem.drop_first()));
                        assert((seq![v] + successes_before_failure(rem.drop_first())).drop_first()
                            =~= successes_before_failure(rem.drop_first()));
                    }
                    Some(v)
                },
                Some(Err(_)) => {
                    self.flag = true;
                    None
                },
            }
        }
    }
}

/// Yields every success of the wrapped sequence, in order: failures are
/// silently skipped, and successes after a failure are still produced.
pub struct FilterOk<I>(pub I);

impl<I: TryIterator> PlainIterator for FilterOk<I> {
    type Item = I::OkVal;

    open spec fn remaining_values(&self) -> Seq<I::OkVal> {
        all_successes(self.0.remaining())
    }

    fn next(&mut self) -> (r: Option<I::OkVal>) {
        #[verifier::loop_isolation(false)]
        loop
            invariant
                all_successes(self.0.remaining()) == old(self).remaining_values(),
            decreases self.0.remaining().len(),
        {
            let ghost rem = self.0.remaining();
            match self.0.try_next() {
                None => {
                    return None;
                },
                Some(Ok(v)) => {
                    proof {
                        assert(all_successes(rem) == seq![v] + all_successes(rem.drop_first()));
                        assert((seq![v] + all_successes(rem.drop_first())).drop_first()
                            =~= all_successes(rem.drop_first()));
                    }
                    return Some(v);
                },
                Some(Err(_)) => {
                },
            }
        }
    }
}

} // verus!

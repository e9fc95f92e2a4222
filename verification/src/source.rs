//! A concrete fallible sequence backed by a queue of outcomes.

use vstd::prelude::*;

use std::collections::VecDeque;

use crate::TryIterator;

verus! {

/// A fallible sequence that yields a given run of outcomes, front to back.
///
/// Any in-memory run of outcomes becomes a source by wrapping it; every
/// adapter is then built against the [`TryIterator`] capability alone.
pub struct VecSource<T, E> {
    pub elems: VecDeque<Result<T, E>>,
}

impl<T, E> VecSource<T, E> {
    /// Wraps `v` as a fallible sequence yielding exactly `v`'s outcomes in order.
    pub fn new(v: Vec<Result<T, E>>) -> (r: VecSource<T, E>)
        ensures
            r.remaining() == v@,
    {
        let ghost v0 = v@;
        let mut v = v;
        let mut elems: VecDeque<Result<T, E>> = VecDeque::new();
        while v.len() != 0
            invariant
                v@ + elems@ == v0,
            decreases v@.len(),
        {
            if let Some(x) = v.pop() {
                elems.push_front(x);
                proof {
                    assert(v@ + elems@ =~= v0);
                }
            }
        }
        proof {
            assert(elems@ =~= v0);
        }
        VecSource { elems }
    }
}

impl<T, E> TryIterator for VecSource<T, E> {
    type OkVal = T;

    type ErrVal = E;

    open spec fn remaining(&self) -> Seq<Result<T, E>> {
        self.elems@
    }

    fn try_next(&mut self) -> (r: Option<Result<T, E>>) {
        let r = self.elems.pop_front();
        proof {
            if old(self).elems@.len() > 0 {
                assert(self.elems@ =~= old(self).elems@.drop_first());
            }
        }
        r
    }
}

} // verus!

//! A finite, replayable plain sequence of buffered values.

use vstd::prelude::*;

use std::collections::VecDeque;

use crate::PlainIterator;

verus! {

/// A finite plain sequence holding buffered values.
///
/// It can be walked forwards through [`PlainIterator::next`] or backwards
/// from the tail through [`Buffered::next_back`], reports its exact remaining
/// count, and is fused: once exhausted it stays exhausted.
pub struct Buffered<T> {
    pub items: VecDeque<T>,
}

impl<T> PlainIterator for Buffered<T> {
    type Item = T;

    open spec fn remaining_values(&self) -> Seq<T> {
        self.items@
    }

    fn next(&mut self) -> (r: Option<T>) {
        let r = self.items.pop_front();
        proof {
            if old(self).items@.len() > 0 {
                assert(self.items@ =~= old(self).items@.drop_first());
            }
        }
        r
    }
}

impl<T> Buffered<T> {
    /// The exact number of values not yet yielded.
    pub fn remaining_count(&self) -> (n: usize)
        ensures
            n == self.remaining_values().len(),
    {
        self.items.len()
    }

    /// Pulls the next value from the tail: reverse iteration, also fused.
    pub fn next_back(&mut self) -> (r: Option<T>)
        ensures
            match r {
                Some(v) => old(self).remaining_values().len() > 0
                    && v == old(self).remaining_values().last()
                    && final(self).remaining_values() == old(self).remaining_values().drop_last(),
                None => old(self).remaining_values().len() == 0
                    && final(self).remaining_values().len() == 0,
            },
    {
        let r = self.items.pop_back();
        proof {
            if old(self).items@.len() > 0 {
                assert(self.items@ =~= old(self).items@.drop_last());
            }
        }
        r
    }
}

} // verus!

//! Ordered containers that terminal operations can drain a sequence into.

use vstd::prelude::*;

use std::collections::VecDeque;

verus! {

/// A container built by inserting values one at a time, in order.
///
/// The target container of a terminal operation is chosen by the caller:
/// any type with this capability can receive the drained success values.
pub trait Collector<T>: Sized {
    /// The values inserted so far, in insertion order.
    spec fn collected(&self) -> Seq<T>;

    /// A container holding nothing yet.
    fn new_empty() -> (r: Self)
        ensures
            r.collected() == Seq::<T>::empty(),
    ;

    /// Inserts one value after everything inserted before it.
    fn insert_value(&mut self, v: T)
        ensures
            final(self).collected() == old(self).collected().push(v),
    ;
}

impl<T> Collector<T> for Vec<T> {
    open spec fn collected(&self) -> Seq<T> {
        self@
    }

    fn new_empty() -> (r: Self) {
        Vec::new()
    }

    fn insert_value(&mut self, v: T) {
        self.push(v);
    }
}

impl<T> Collector<T> for VecDeque<T> {
    open spec fn collected(&self) -> Seq<T> {
        self@
    }

    fn new_empty() -> (r: Self) {
        VecDeque::new()
    }

    fn insert_value(&mut self, v: T) {
        self.push_back(v);
    }
}

} // verus!

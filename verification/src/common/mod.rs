//! What the parts of the configuration share.

pub mod valid;

use vstd::prelude::*;
use crate::ordered::{Replicate, SortKey};

verus! {

/// A list of values that are let through.
#[derive(Debug)]
pub struct Allowlist<T: SortKey> {
    items: Vec<T>,
}

/// Some item of `items` is `value`.
pub open spec fn lists<A>(items: Seq<A>, value: A) -> bool {
    exists|i: int| 0 <= i < items.len() && #[trigger] items[i] == value
}

impl<T: SortKey> Allowlist<T> {
    /// The values on the list, each by its view.
    pub closed spec fn texts(&self) -> Seq<T::V> {
        Seq::new(self.items@.len(), |i: int| self.items@[i]@)
    }

    /// Whether `value` is on the list.
    pub fn is_allowed(&self, value: &T) -> (r: bool)
        ensures
            r == lists(self.texts(), value@),
    {
        let mut i: usize = 0;
        while i < self.items.len()
            invariant
                i <= self.items.len(),
                forall|j: int| 0 <= j < i ==> #[trigger] self.texts()[j] != value@,
            decreases self.items.len() - i,
        {
            if self.items[i].same(value) {
                assert(self.texts()[i as int] == value@);
                return true;
            }
            i = i + 1;
        }
        false
    }

    /// The list of the given values.
    pub fn new(values: Vec<T>) -> (r: Allowlist<T>)
        ensures
            forall|v: T::V|
                lists(r.texts(), v) <==> exists|i: int|
                    0 <= i < values@.len() && #[trigger] values@[i]@ == v,
    {
        let r = Allowlist { items: values };
        assert forall|v: T::V|
            lists(r.texts(), v) <==> exists|i: int|
                0 <= i < values@.len() && #[trigger] values@[i]@ == v by {
            if lists(r.texts(), v) {
                let j = choose|j: int| 0 <= j < r.texts().len() && #[trigger] r.texts()[j] == v;
                assert(values@[j]@ == v);
            }
            if exists|i: int| 0 <= i < values@.len() && #[trigger] values@[i]@ == v {
                let i = choose|i: int| 0 <= i < values@.len() && #[trigger] values@[i]@ == v;
                assert(r.texts()[i] == v);
            }
        }
        r
    }
}

impl<T: SortKey + Replicate> Clone for Allowlist<T> {
    fn clone(&self) -> (r: Self)
        ensures
            r.texts() == self.texts(),
    {
        let mut items: Vec<T> = Vec::new();
        let mut i: usize = 0;
        while i < self.items.len()
            invariant
                i <= self.items.len(),
                items@.len() == i,
                forall|j: int| 0 <= j < i ==> (#[trigger] items@[j])@ == self.items@[j]@,
            decreases self.items.len() - i,
        {
            items.push(self.items[i].replicate());
            i = i + 1;
        }
        let r = Allowlist { items };
        assert(r.texts() =~= self.texts());
        r
    }
}

impl<T: SortKey> Default for Allowlist<T> {
    /// The list that lets nothing through.
    fn default() -> (r: Allowlist<T>)
        ensures
            forall|v: T::V| !lists(r.texts(), v),
    {
        Allowlist::new(Vec::new())
    }
}

} // verus!

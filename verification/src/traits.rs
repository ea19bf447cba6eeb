//! Coercion of the integer types that callers index with.

use vstd::prelude::*;

verus! {

/// A value that can be used as an index.
pub trait ToUsize: Sized {
    /// The index that `self` stands for.
    spec fn index_value(self) -> usize;

    /// Converts `self` to the index `self.index_value()`.
    fn to_usize(self) -> (index: usize)
        ensures
            index == self.index_value(),
    ;
}

impl ToUsize for i32 {
    /// A number that is not negative is its own index; a negative one wraps
    /// around the top of the `usize` range, as two's complement does.
    open spec fn index_value(self) -> usize {
        if self >= 0 {
            self as usize
        } else {
            (self + usize::MAX + 1) as usize
        }
    }

    fn to_usize(self) -> (index: usize) {
        if self >= 0 {
            self as usize
        } else {
            usize::MAX - ((-(self + 1)) as usize)
        }
    }
}

impl ToUsize for usize {
    open spec fn index_value(self) -> usize {
        self
    }

    fn to_usize(self) -> (index: usize) {
        self
    }
}

} // verus!

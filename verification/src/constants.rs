//! The constant pool: an append-only, index-addressed sequence of values.
//!
//! Once pushed, an index stays valid for good and the value at it never
//! changes. The compiler is the pool's only writer; the virtual machine
//! reads it.

use vstd::prelude::*;

use crate::value::Value;

verus! {

/// The constant pool, viewed as the sequence of values pushed so far.
#[derive(Debug, Clone)]
pub struct Constants(Vec<Value>);

impl View for Constants {
    type V = Seq<Value>;

    closed spec fn view(&self) -> Seq<Value> {
        self.0@
    }
}

impl Constants {
    /// An empty pool.
    pub fn new() -> (r: Self)
        ensures
            r@ == Seq::<Value>::empty(),
    {
        Self(Vec::new())
    }

    /// Append a value and return its permanent index.
    pub fn push(&mut self, val: Value) -> (idx: usize)
        ensures
            final(self)@ == old(self)@.push(val),
            idx == old(self)@.len(),
    {
        self.0.push(val);
        self.0.len() - 1
    }

    /// The value at an index that `push` handed out.
    pub fn index(&self, idx: usize) -> (r: Value)
        requires
            idx < self@.len(),
        ensures
            r == self@[idx as int],
    {
        self.0[idx]
    }

    /// How many values the pool holds.
    pub fn len(&self) -> (r: usize)
        ensures
            r == self@.len(),
    {
        self.0.len()
    }
}

} // verus!

//! The virtual machine's operand stack: a fixed-capacity LIFO of values with
//! explicit overflow and underflow errors. Capacity is checked before any
//! write, so a failed push never touches the stack.

use vstd::prelude::*;

use crate::value::Value;

verus! {

/// The stack's capacity in values.
pub const STACK_SIZE: usize = 255;

/// The operand stack, viewed as the sequence of held values, bottom first.
#[derive(Debug)]
pub struct Stack {
    arr: Vec<Value>,
}

/// A capacity violation: popping an empty stack or pushing a full one.
#[derive(Debug, Clone, Copy, PartialEq, Eq, Structural)]
pub enum StackError {
    StackUnderflow,
    StackOverflow,
}

impl View for Stack {
    type V = Seq<Value>;

    closed spec fn view(&self) -> Seq<Value> {
        self.arr@
    }
}

impl Default for Stack {
    /// An empty stack.
    fn default() -> (r: Self)
        ensures
            r@ == Seq::<Value>::empty(),
    {
        Self { arr: Vec::new() }
    }
}

impl Stack {
    /// Push a value on top, or report overflow, untouched, at capacity.
    pub fn push(&mut self, value: Value) -> (r: Result<(), StackError>)
        ensures
            old(self)@.len() < STACK_SIZE ==> r == Ok::<(), StackError>(())
                && final(self)@ == old(self)@.push(value),
            old(self)@.len() >= STACK_SIZE ==> r == Err::<(), StackError>(
                StackError::StackOverflow,
            ) && final(self)@ == old(self)@,
    {
        if self.arr.len() < STACK_SIZE {
            self.arr.push(value);
            Ok(())
        } else {
            Err(StackError::StackOverflow)
        }
    }

    /// Pop the top value, or report underflow on an empty stack.
    pub fn pop(&mut self) -> (r: Result<Value, StackError>)
        ensures
            old(self)@.len() > 0 ==> r == Ok::<Value, StackError>(old(self)@.last())
                && final(self)@ == old(self)@.drop_last(),
            old(self)@.len() == 0 ==> r == Err::<Value, StackError>(StackError::StackUnderflow)
                && final(self)@ == old(self)@,
    {
        if self.arr.len() == 0 {
            Err(StackError::StackUnderflow)
        } else {
            match self.arr.pop() {
                Some(v) => Ok(v),
                None => Err(StackError::StackUnderflow),
            }
        }
    }

    /// The value on top, without removing it.
    pub fn top(&self) -> (r: Option<Value>)
        ensures
            self@.len() > 0 ==> r == Some(self@.last()),
            self@.len() == 0 ==> r is None,
    {
        if self.arr.len() == 0 {
            None
        } else {
            Some(self.arr[self.arr.len() - 1])
        }
    }

    /// How many values the stack holds.
    pub fn len(&self) -> (r: usize)
        ensures
            r == self@.len(),
    {
        self.arr.len()
    }
}

} // verus!

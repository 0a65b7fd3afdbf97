//! The virtual machine: a fetch-execute loop over a compiled program, a
//! read-only constant pool, an interned-string table and a bounded operand
//! stack.
//!
//! `spec_step` is the machine's transition relation: it says, for every
//! opcode, exactly which values leave and enter the stack, how the string
//! table grows, and which runtime error ends execution. `step` is proved to
//! follow it instruction by instruction, and `run` to iterate it to the end
//! of the program or to the first error.

use vstd::prelude::*;
use vstd::string::StrSliceExecFns;
use vstd::string::StringExecFns;

use crate::constants::Constants;
use crate::numeric::spec_is_zero_bits;
use crate::numeric::is_zero_bits;
use crate::program::Instruction;
use crate::program::OpCode;
use crate::program::Program;
use crate::program::inst_wf;
use crate::program::program_wf;
use crate::program::balanced_expr;
use crate::program::lemma_net_effect_push;
use crate::program::net_effect;
use crate::program::op_effect;
use crate::program::op_pops;
use crate::program::op_pushes;
use crate::stack::STACK_SIZE;
use crate::stack::Stack;
use crate::stack::StackError;
use crate::value::Object;
use crate::value::Value;
use crate::value::spec_add_value;
use crate::value::spec_div_value;
use crate::value::spec_equal_values;
use crate::value::spec_lt_value;
use crate::value::spec_comparable;
use crate::value::spec_mul_value;
use crate::value::spec_neg_value;
use crate::value::spec_string_ref;
use crate::value::spec_sub_value;
use crate::value::value_wf;
use crate::value::values_wf;

verus! {

/// Whether a compilation or an execution failed.
#[derive(Debug, Clone, Copy, PartialEq, Eq, Structural)]
pub enum InterpretErrorType {
    Runtime,
    Compiler,
}

/// A terminal error of the virtual machine, with a human-readable message.
#[derive(Debug, Clone)]
pub struct InterpretError {
    pub msg: String,
    pub error: InterpretErrorType,
}

impl InterpretError {
    /// A runtime error carrying the given message.
    pub fn runtime_error(msg: &str) -> (r: Self)
        ensures
            r.msg@ == msg@,
            r.error == InterpretErrorType::Runtime,
    {
        Self { msg: msg.to_owned(), error: InterpretErrorType::Runtime }
    }

    /// The runtime error that reports a stack capacity violation.
    pub fn from_stack_err(e: StackError) -> (r: Self)
        ensures
            r.msg@ == spec_stack_err_msg(e),
            r.error == InterpretErrorType::Runtime,
    {
        match e {
            StackError::StackOverflow => Self::runtime_error("Stack overflow"),
            StackError::StackUnderflow => Self::runtime_error("Stack underflow"),
        }
    }
}

/// The message reporting a stack capacity violation.
pub open spec fn spec_stack_err_msg(e: StackError) -> Seq<char> {
    match e {
        StackError::StackOverflow => "Stack overflow"@,
        StackError::StackUnderflow => "Stack underflow"@,
    }
}

pub type InterpretResult = Result<(), InterpretError>;

/// The mathematical state of a virtual machine: the program and constant
/// pool it was given, the strings interned so far, the instruction pointer,
/// and the operand stack, bottom first.
#[verifier::ext_equal]
pub struct VMState {
    pub program: Seq<Instruction>,
    pub constants: Seq<Value>,
    pub strings: Seq<Seq<char>>,
    pub ip: int,
    pub stack: Seq<Value>,
}

/// What one fetch-execute step does: move to the next state, or stop with
/// the message of a runtime error.
#[verifier::ext_equal]
pub enum StepOutcome {
    Next(VMState),
    Fail(Seq<char>),
}

/// Well-formedness of a machine state: instructions address the pool, pool
/// and stack values address the string table, the instruction pointer lies
/// within the program (its end included), and the stack is within capacity.
pub open spec fn wf_state(s: VMState) -> bool {
    &&& program_wf(s.program, s.constants.len() as int)
    &&& values_wf(s.constants, s.strings.len() as int)
    &&& values_wf(s.stack, s.strings.len() as int)
    &&& 0 <= s.ip <= s.program.len()
    &&& s.stack.len() <= STACK_SIZE
}

/// The state one instruction later: the same program and pool, possibly
/// grown strings, the pointer advanced by exactly one, and the given stack.
pub open spec fn advanced(s: VMState, stack: Seq<Value>, strings: Seq<Seq<char>>) -> VMState {
    VMState { program: s.program, constants: s.constants, strings, ip: s.ip + 1, stack }
}

/// Push one fresh value: the one step that can overflow the stack.
pub open spec fn spec_push_step(s: VMState, v: Value) -> StepOutcome {
    if s.stack.len() >= STACK_SIZE {
        StepOutcome::Fail("Stack overflow"@)
    } else {
        StepOutcome::Next(advanced(s, s.stack.push(v), s.strings))
    }
}

/// Logical not of a value: booleans invert, nil is falsey, a number is
/// falsey unless it encodes zero, a string is falsey unless it is empty.
pub open spec fn spec_not_value(v: Value, strings: Seq<Seq<char>>) -> bool {
    match v {
        Value::Float(x) => spec_is_zero_bits(x),
        Value::Boolean(b) => !b,
        Value::Nil => true,
        Value::Obj(Object::StringObject(i)) => strings[i as int].len() == 0,
    }
}

/// The transition relation of the machine, for a state whose instruction
/// pointer addresses an instruction.
///
/// Binary operators pop the right operand first, then the left; their result
/// (one value for two) can never overflow. Addition of two string references
/// interns the concatenation as a fresh table entry and pushes a reference
/// to it, leaving the constant pool alone. A step that fails reports the
/// message of the runtime error that stops execution.
pub open spec fn spec_step(s: VMState) -> StepOutcome
    recommends
        wf_state(s),
        s.ip < s.program.len(),
{
    let op = s.program[s.ip].0;
    let n = s.stack.len() as int;
    match op {
        OpCode::OpConstant(idx) => spec_push_step(s, s.constants[idx as int]),
        OpCode::OpNil => spec_push_step(s, Value::Nil),
        OpCode::OpTrue => spec_push_step(s, Value::Boolean(true)),
        OpCode::OpFalse => spec_push_step(s, Value::Boolean(false)),
        OpCode::OpReturn => if n == 0 {
            StepOutcome::Fail("Stack underflow"@)
        } else {
            StepOutcome::Next(advanced(s, s.stack.drop_last(), s.strings))
        },
        OpCode::OpNegate => if n == 0 {
            StepOutcome::Fail("Stack underflow"@)
        } else {
            match spec_neg_value(s.stack.last()) {
                Ok(v) => StepOutcome::Next(advanced(s, s.stack.drop_last().push(v), s.strings)),
                Err(_) => StepOutcome::Fail("Negation err"@),
            }
        },
        OpCode::OpNot => if n == 0 {
            StepOutcome::Fail("Stack underflow"@)
        } else {
            StepOutcome::Next(
                advanced(
                    s,
                    s.stack.drop_last().push(
                        Value::Boolean(spec_not_value(s.stack.last(), s.strings)),
                    ),
                    s.strings,
                ),
            )
        },
        OpCode::OpAdd => if n < 2 {
            StepOutcome::Fail("Stack underflow"@)
        } else {
            let a = s.stack[n - 2];
            let b = s.stack[n - 1];
            let rest = s.stack.take(n - 2);
            match (spec_string_ref(a), spec_string_ref(b)) {
                (Some(i), Some(j)) => StepOutcome::Next(
                    advanced(
                        s,
                        rest.push(Value::Obj(Object::StringObject(s.strings.len() as usize))),
                        s.strings.push(s.strings[i as int] + s.strings[j as int]),
                    ),
                ),
                _ => match spec_add_value(a, b) {
                    Ok(v) => StepOutcome::Next(advanced(s, rest.push(v), s.strings)),
                    Err(_) => StepOutcome::Fail("Addition err"@),
                },
            }
        },
        OpCode::OpSubtract => if n < 2 {
            StepOutcome::Fail("Stack underflow"@)
        } else {
            match spec_sub_value(s.stack[n - 2], s.stack[n - 1]) {
                Ok(v) => StepOutcome::Next(advanced(s, s.stack.take(n - 2).push(v), s.strings)),
                Err(_) => StepOutcome::Fail("Subtraction err"@),
            }
        },
        OpCode::OpMultiply => if n < 2 {
            StepOutcome::Fail("Stack underflow"@)
        } else {
            match spec_mul_value(s.stack[n - 2], s.stack[n - 1]) {
                Ok(v) => StepOutcome::Next(advanced(s, s.stack.take(n - 2).push(v), s.strings)),
                Err(_) => StepOutcome::Fail("Multiply err"@),
            }
        },
        OpCode::OpDivide => if n < 2 {
            StepOutcome::Fail("Stack underflow"@)
        } else {
            match spec_div_value(s.stack[n - 2], s.stack[n - 1]) {
                Ok(v) => StepOutcome::Next(advanced(s, s.stack.take(n - 2).push(v), s.strings)),
                Err(e) => if e.divide_by_zero {
                    StepOutcome::Fail("Divide by zero"@)
                } else {
                    StepOutcome::Fail("Division err"@)
                },
            }
        },
        OpCode::OpEqual => if n < 2 {
            StepOutcome::Fail("Stack underflow"@)
        } else {
            StepOutcome::Next(
                advanced(
                    s,
                    s.stack.take(n - 2).push(
                        Value::Boolean(spec_equal_values(s.stack[n - 2], s.stack[n - 1], s.strings)),
                    ),
                    s.strings,
                ),
            )
        },
        OpCode::OpNotEqual => if n < 2 {
            StepOutcome::Fail("Stack underflow"@)
        } else {
            StepOutcome::Next(
                advanced(
                    s,
                    s.stack.take(n - 2).push(
                        Value::Boolean(!spec_equal_values(s.stack[n - 2], s.stack[n - 1], s.strings)),
                    ),
                    s.strings,
                ),
            )
        },
        OpCode::OpLess => spec_compare_step(s, OpCode::OpLess),
        OpCode::OpLessEqual => spec_compare_step(s, OpCode::OpLessEqual),
        OpCode::OpGreater => spec_compare_step(s, OpCode::OpGreater),
        OpCode::OpGreaterEqual => spec_compare_step(s, OpCode::OpGreaterEqual),
    }
}

/// The boolean an ordering opcode pushes for left operand `a` and right
/// operand `b`, both comparable.
pub open spec fn spec_compare_result(op: OpCode, a: Value, b: Value) -> bool {
    match op {
        OpCode::OpLess => spec_lt_value(a, b),
        OpCode::OpLessEqual => !spec_lt_value(b, a),
        OpCode::OpGreater => spec_lt_value(b, a),
        OpCode::OpGreaterEqual => !spec_lt_value(a, b),
        _ => false,
    }
}

/// One ordering step: pop right then left; unless both are non-NaN numbers
/// the two cannot be compared and execution stops.
pub open spec fn spec_compare_step(s: VMState, op: OpCode) -> StepOutcome {
    let n = s.stack.len() as int;
    if n < 2 {
        StepOutcome::Fail("Stack underflow"@)
    } else {
        let a = s.stack[n - 2];
        let b = s.stack[n - 1];
        if !spec_comparable(a, b) {
            StepOutcome::Fail("Cannot compare the two types"@)
        } else {
            StepOutcome::Next(
                advanced(
                    s,
                    s.stack.take(n - 2).push(Value::Boolean(spec_compare_result(op, a, b))),
                    s.strings,
                ),
            )
        }
    }
}

/// Iterate `spec_step` until the instruction pointer leaves the program or a
/// step fails: the meaning of a whole execution.
pub open spec fn spec_run(s: VMState) -> Result<VMState, Seq<char>>
    recommends
        wf_state(s),
    decreases s.program.len() - s.ip,
{
    if s.ip < 0 || s.ip >= s.program.len() {
        Ok(s)
    } else {
        match spec_step(s) {
            StepOutcome::Next(s2) => if s2.ip == s.ip + 1 && s2.program == s.program {
                spec_run(s2)
            } else {
                Ok(s2)
            },
            StepOutcome::Fail(m) => Err(m),
        }
    }
}

/// The virtual machine.
pub struct VM {
    program: Program,
    constants: Constants,
    strings: Vec<String>,
    ip: usize,
    stack: Stack,
}

impl View for VM {
    type V = VMState;

    closed spec fn view(&self) -> VMState {
        VMState {
            program: self.program@,
            constants: self.constants@,
            strings: self.strings.deep_view(),
            ip: self.ip as int,
            stack: self.stack@,
        }
    }
}

impl VM {
    /// The machine's state is well formed.
    pub open spec fn wf(&self) -> bool {
        wf_state(self@)
    }

    /// A machine ready to run the program against the pool, with no strings
    /// interned, an empty stack, and the instruction pointer at the start.
    ///
    /// The program may address only the pool it comes with, and the pool may
    /// not hold string references: nothing is interned yet for them to name.
    pub fn new(program: Program, constants: Constants) -> (r: Self)
        requires
            program_wf(program@, constants@.len() as int),
            values_wf(constants@, 0),
        ensures
            r@ == (VMState {
                program: program@,
                constants: constants@,
                strings: Seq::<Seq<char>>::empty(),
                ip: 0,
                stack: Seq::<Value>::empty(),
            }),
            r.wf(),
    {
        let r = Self { program, constants, strings: Vec::new(), ip: 0, stack: Stack::default() };
        proof {
            assert(r.strings.deep_view() =~= Seq::<Seq<char>>::empty());
            assert(r@ =~= (VMState {
                program: r.program@,
                constants: r.constants@,
                strings: Seq::<Seq<char>>::empty(),
                ip: 0,
                stack: Seq::<Value>::empty(),
            }));
        }
        r
    }

    /// Retire the instruction at the pointer.
    fn advance_ip(&mut self)
        requires
            old(self)@.ip < old(self)@.program.len(),
        ensures
            final(self)@ == (VMState { ip: old(self)@.ip + 1, ..old(self)@ }),
    {
        let n = self.program.len();
        self.ip = self.ip + 1;
        proof {
            assert(self@ =~= (VMState { ip: old(self)@.ip + 1, ..old(self)@ }));
        }
    }

    /// Fetch the instruction at the pointer, dispatch on its opcode, and on
    /// success advance the pointer by exactly one. The returned result and
    /// the state afterwards are exactly those of `spec_step`; a failed step
    /// leaves the pointer, the strings, the pool and the program as they
    /// were, and has only popped operands off the stack.
    pub fn step(&mut self) -> (r: InterpretResult)
        requires
            old(self).wf(),
            old(self)@.ip < old(self)@.program.len(),
        ensures
            final(self).wf(),
            final(self)@.program == old(self)@.program,
            final(self)@.constants == old(self)@.constants,
            match r {
                Ok(()) => spec_step(old(self)@) == StepOutcome::Next(final(self)@),
                Err(e) => {
                    &&& spec_step(old(self)@) == StepOutcome::Fail(e.msg@)
                    &&& e.error == InterpretErrorType::Runtime
                    &&& final(self)@.strings == old(self)@.strings
                    &&& final(self)@.ip == old(self)@.ip
                    &&& final(self)@.stack == old(self)@.stack.subrange(
                        0,
                        final(self)@.stack.len() as int,
                    )
                    &&& old(self)@.stack.len() - final(self)@.stack.len() <= op_pops(
                        old(self)@.program[old(self)@.ip].0,
                    )
                },
            },
    {
        let ghost s0 = self@;
        let op = self.program[self.ip].0;
        match op {
            OpCode::OpConstant(idx) => {
                assert(inst_wf(s0.program[s0.ip], s0.constants.len() as int));
                let v = self.constants.index(idx);
                self.push_fresh(v)
            },
            OpCode::OpNil => self.push_fresh(Value::Nil),
            OpCode::OpTrue => self.push_fresh(Value::Boolean(true)),
            OpCode::OpFalse => self.push_fresh(Value::Boolean(false)),
            OpCode::OpReturn => {
                match self.stack.pop() {
                    Ok(_) => {
                        self.advance_ip();
                        assert(spec_step(s0) == StepOutcome::Next(self@)) by {
                            assert(self@ =~= advanced(s0, s0.stack.drop_last(), s0.strings));
                        }
                        Ok(())
                    },
                    Err(e) => {
                        proof {
                            assert(self@.stack =~= s0.stack.subrange(0, self@.stack.len() as int));
                        }
                        Err(InterpretError::from_stack_err(e))
                    },
                }
            },
            OpCode::OpNegate => {
                let a = match self.stack.pop() {
                    Ok(a) => a,
                    Err(e) => {
                        proof {
                            assert(self@.stack =~= s0.stack.subrange(0, self@.stack.len() as int));
                        }
                        return Err(InterpretError::from_stack_err(e));
                    },
                };
                match a.neg() {
                    Ok(v) => {
                        let _ = self.stack.push(v);
                        self.advance_ip();
                        assert(spec_step(s0) == StepOutcome::Next(self@)) by {
                            assert(self@ =~= advanced(
                                s0,
                                s0.stack.drop_last().push(v),
                                s0.strings,
                            ));
                        }
                        Ok(())
                    },
                    Err(_) => {
                        proof {
                            assert(self@.stack =~= s0.stack.subrange(0, self@.stack.len() as int));
                        }
                        Err(InterpretError::runtime_error("Negation err"))
                    },
                }
            },
            OpCode::OpNot => {
                let a = match self.stack.pop() {
                    Ok(a) => a,
                    Err(e) => {
                        proof {
                            assert(self@.stack =~= s0.stack.subrange(0, self@.stack.len() as int));
                        }
                        return Err(InterpretError::from_stack_err(e));
                    },
                };
                let b = self.not_value(&a);
                let _ = self.stack.push(Value::Boolean(b));
                self.advance_ip();
                assert(spec_step(s0) == StepOutcome::Next(self@)) by {
                    assert(self@ =~= advanced(
                        s0,
                        s0.stack.drop_last().push(Value::Boolean(b)),
                        s0.strings,
                    ));
                }
                Ok(())
            },
            _ => self.binary_step(op, Ghost(s0)),
        }
    }

    /// Push a value that is not derived from popped operands: the only kind
    /// of step that can overflow the stack.
    fn push_fresh(&mut self, v: Value) -> (r: InterpretResult)
        requires
            old(self).wf(),
            old(self)@.ip < old(self)@.program.len(),
            value_wf(v, old(self)@.strings.len() as int),
            spec_step(old(self)@) == spec_push_step(old(self)@, v),
        ensures
            final(self).wf(),
            final(self)@.program == old(self)@.program,
            final(self)@.constants == old(self)@.constants,
            match r {
                Ok(()) => spec_step(old(self)@) == StepOutcome::Next(final(self)@),
                Err(e) => {
                    &&& spec_step(old(self)@) == StepOutcome::Fail(e.msg@)
                    &&& e.error == InterpretErrorType::Runtime
                    &&& final(self)@.strings == old(self)@.strings
                    &&& final(self)@.ip == old(self)@.ip
                    &&& final(self)@.stack == old(self)@.stack.subrange(
                        0,
                        final(self)@.stack.len() as int,
                    )
                    &&& old(self)@.stack.len() - final(self)@.stack.len() <= op_pops(
                        old(self)@.program[old(self)@.ip].0,
                    )
                },
            },
    {
        let ghost s0 = self@;
        match self.stack.push(v) {
            Ok(()) => {
                self.advance_ip();
                assert(spec_step(s0) == StepOutcome::Next(self@)) by {
                    assert(self@ =~= advanced(s0, s0.stack.push(v), s0.strings));
                }
                Ok(())
            },
            Err(e) => {
                proof {
                    assert(self@.stack =~= s0.stack.subrange(0, self@.stack.len() as int));
                }
                Err(InterpretError::from_stack_err(e))
            },
        }
    }

    /// Logical not of one value against this machine's string table.
    fn not_value(&self, v: &Value) -> (r: bool)
        requires
            value_wf(*v, self@.strings.len() as int),
        ensures
            r == spec_not_value(*v, self@.strings),
    {
        match v {
            Value::Float(x) => is_zero_bits(*x),
            Value::Boolean(b) => !*b,
            Value::Nil => true,
            Value::Obj(Object::StringObject(i)) => {
                let r = self.strings[*i].as_str().unicode_len() == 0;
                assert(self.strings.deep_view()[*i as int] == self.strings@[*i as int]@);
                r
            },
        }
    }

    /// One binary step: pop the right operand, then the left, and dispatch.
    fn binary_step(&mut self, op: OpCode, Ghost(s0): Ghost<VMState>) -> (r: InterpretResult)
        requires
            old(self).wf(),
            old(self)@ == s0,
            s0.ip < s0.program.len(),
            s0.program[s0.ip].0 == op,
            matches!(op, OpCode::OpAdd | OpCode::OpSubtract | OpCode::OpMultiply
                | OpCode::OpDivide | OpCode::OpEqual | OpCode::OpNotEqual | OpCode::OpLess
                | OpCode::OpLessEqual | OpCode::OpGreater | OpCode::OpGreaterEqual),
        ensures
            final(self).wf(),
            final(self)@.program == old(self)@.program,
            final(self)@.constants == old(self)@.constants,
            match r {
                Ok(()) => spec_step(old(self)@) == StepOutcome::Next(final(self)@),
                Err(e) => {
                    &&& spec_step(old(self)@) == StepOutcome::Fail(e.msg@)
                    &&& e.error == InterpretErrorType::Runtime
                    &&& final(self)@.strings == old(self)@.strings
                    &&& final(self)@.ip == old(self)@.ip
                    &&& final(self)@.stack == old(self)@.stack.subrange(
                        0,
                        final(self)@.stack.len() as int,
                    )
                    &&& old(self)@.stack.len() - final(self)@.stack.len() <= op_pops(
                        old(self)@.program[old(self)@.ip].0,
                    )
                },
            },
    {
        let ghost n = s0.stack.len() as int;
        let b = match self.stack.pop() {
            Ok(b) => b,
            Err(e) => {
                proof {
                    assert(self@.stack =~= s0.stack.subrange(0, self@.stack.len() as int));
                }
                return Err(InterpretError::from_stack_err(e));
            },
        };
        let a = match self.stack.pop() {
            Ok(a) => a,
            Err(e) => {
                proof {
                    assert(self@.stack =~= s0.stack.subrange(0, self@.stack.len() as int));
                }
                return Err(InterpretError::from_stack_err(e));
            },
        };
        proof {
            assert(a == s0.stack[n - 2] && b == s0.stack[n - 1]);
            assert(self@.stack =~= s0.stack.take(n - 2));
        }
        let result: Value = match op {
            OpCode::OpAdd => {
                if a.is_string_object() && b.is_string_object() {
                    return self.concat_step(&a, &b, Ghost(s0));
                }
                match a.add(b) {
                    Ok(v) => v,
                    Err(_) => {
                        proof {
                            assert(self@.stack =~= s0.stack.subrange(0, self@.stack.len() as int));
                        }
                        return Err(InterpretError::runtime_error("Addition err"));
                    },
                }
            },
            OpCode::OpSubtract => match a.sub(b) {
                Ok(v) => v,
                Err(_) => {
                    proof {
                        assert(self@.stack =~= s0.stack.subrange(0, self@.stack.len() as int));
                    }
                    return Err(InterpretError::runtime_error("Subtraction err"));
                },
            },
            OpCode::OpMultiply => match a.mul(b) {
                Ok(v) => v,
                Err(_) => {
                    proof {
                        assert(self@.stack =~= s0.stack.subrange(0, self@.stack.len() as int));
                    }
                    return Err(InterpretError::runtime_error("Multiply err"));
                },
            },
            OpCode::OpDivide => match a.div(b) {
                Ok(v) => v,
                Err(e) => {
                    proof {
                        assert(self@.stack =~= s0.stack.subrange(0, self@.stack.len() as int));
                    }
                    if e.divide_by_zero {
                        return Err(InterpretError::runtime_error("Divide by zero"));
                    } else {
                        return Err(InterpretError::runtime_error("Division err"));
                    }
                },
            },
            OpCode::OpEqual => Value::Boolean(self.equal_values(&a, &b)),
            OpCode::OpNotEqual => Value::Boolean(!self.equal_values(&a, &b)),
            _ => {
                let ord = a.compare(b);
                match ord {
                    None => {
                        proof {
                            assert(self@.stack =~= s0.stack.subrange(0, self@.stack.len() as int));
                        }
                        return Err(InterpretError::runtime_error("Cannot compare the two types"));
                    },
                    Some(o) => Value::Boolean(
                        match op {
                            OpCode::OpLess => matches!(o, core::cmp::Ordering::Less),
                            OpCode::OpLessEqual => !matches!(o, core::cmp::Ordering::Greater),
                            OpCode::OpGreater => matches!(o, core::cmp::Ordering::Greater),
                            _ => !matches!(o, core::cmp::Ordering::Less),
                        },
                    ),
                }
            },
        };
        let _ = self.stack.push(result);
        self.advance_ip();
        assert(spec_step(s0) == StepOutcome::Next(self@)) by {
            assert(self@ =~= advanced(s0, s0.stack.take(n - 2).push(result), s0.strings));
        }
        Ok(())
    }

    /// Concatenate the two interned strings the operands refer to, intern
    /// the result as a fresh entry, and push a reference to it.
    fn concat_step(&mut self, a: &Value, b: &Value, Ghost(s0): Ghost<VMState>) -> (r:
        InterpretResult)
        requires
            s0.ip < s0.program.len(),
            s0.program[s0.ip].0 == OpCode::OpAdd,
            s0.stack.len() >= 2,
            wf_state(s0),
            *a == s0.stack[s0.stack.len() - 2],
            *b == s0.stack[s0.stack.len() - 1],
            spec_string_ref(*a) is Some,
            spec_string_ref(*b) is Some,
            old(self)@ == (VMState { stack: s0.stack.take(s0.stack.len() - 2), ..s0 }),
        ensures
            final(self).wf(),
            final(self)@.program == old(self)@.program,
            final(self)@.constants == old(self)@.constants,
            r is Ok,
            spec_step(s0) == StepOutcome::Next(final(self)@),
    {
        let i = match a.get_string_ref() {
            Some(i) => i,
            None => { return Err(InterpretError::runtime_error("Addition err")); },
        };
        let j = match b.get_string_ref() {
            Some(j) => j,
            None => { return Err(InterpretError::runtime_error("Addition err")); },
        };
        proof {
            assert(value_wf(s0.stack[s0.stack.len() - 2], s0.strings.len() as int));
            assert(value_wf(s0.stack[s0.stack.len() - 1], s0.strings.len() as int));
            assert(self.strings.deep_view()[i as int] == self.strings@[i as int]@);
            assert(self.strings.deep_view()[j as int] == self.strings@[j as int]@);
        }
        let mut combined = self.strings[i].clone();
        combined.append(self.strings[j].as_str());
        let fresh = self.strings.len();
        self.strings.push(combined);
        proof {
            assert(self.strings.deep_view() =~= s0.strings.push(
                s0.strings[spec_string_ref(*a).unwrap() as int]
                    + s0.strings[spec_string_ref(*b).unwrap() as int],
            ));
        }
        let _ = self.stack.push(Value::new_string(fresh));
        self.advance_ip();
        assert(spec_step(s0) == StepOutcome::Next(self@)) by {
            let ghost n = s0.stack.len() as int;
            assert(self@ =~= advanced(
                s0,
                s0.stack.take(n - 2).push(
                    Value::Obj(Object::StringObject(s0.strings.len() as usize)),
                ),
                s0.strings.push(
                    s0.strings[spec_string_ref(*a).unwrap() as int]
                        + s0.strings[spec_string_ref(*b).unwrap() as int],
                ),
            ));
        }
        Ok(())
    }

    /// Equality of two values against this machine's string table: values of
    /// different tags are never equal, numbers compare as IEEE-754 values,
    /// string references compare by interned content.
    fn equal_values(&self, a: &Value, b: &Value) -> (r: bool)
        requires
            value_wf(*a, self@.strings.len() as int),
            value_wf(*b, self@.strings.len() as int),
        ensures
            r == spec_equal_values(*a, *b, self@.strings),
    {
        match (a, b) {
            (Value::Float(x), Value::Float(y)) => crate::numeric::eq_bits(*x, *y),
            (Value::Boolean(p), Value::Boolean(q)) => *p == *q,
            (Value::Nil, Value::Nil) => true,
            (Value::Obj(Object::StringObject(i)), Value::Obj(Object::StringObject(j))) => {
                let r = self.strings[*i].eq(&self.strings[*j]);
                assert(self.strings.deep_view()[*i as int] == self.strings@[*i as int]@);
                assert(self.strings.deep_view()[*j as int] == self.strings@[*j as int]@);
                r
            },
            _ => false,
        }
    }

    /// The value on top of the operand stack, if any: how an embedding
    /// caller observes the result that Return is about to consume.
    pub fn stack_top(&self) -> (r: Option<Value>)
        ensures
            self@.stack.len() > 0 ==> r == Some(self@.stack.last()),
            self@.stack.len() == 0 ==> r is None,
    {
        self.stack.top()
    }

    /// Execute the program to its end or to the first runtime error. On
    /// success the instruction pointer has retired every instruction; on
    /// failure execution stopped at the failing one with its message.
    pub fn run(&mut self) -> (r: InterpretResult)
        requires
            old(self).wf(),
        ensures
            final(self).wf(),
            match r {
                Ok(()) => spec_run(old(self)@) == Ok::<VMState, Seq<char>>(final(self)@)
                    && final(self)@.ip == final(self)@.program.len(),
                Err(e) => spec_run(old(self)@) == Err::<VMState, Seq<char>>(e.msg@)
                    && e.error == InterpretErrorType::Runtime,
            },
    {
        loop
            invariant
                self.wf(),
                spec_run(old(self)@) == spec_run(self@),
            decreases self@.program.len() - self@.ip,
        {
            if self.ip >= self.program.len() {
                return Ok(());
            }
            let ghost pre = self@;
            match self.step() {
                Ok(()) => {
                    proof {
                        assert(spec_step(pre) == StepOutcome::Next(self@));
                        assert(self@.ip == pre.ip + 1 && self@.program == pre.program);
                    }
                },
                Err(e) => {
                    return Err(e);
                },
            }
        }
    }
}

/// One step of a machine whose stack holds at least what the next opcode
/// pops cannot underflow; on success the stack height moves by the opcode's
/// net effect and the pointer by exactly one.
pub proof fn lemma_step_heights(s: VMState)
    requires
        0 <= s.ip < s.program.len(),
        s.stack.len() >= op_pops(s.program[s.ip].0),
    ensures
        match spec_step(s) {
            StepOutcome::Next(s2) => {
                &&& s2.stack.len() == s.stack.len() + op_effect(s.program[s.ip].0)
                &&& s2.ip == s.ip + 1
                &&& s2.program == s.program
            },
            StepOutcome::Fail(m) => m != "Stack underflow"@,
        },
{
    reveal_strlit("Stack underflow");
    reveal_strlit("Stack overflow");
    reveal_strlit("Negation err");
    reveal_strlit("Addition err");
    reveal_strlit("Subtraction err");
    reveal_strlit("Multiply err");
    reveal_strlit("Division err");
    reveal_strlit("Divide by zero");
    reveal_strlit("Cannot compare the two types");
    assert("Stack overflow"@.len() == 14 && "Stack underflow"@.len() == 15);
    assert("Subtraction err"@[1] == 'u' && "Stack underflow"@[1] == 't');
}

/// Stack discipline of a compiled expression: a balanced body and a single
/// trailing Return, executed from a stack whose height matches the retired
/// prefix, either runs to completion leaving the stack empty (Return itself
/// consumed the one residual value), or stops with an error that is never a
/// stack underflow.
pub proof fn lemma_stack_discipline(s: VMState)
    requires
        s.program.len() >= 1,
        s.program.last().0 == OpCode::OpReturn,
        balanced_expr(s.program.drop_last()),
        0 <= s.ip <= s.program.len(),
        s.stack.len() == net_effect(s.program.take(s.ip)),
    ensures
        match spec_run(s) {
            Ok(f) => f.stack.len() == 0,
            Err(m) => m != "Stack underflow"@,
        },
    decreases s.program.len() - s.ip,
{
    let n = s.program.len() as int;
    let expr = s.program.drop_last();
    if s.ip >= n {
        assert(s.program.take(n) =~= s.program);
        assert(s.program =~= expr.push(s.program.last()));
        lemma_net_effect_push(expr, s.program.last());
        assert(s.stack.len() == 0);
    } else {
        let inst = s.program[s.ip];
        let op = inst.0;
        assert(s.program.take(s.ip + 1) =~= s.program.take(s.ip).push(inst));
        lemma_net_effect_push(s.program.take(s.ip), inst);
        if s.ip < n - 1 {
            assert(s.program.take(s.ip + 1) =~= expr.take(s.ip + 1));
            assert(net_effect(expr.take(s.ip + 1)) >= 1);
            assert(op_pushes(op) <= 1);
            assert(s.stack.len() >= op_pops(op));
        } else {
            assert(s.program.take(n - 1) =~= expr);
            assert(s.stack.len() == 1);
            assert(op == OpCode::OpReturn);
        }
        lemma_step_heights(s);
        match spec_step(s) {
            StepOutcome::Next(s2) => {
                assert(s2.program.take(s2.ip) =~= s.program.take(s.ip + 1));
                lemma_stack_discipline(s2);
            },
            StepOutcome::Fail(_) => {},
        }
    }
}

} // verus!

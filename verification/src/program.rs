//! The bytecode representation: opcodes, instructions, programs.

use vstd::prelude::*;

verus! {

/// One operation of the virtual machine. `OpConstant` carries the index of a
/// constant-pool entry to push; every other opcode works on the stack alone.
/// The closed set mirrors the expression language: literal pushes, unary
/// negate/not, the four arithmetic operators, and the six comparisons.
#[derive(Debug, Clone, Copy, PartialEq, Eq, Structural)]
pub enum OpCode {
    OpReturn,
    OpAdd,
    OpNegate,
    OpSubtract,
    OpMultiply,
    OpDivide,
    OpConstant(usize),
    OpNil,
    OpTrue,
    OpFalse,
    OpNot,
    OpEqual,
    OpGreater,
    OpGreaterEqual,
    OpLess,
    OpLessEqual,
    OpNotEqual,
}

/// An opcode together with the source line it was compiled from; the line is
/// carried for diagnostics only and never affects execution.
pub type Instruction = (OpCode, usize);

/// An ordered, append-only sequence of instructions: the unit the virtual
/// machine executes.
pub type Program = Vec<Instruction>;

/// Every constant index in the instruction addresses the pool.
pub open spec fn inst_wf(inst: Instruction, nconsts: int) -> bool {
    match inst.0 {
        OpCode::OpConstant(idx) => idx < nconsts,
        _ => true,
    }
}

/// Every instruction of the program addresses only the pool it runs with.
pub open spec fn program_wf(program: Seq<Instruction>, nconsts: int) -> bool {
    forall|i: int| 0 <= i < program.len() ==> inst_wf(program[i], nconsts)
}

/// How many operands an opcode pops.
pub open spec fn op_pops(op: OpCode) -> int {
    match op {
        OpCode::OpReturn => 1,
        OpCode::OpNegate | OpCode::OpNot => 1,
        OpCode::OpAdd | OpCode::OpSubtract | OpCode::OpMultiply | OpCode::OpDivide
            | OpCode::OpEqual | OpCode::OpNotEqual | OpCode::OpGreater | OpCode::OpGreaterEqual
            | OpCode::OpLess | OpCode::OpLessEqual => 2,
        OpCode::OpConstant(_) | OpCode::OpNil | OpCode::OpTrue | OpCode::OpFalse => 0,
    }
}

/// How many results an opcode pushes.
pub open spec fn op_pushes(op: OpCode) -> int {
    match op {
        OpCode::OpReturn => 0,
        _ => 1,
    }
}

/// The net change an opcode makes to the stack's height.
pub open spec fn op_effect(op: OpCode) -> int {
    op_pushes(op) - op_pops(op)
}

/// The net change a whole instruction sequence makes to the stack's height.
pub open spec fn net_effect(code: Seq<Instruction>) -> int
    decreases code.len(),
{
    if code.len() == 0 {
        0
    } else {
        net_effect(code.drop_last()) + op_effect(code.last().0)
    }
}

/// The code of a complete expression: it grows the stack by exactly one
/// value, and every non-empty prefix has grown it by at least one — so no
/// opcode in it ever finds fewer operands than it pops.
pub open spec fn balanced_expr(code: Seq<Instruction>) -> bool {
    &&& net_effect(code) == 1
    &&& forall|i: int| 0 < i <= code.len() ==> net_effect(#[trigger] code.take(i)) >= 1
}

/// Code that turns the one value of a complete expression into another: net
/// change zero, and no prefix consumes more than it has produced.
pub open spec fn balanced_extension(code: Seq<Instruction>) -> bool {
    &&& net_effect(code) == 0
    &&& forall|i: int| 0 < i <= code.len() ==> net_effect(#[trigger] code.take(i)) >= 0
}

/// Appending one instruction adds its effect.
pub proof fn lemma_net_effect_push(a: Seq<Instruction>, inst: Instruction)
    ensures
        net_effect(a.push(inst)) == net_effect(a) + op_effect(inst.0),
{
    assert(a.push(inst).drop_last() =~= a);
}

/// A right operand's code and the binary opcode that consumes it extend the
/// left operand's value in place.
pub proof fn lemma_extension_from_operand(b: Seq<Instruction>, inst: Instruction)
    requires
        balanced_expr(b),
        op_effect(inst.0) == -1,
    ensures
        balanced_extension(b.push(inst)),
{
    let whole = b.push(inst);
    assert(whole.drop_last() =~= b);
    assert forall|i: int| 0 < i <= whole.len() implies net_effect(#[trigger] whole.take(i))
        >= 0 by {
        if i <= b.len() {
            assert(whole.take(i) =~= b.take(i));
        } else {
            assert(whole.take(i) =~= whole);
        }
    }
}

/// A complete expression's code followed by an extension is again a complete
/// expression's code.
pub proof fn lemma_balanced_extend(a: Seq<Instruction>, b: Seq<Instruction>)
    requires
        balanced_expr(a),
        balanced_extension(b),
    ensures
        balanced_expr(a + b),
{
    let whole = a + b;
    lemma_net_effect_app(a, b);
    assert forall|i: int| 0 < i <= whole.len() implies net_effect(#[trigger] whole.take(i))
        >= 1 by {
        if i <= a.len() {
            assert(whole.take(i) =~= a.take(i));
        } else {
            assert(whole.take(i) =~= a + b.take(i - a.len()));
            lemma_net_effect_app(a, b.take(i - a.len()));
        }
    }
}

/// Net effects add up over concatenation.
pub proof fn lemma_net_effect_app(a: Seq<Instruction>, b: Seq<Instruction>)
    ensures
        net_effect(a + b) == net_effect(a) + net_effect(b),
    decreases b.len(),
{
    if b.len() == 0 {
        assert(a + b =~= a);
    } else {
        lemma_net_effect_app(a, b.drop_last());
        assert((a + b).drop_last() =~= a + b.drop_last());
        assert((a + b).last() == b.last());
    }
}

/// One pushing opcode is itself a complete expression's code.
pub proof fn lemma_balanced_single(inst: Instruction)
    requires
        op_effect(inst.0) == 1,
    ensures
        balanced_expr(seq![inst]),
{
    let s = seq![inst];
    assert(net_effect(Seq::<Instruction>::empty()) == 0);
    assert(s.drop_last() =~= Seq::<Instruction>::empty());
    assert(s.last() == inst);
    assert(net_effect(s) == 1);
    assert forall|i: int| 0 < i <= s.len() implies net_effect(#[trigger] s.take(i)) >= 1 by {
        assert(s.take(i) =~= s);
    }
}

/// A complete expression's code followed by a unary opcode is again one.
pub proof fn lemma_balanced_unary(a: Seq<Instruction>, inst: Instruction)
    requires
        balanced_expr(a),
        op_effect(inst.0) == 0,
    ensures
        balanced_expr(a.push(inst)),
{
    let whole = a.push(inst);
    assert(whole.drop_last() =~= a);
    assert forall|i: int| 0 < i <= whole.len() implies net_effect(#[trigger] whole.take(i))
        >= 1 by {
        if i <= a.len() {
            assert(whole.take(i) =~= a.take(i));
        } else {
            assert(whole.take(i) =~= whole);
        }
    }
}

/// Two complete expressions' code followed by a binary opcode is again one.
pub proof fn lemma_balanced_join(a: Seq<Instruction>, b: Seq<Instruction>, inst: Instruction)
    requires
        balanced_expr(a),
        balanced_expr(b),
        op_effect(inst.0) == -1,
    ensures
        balanced_expr((a + b).push(inst)),
{
    let ab = a + b;
    let whole = ab.push(inst);
    lemma_net_effect_app(a, b);
    assert(whole.drop_last() =~= ab);
    assert forall|i: int| 0 < i <= whole.len() implies net_effect(#[trigger] whole.take(i))
        >= 1 by {
        if i <= a.len() {
            assert(whole.take(i) =~= a.take(i));
        } else if i <= ab.len() {
            assert(whole.take(i) =~= a + b.take(i - a.len()));
            lemma_net_effect_app(a, b.take(i - a.len()));
        } else {
            assert(whole.take(i) =~= whole);
        }
    }
}

} // verus!

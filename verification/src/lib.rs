//! A two-stage evaluator for a small arithmetic/boolean expression language:
//! a lexer and single-pass Pratt compiler that produce a linear bytecode
//! program with a constant pool, and a stack-based virtual machine that
//! executes that program to a final value.

use vstd::prelude::*;

pub mod compiler;
pub mod constants;
pub mod numeric;
pub mod precedence;
pub mod program;
pub mod stack;
pub mod tokenizer;
pub mod value;
pub mod vm;

use crate::compiler::Compiler;
use crate::compiler::CompilerErrors;
use crate::compiler::spec_binary_opcode;
use crate::program::net_effect;
use crate::program::Instruction;
use crate::program::OpCode;
use crate::tokenizer::SpecScan;
use crate::tokenizer::TokenType;
use crate::tokenizer::Tokenizer;
use crate::tokenizer::spec_scan;
use crate::tokenizer::spec_trim_from;
use crate::value::Value;
use crate::numeric::spec_div_bits;
use crate::numeric::spec_is_zero_bits;
use crate::numeric::spec_parse_double_bits;
use crate::vm::InterpretError;
use crate::vm::InterpretErrorType;
use crate::vm::StepOutcome;
use crate::vm::VM;
use crate::vm::VMState;
use crate::vm::advanced;
use crate::vm::lemma_stack_discipline;
use crate::vm::spec_run;
use crate::vm::spec_step;

verus! {

/// Why an interpretation failed: compilation recorded errors — in which case
/// execution never started — or execution stopped on a runtime error.
pub enum InterpretFailure {
    Compile(CompilerErrors),
    Runtime(InterpretError),
}

/// Compile one source text and, only when compilation recorded no error,
/// execute it to completion.
///
/// A compile failure carries every recorded error, and there is at least
/// one. A runtime failure carries the error that stopped the machine — and,
/// because the compiler only emits balanced programs, that error is never a
/// stack underflow: the stack can overrun its capacity or an operator can
/// meet the wrong operand types, but no opcode ever finds its operands
/// missing.
pub fn interpret(source: &[char]) -> (r: Result<(), InterpretFailure>)
    ensures
        match r {
            Ok(()) => true,
            Err(InterpretFailure::Compile(es)) => es@.len() > 0,
            Err(InterpretFailure::Runtime(e)) => e.error == InterpretErrorType::Runtime
                && e.msg@ != "Stack underflow"@,
        },
        spec_scan(source@, 0) == SpecScan::EndScan ==> (r matches Err(
            InterpretFailure::Compile(es),
        ) && es@.len() == 1 && es@.last().spec_content() == "Expect expression."@
            && es@.last().spec_token() is None),
        spec_scan(source@, 0) matches SpecScan::TokenScan(tt, token_end) ==> ((tt
            == TokenType::NumericLiteral && spec_scan(source@, token_end) == SpecScan::EndScan
            && spec_parse_double_bits(
            source@.subrange(spec_trim_from(source@, 0), token_end),
        ) is Some) ==> r is Ok),
        match spec_scan(source@, 0) {
            SpecScan::TokenScan(t1k, num1_end) => (t1k == TokenType::NumericLiteral)
                ==> (match spec_scan(source@, num1_end) {
                SpecScan::TokenScan(opk, op_end) => (opk == TokenType::Slash) ==> (match spec_scan(
                    source@,
                    op_end,
                ) {
                    SpecScan::TokenScan(t2k, num2_end) => (t2k == TokenType::NumericLiteral
                        && spec_scan(source@, num2_end) == SpecScan::EndScan) ==> (match (
                        spec_parse_double_bits(
                            source@.subrange(spec_trim_from(source@, 0), num1_end),
                        ),
                        spec_parse_double_bits(
                            source@.subrange(spec_trim_from(source@, op_end), num2_end),
                        ),
                    ) {
                        (Some(b1), Some(b2)) => if spec_is_zero_bits(b2) {
                            r matches Err(InterpretFailure::Runtime(e)) && e.msg@
                                == "Divide by zero"@
                        } else {
                            r is Ok
                        },
                        _ => true,
                    }),
                    _ => true,
                }),
                _ => true,
            }),
            _ => true,
        },
        match spec_scan(source@, 0) {
            SpecScan::TokenScan(lpk, lp_end) => (lpk == TokenType::LeftParen) ==> (match spec_scan(
                source@,
                lp_end,
            ) {
                SpecScan::TokenScan(t1k, num1_end) => (t1k == TokenType::NumericLiteral)
                    ==> (match spec_scan(source@, num1_end) {
                    SpecScan::TokenScan(k1, op_end) => (spec_binary_opcode(k1) is Some)
                        ==> (match spec_scan(source@, op_end) {
                        SpecScan::TokenScan(k2, num2_end) => (k2 == TokenType::NumericLiteral
                            && spec_scan(source@, num2_end) == SpecScan::EndScan
                            && spec_parse_double_bits(
                            source@.subrange(spec_trim_from(source@, lp_end), num1_end),
                        ) is Some && spec_parse_double_bits(
                            source@.subrange(spec_trim_from(source@, op_end), num2_end),
                        ) is Some) ==> (r matches Err(InterpretFailure::Compile(es)) && es@.len()
                            == 1 && es@.last().spec_content() == "Expect ')' after expression"@
                            && es@.last().spec_token() is None),
                        _ => true,
                    }),
                    _ => true,
                }),
                _ => true,
            }),
            _ => true,
        },
{
    let tokenizer = Tokenizer::new(source);
    let mut compiler = Compiler::new(source, tokenizer);
    compiler.compile();
    if compiler.has_error() {
        return Err(InterpretFailure::Compile(compiler.take_errors()));
    }
    proof {
        assert(compiler.spec_program().skip(0) =~= compiler.spec_program());
    }
    let (program, constants) = compiler.into_parts();
    let mut vm = VM::new(program, constants);
    proof {
        assert(vm@.program.take(0) =~= Seq::<Instruction>::empty());
        assert(net_effect(Seq::<Instruction>::empty()) == 0);
        lemma_stack_discipline(vm@);
        if let SpecScan::TokenScan(t1k, num1_end) = spec_scan(source@, 0) {
            if let SpecScan::TokenScan(opk, op_end) = spec_scan(source@, num1_end) {
                if let SpecScan::TokenScan(t2k, num2_end) = spec_scan(source@, op_end) {
                    if t1k == TokenType::NumericLiteral && opk == TokenType::Slash && t2k
                        == TokenType::NumericLiteral && spec_scan(source@, num2_end)
                        == SpecScan::EndScan {
                        if let (Some(b1), Some(b2)) = (
                            spec_parse_double_bits(
                                source@.subrange(spec_trim_from(source@, 0), num1_end),
                            ),
                            spec_parse_double_bits(
                                source@.subrange(spec_trim_from(source@, op_end), num2_end),
                            ),
                        ) {
                            // Two constant pushes, the division, and Return:
                            // four steps, halting on a zero divisor exactly
                            // at the division.
                            let s0 = vm@;
                            assert(s0.program.len() == 4 && s0.program[0].0 == OpCode::OpConstant(
                                0,
                            ) && s0.program[1].0 == OpCode::OpConstant(1) && s0.program[2].0
                                == OpCode::OpDivide && s0.program[3].0 == OpCode::OpReturn
                                && s0.stack.len() == 0 && s0.ip == 0 && s0.constants.len() == 2
                                && s0.constants[0] == Value::Float(b1) && s0.constants[1]
                                == Value::Float(b2));
                            let s1 = advanced(s0, s0.stack.push(s0.constants[0]), s0.strings);
                            assert(spec_step(s0) == StepOutcome::Next(s1));
                            let s2 = advanced(s1, s1.stack.push(s1.constants[1]), s1.strings);
                            assert(spec_step(s1) == StepOutcome::Next(s2));
                            assert(s2.stack[0] == Value::Float(b1) && s2.stack[1] == Value::Float(
                                b2,
                            ) && s2.stack.len() == 2);
                            if spec_is_zero_bits(b2) {
                                assert(spec_step(s2) == StepOutcome::Fail("Divide by zero"@));
                                assert(spec_run(s0) == spec_run(s1));
                                assert(spec_run(s1) == spec_run(s2));
                                assert(spec_run(s2) == Err::<VMState, Seq<char>>(
                                    "Divide by zero"@,
                                ));
                            } else {
                                let s3 = advanced(
                                    s2,
                                    s2.stack.take(0).push(Value::Float(spec_div_bits(b1, b2))),
                                    s2.strings,
                                );
                                assert(spec_step(s2) == StepOutcome::Next(s3));
                                let s4 = advanced(s3, s3.stack.drop_last(), s3.strings);
                                assert(spec_step(s3) == StepOutcome::Next(s4));
                                assert(spec_run(s4) == Ok::<VMState, Seq<char>>(s4));
                                assert(spec_run(s0) == spec_run(s1) && spec_run(s1) == spec_run(
                                    s2,
                                ) && spec_run(s2) == spec_run(s3) && spec_run(s3) == spec_run(
                                    s4,
                                ));
                                assert(spec_run(s0) is Ok);
                            }
                        }
                    }
                }
            }
        }
        if let SpecScan::TokenScan(tt, token_end) = spec_scan(source@, 0) {
            if tt == TokenType::NumericLiteral && spec_scan(source@, token_end)
                == SpecScan::EndScan && spec_parse_double_bits(
                source@.subrange(spec_trim_from(source@, 0), token_end),
            ) is Some {
                // One constant push and one Return: the run is two steps to a
                // normal halt.
                let s0 = vm@;
                assert(s0.program.len() == 2 && s0.program[0].0 == OpCode::OpConstant(0)
                    && s0.program[1].0 == OpCode::OpReturn && s0.stack.len() == 0 && s0.ip
                    == 0 && s0.constants.len() == 1);
                let s1 = advanced(s0, s0.stack.push(s0.constants[0]), s0.strings);
                assert(spec_step(s0) == StepOutcome::Next(s1));
                let s2 = advanced(s1, s1.stack.drop_last(), s1.strings);
                assert(spec_step(s1) == StepOutcome::Next(s2));
                assert(spec_run(s2) == Ok::<VMState, Seq<char>>(s2));
                assert(spec_run(s1) == spec_run(s2));
                assert(spec_run(s0) == spec_run(s1));
                assert(spec_run(s0) is Ok);
            }
        }
    }
    match vm.run() {
        Ok(()) => Ok(()),
        Err(e) => Err(InterpretFailure::Runtime(e)),
    }
}

} // verus!

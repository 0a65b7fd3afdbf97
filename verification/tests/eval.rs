use rlox::compiler::Compiler;
use rlox::interpret;
use rlox::tokenizer::Tokenizer;
use rlox::value::Value;
use rlox::vm::VM;
use rlox::InterpretFailure;

fn compile_ok(src: &str) -> (Vec<(rlox::program::OpCode, usize)>, rlox::constants::Constants) {
    let chars: Vec<char> = src.chars().collect();
    let tokenizer = Tokenizer::new(&chars);
    let mut compiler = Compiler::new(&chars, tokenizer);
    compiler.compile();
    assert!(!compiler.has_error(), "unexpected compile error for {src}");
    compiler.into_parts()
}

/// Compile and execute up to (not including) the trailing Return, and hand
/// back the one value left for it.
fn eval(src: &str) -> Value {
    let (program, constants) = compile_ok(src);
    let steps = program.len() - 1;
    let mut vm = VM::new(program, constants);
    for _ in 0..steps {
        vm.step().unwrap();
    }
    vm.stack_top().expect("no result on the stack")
}

fn eval_num(src: &str) -> u64 {
    match eval(src) {
        Value::Float(bits) => bits,
        other => panic!("expected a number from {src}, got {other:?}"),
    }
}

fn eval_bool(src: &str) -> bool {
    match eval(src) {
        Value::Boolean(b) => b,
        other => panic!("expected a boolean from {src}, got {other:?}"),
    }
}

fn runtime_msg(src: &str) -> String {
    let chars: Vec<char> = src.chars().collect();
    match interpret(&chars) {
        Err(InterpretFailure::Runtime(e)) => e.msg,
        other => panic!("expected a runtime error from {src}, got {kind}", kind = match other {
            Ok(()) => "success",
            Err(InterpretFailure::Compile(_)) => "a compile error",
            Err(InterpretFailure::Runtime(_)) => unreachable!(),
        }),
    }
}

#[test]
fn numeric_literal_roundtrip_integer() {
    assert_eq!(eval_num("0"), 0.0f64.to_bits());
    assert_eq!(eval_num("1"), 1.0f64.to_bits());
    assert_eq!(eval_num("255"), 255.0f64.to_bits());
}

#[test]
fn numeric_literal_roundtrip_fraction() {
    assert_eq!(eval_num("3.5"), 3.5f64.to_bits());
    assert_eq!(eval_num("0.1"), 0.1f64.to_bits());
    assert_eq!(eval_num("123.456"), 123.456f64.to_bits());
}

#[test]
fn addition_matches_ieee() {
    assert_eq!(eval_num("0.1 + 0.2"), (0.1f64 + 0.2f64).to_bits());
    assert_eq!(eval_num("2 + 3"), 5.0f64.to_bits());
}

#[test]
fn division_yields_quotient() {
    assert_eq!(eval_num("10 / 4"), 2.5f64.to_bits());
    assert_eq!(eval_num("1 / 3"), (1.0f64 / 3.0f64).to_bits());
}

#[test]
fn division_by_zero_is_an_error_not_infinity() {
    assert_eq!(runtime_msg("1 / 0"), "Divide by zero");
    assert_eq!(runtime_msg("0 / 0"), "Divide by zero");
    assert_eq!(runtime_msg("3.5 / 0.0"), "Divide by zero");
}

#[test]
fn type_mismatch_is_an_error_not_a_coercion() {
    assert_eq!(runtime_msg("true + 1"), "Addition err");
    assert_eq!(runtime_msg("1 + true"), "Addition err");
    assert_eq!(runtime_msg("true + false"), "Addition err");
    assert_eq!(runtime_msg("1 - nil"), "Subtraction err");
    assert_eq!(runtime_msg("false * 2"), "Multiply err");
    assert_eq!(runtime_msg("nil / 2"), "Division err");
    assert_eq!(runtime_msg("-true"), "Negation err");
}

#[test]
fn truthiness_of_not() {
    assert_eq!(eval_bool("!nil"), true);
    assert_eq!(eval_bool("!0"), true);
    assert_eq!(eval_bool("!1"), false);
    assert_eq!(eval_bool("!false"), true);
    assert_eq!(eval_bool("!true"), false);
}

#[test]
fn factor_binds_tighter_than_term() {
    assert_eq!(eval_num("2 + 3 * 4"), 14.0f64.to_bits());
}

#[test]
fn grouping_overrides_precedence() {
    assert_eq!(eval_num("(2 + 3) * 4"), 20.0f64.to_bits());
}

#[test]
fn same_precedence_is_left_associative() {
    assert_eq!(eval_num("1 - 2 - 3"), (-4.0f64).to_bits());
    assert_eq!(eval_num("24 / 4 / 2"), 3.0f64.to_bits());
}

#[test]
fn unary_negation() {
    assert_eq!(eval_num("-5"), (-5.0f64).to_bits());
    assert_eq!(eval_num("-(2 + 3)"), (-5.0f64).to_bits());
    assert_eq!(eval_num("--4"), 4.0f64.to_bits());
}

#[test]
fn equality_across_tags_is_false() {
    assert_eq!(eval_bool("nil == false"), false);
    assert_eq!(eval_bool("1 == true"), false);
    assert_eq!(eval_bool("nil == 0"), false);
    assert_eq!(eval_bool("nil != false"), true);
}

#[test]
fn equality_within_tags() {
    assert_eq!(eval_bool("1 == 1"), true);
    assert_eq!(eval_bool("1 == 2"), false);
    assert_eq!(eval_bool("nil == nil"), true);
    assert_eq!(eval_bool("true == true"), true);
    assert_eq!(eval_bool("true == false"), false);
    assert_eq!(eval_bool("1 != 2"), true);
}

#[test]
fn negative_zero_equals_zero() {
    assert_eq!(eval_bool("0 == -0"), true);
}

#[test]
fn comparisons_on_numbers() {
    assert_eq!(eval_bool("1 < 2"), true);
    assert_eq!(eval_bool("2 < 1"), false);
    assert_eq!(eval_bool("2 <= 2"), true);
    assert_eq!(eval_bool("3 > 4"), false);
    assert_eq!(eval_bool("4 > 3"), true);
    assert_eq!(eval_bool("1 >= 1"), true);
    assert_eq!(eval_bool("-1 < 1"), true);
}

#[test]
fn comparisons_on_other_tags_are_errors() {
    assert_eq!(runtime_msg("true < false"), "Cannot compare the two types");
    assert_eq!(runtime_msg("nil > 1"), "Cannot compare the two types");
}

#[test]
fn comparison_mixed_with_arithmetic() {
    assert_eq!(eval_bool("1 + 1 == 2"), true);
    assert_eq!(eval_bool("2 + 3 * 4 > 13"), true);
}

#[test]
fn comments_and_whitespace_are_skipped() {
    assert_eq!(eval_num(" 2 \t+\r 3 // trailing words"), 5.0f64.to_bits());
}

#[test]
fn missing_close_paren_is_one_compile_error_and_nothing_runs() {
    let chars: Vec<char> = "(1 + 2".chars().collect();
    match interpret(&chars) {
        Err(InterpretFailure::Compile(errors)) => {
            assert_eq!(errors.len(), 1);
            assert_eq!(errors[0].content(), "Expect ')' after expression");
            assert!(errors[0].token().is_none());
            assert_eq!(
                errors[0].describe(),
                "[line 0]: Error at end: Expect ')' after expression"
            );
        },
        _ => panic!("expected a compile failure"),
    }
}

#[test]
fn trailing_tokens_are_a_compile_error() {
    let chars: Vec<char> = "1 2".chars().collect();
    match interpret(&chars) {
        Err(InterpretFailure::Compile(errors)) => {
            assert_eq!(errors.len(), 1);
            assert_eq!(errors[0].content(), "Expected end of token stream");
        },
        _ => panic!("expected a compile failure"),
    }
}

#[test]
fn missing_expression_is_a_compile_error() {
    for src in ["", "+", "foo", ")"] {
        let chars: Vec<char> = src.chars().collect();
        match interpret(&chars) {
            Err(InterpretFailure::Compile(errors)) => {
                assert!(errors.len() >= 1, "no error for {src:?}");
                assert_eq!(errors[0].content(), "Expect expression.");
            },
            _ => panic!("expected a compile failure for {src:?}"),
        }
    }
}

#[test]
fn unterminated_string_is_a_compile_error() {
    let chars: Vec<char> = "\"abc".chars().collect();
    match interpret(&chars) {
        Err(InterpretFailure::Compile(errors)) => {
            assert_eq!(errors[0].content(), "Unterminated string literal");
        },
        _ => panic!("expected a compile failure"),
    }
}

#[test]
fn unrecognised_character_is_a_compile_error() {
    let chars: Vec<char> = "@".chars().collect();
    match interpret(&chars) {
        Err(InterpretFailure::Compile(errors)) => {
            assert_eq!(errors[0].content(), "Unrecognised token @");
        },
        _ => panic!("expected a compile failure"),
    }
}

#[test]
fn nesting_within_capacity_succeeds() {
    let mut src = String::new();
    for _ in 0..100 {
        src.push_str("1+(");
    }
    src.push('1');
    for _ in 0..100 {
        src.push(')');
    }
    let chars: Vec<char> = src.chars().collect();
    assert!(interpret(&chars).is_ok());
}

#[test]
fn nesting_beyond_capacity_is_a_stack_overflow() {
    let mut src = String::new();
    for _ in 0..300 {
        src.push_str("1+(");
    }
    src.push('1');
    for _ in 0..300 {
        src.push(')');
    }
    let chars: Vec<char> = src.chars().collect();
    match interpret(&chars) {
        Err(InterpretFailure::Runtime(e)) => assert_eq!(e.msg, "Stack overflow"),
        _ => panic!("expected a runtime stack overflow"),
    }
}

#[test]
fn successful_interpretation_returns_ok() {
    let chars: Vec<char> = "2 + 3 * 4 == 14".chars().collect();
    assert!(interpret(&chars).is_ok());
}

#[test]
fn unary_binds_tighter_than_term() {
    assert_eq!(eval_num("-2 + 3"), 1.0f64.to_bits());
    assert_eq!(eval_num("-2 * 3"), (-6.0f64).to_bits());
}

#[test]
fn equality_chains_left_associatively() {
    assert_eq!(eval_bool("1 == 2 == false"), true);
}

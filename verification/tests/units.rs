use rlox::constants::Constants;
use rlox::numeric::add_bits;
use rlox::numeric::div_bits;
use rlox::numeric::eq_bits;
use rlox::numeric::is_nan_bits;
use rlox::numeric::is_zero_bits;
use rlox::numeric::lt_bits;
use rlox::numeric::mul_bits;
use rlox::numeric::neg_bits;
use rlox::numeric::sub_bits;
use rlox::precedence::get_rule;
use rlox::precedence::InfixRule;
use rlox::precedence::Precedence;
use rlox::precedence::PrefixRule;
use rlox::precedence::Rule;
use rlox::stack::Stack;
use rlox::stack::StackError;
use rlox::stack::STACK_SIZE;
use rlox::tokenizer::Token;
use rlox::tokenizer::TokenType;
use rlox::tokenizer::Tokenizer;
use rlox::value::DivisionErr;
use rlox::value::OpErr;
use rlox::value::Value;

#[test]
fn soft_float_addition_matches_hardware() {
    let cases = [(1.5f64, 2.25f64), (0.1, 0.2), (-3.75, 3.75), (1e300, 1e300)];
    for (a, b) in cases {
        assert_eq!(add_bits(a.to_bits(), b.to_bits()), (a + b).to_bits());
    }
}

#[test]
fn soft_float_subtraction_matches_hardware() {
    assert_eq!(sub_bits(1.0f64.to_bits(), 2.0f64.to_bits()), (-1.0f64).to_bits());
    assert_eq!(sub_bits(0.3f64.to_bits(), 0.1f64.to_bits()), (0.3f64 - 0.1f64).to_bits());
}

#[test]
fn soft_float_multiplication_matches_hardware() {
    assert_eq!(mul_bits(3.0f64.to_bits(), 4.0f64.to_bits()), 12.0f64.to_bits());
    assert_eq!(mul_bits(0.1f64.to_bits(), 0.1f64.to_bits()), (0.1f64 * 0.1f64).to_bits());
}

#[test]
fn soft_float_division_matches_hardware() {
    assert_eq!(div_bits(1.0f64.to_bits(), 3.0f64.to_bits()), (1.0f64 / 3.0f64).to_bits());
    assert_eq!(div_bits(10.0f64.to_bits(), 4.0f64.to_bits()), 2.5f64.to_bits());
}

#[test]
fn bit_level_negation_flips_the_sign() {
    assert_eq!(neg_bits(5.0f64.to_bits()), (-5.0f64).to_bits());
    assert_eq!(neg_bits((-0.25f64).to_bits()), 0.25f64.to_bits());
    assert_eq!(neg_bits(0.0f64.to_bits()), (-0.0f64).to_bits());
}

#[test]
fn bit_level_zero_and_nan_tests() {
    assert!(is_zero_bits(0.0f64.to_bits()));
    assert!(is_zero_bits((-0.0f64).to_bits()));
    assert!(!is_zero_bits(1.0f64.to_bits()));
    assert!(is_nan_bits(f64::NAN.to_bits()));
    assert!(!is_nan_bits(f64::INFINITY.to_bits()));
}

#[test]
fn bit_level_equality_is_ieee_equality() {
    assert!(eq_bits(0.0f64.to_bits(), (-0.0f64).to_bits()));
    assert!(!eq_bits(f64::NAN.to_bits(), f64::NAN.to_bits()));
    assert!(eq_bits(1.5f64.to_bits(), 1.5f64.to_bits()));
    assert!(!eq_bits(1.0f64.to_bits(), 2.0f64.to_bits()));
}

#[test]
fn bit_level_ordering_is_ieee_ordering() {
    let pairs = [(1.0f64, 2.0f64), (-1.0, 1.0), (-2.0, -1.0), (0.0, 1.5)];
    for (a, b) in pairs {
        assert!(lt_bits(a.to_bits(), b.to_bits()));
        assert!(!lt_bits(b.to_bits(), a.to_bits()));
    }
    assert!(!lt_bits(0.0f64.to_bits(), (-0.0f64).to_bits()));
    assert!(!lt_bits((-0.0f64).to_bits(), 0.0f64.to_bits()));
}

#[test]
fn value_addition_only_on_numbers() {
    let two = Value::Float(2.0f64.to_bits());
    let three = Value::Float(3.0f64.to_bits());
    assert_eq!(two.add(three), Ok(Value::Float(5.0f64.to_bits())));
    assert_eq!(
        Value::Boolean(true).add(two),
        Err(rlox::value::AdditionErr(OpErr::BooleanFloatErr))
    );
    assert_eq!(
        two.add(Value::Boolean(true)),
        Err(rlox::value::AdditionErr(OpErr::FloatBooleanErr))
    );
    assert_eq!(
        Value::Boolean(true).add(Value::Nil),
        Err(rlox::value::AdditionErr(OpErr::BooleanErr))
    );
}

#[test]
fn value_division_reports_divide_by_zero() {
    let one = Value::Float(1.0f64.to_bits());
    let zero = Value::Float(0.0f64.to_bits());
    assert_eq!(one.div(zero), Err(DivisionErr { op_err: None, divide_by_zero: true }));
    assert_eq!(one.div(one), Ok(Value::Float(1.0f64.to_bits())));
    assert_eq!(
        one.div(Value::Nil),
        Err(DivisionErr { op_err: Some(OpErr::FloatBooleanErr), divide_by_zero: false })
    );
    assert_eq!(DivisionErr::divide_by_zero_err(), DivisionErr {
        op_err: None,
        divide_by_zero: true,
    });
}

#[test]
fn value_negation_only_on_numbers() {
    let five = Value::Float(5.0f64.to_bits());
    assert_eq!(five.neg(), Ok(Value::Float((-5.0f64).to_bits())));
    assert!(Value::Nil.neg().is_err());
    assert!(Value::Boolean(false).neg().is_err());
}

#[test]
fn value_string_helpers() {
    let s = Value::new_string(3);
    assert!(s.is_string_object());
    assert_eq!(s.get_string_ref(), Some(3));
    assert!(!Value::Nil.is_string_object());
    assert_eq!(Value::Float(0).get_string_ref(), None);
}

#[test]
fn value_comparison_is_partial() {
    let one = Value::Float(1.0f64.to_bits());
    let two = Value::Float(2.0f64.to_bits());
    assert_eq!(one.compare(two), Some(std::cmp::Ordering::Less));
    assert_eq!(two.compare(one), Some(std::cmp::Ordering::Greater));
    assert_eq!(one.compare(one), Some(std::cmp::Ordering::Equal));
    assert_eq!(one.compare(Value::Nil), None);
    assert_eq!(Value::Boolean(true).compare(Value::Boolean(false)), None);
    assert_eq!(one.compare(Value::Float(f64::NAN.to_bits())), None);
}

#[test]
fn stack_is_last_in_first_out() {
    let mut stack = Stack::default();
    assert!(matches!(stack.pop(), Err(StackError::StackUnderflow)));
    stack.push(Value::Nil).unwrap();
    stack.push(Value::Boolean(true)).unwrap();
    assert_eq!(stack.pop(), Ok(Value::Boolean(true)));
    assert_eq!(stack.pop(), Ok(Value::Nil));
    assert!(matches!(stack.pop(), Err(StackError::StackUnderflow)));
}

#[test]
fn stack_overflows_at_capacity_without_writing() {
    let mut stack = Stack::default();
    for i in 0..STACK_SIZE {
        assert!(stack.push(Value::Float(i as u64)).is_ok());
    }
    assert!(matches!(stack.push(Value::Nil), Err(StackError::StackOverflow)));
    assert_eq!(stack.len(), STACK_SIZE);
    assert_eq!(stack.pop(), Ok(Value::Float((STACK_SIZE - 1) as u64)));
}

#[test]
fn constants_hand_out_permanent_indices() {
    let mut constants = Constants::new();
    assert_eq!(constants.len(), 0);
    let a = constants.push(Value::Float(1.0f64.to_bits()));
    let b = constants.push(Value::Nil);
    assert_eq!((a, b), (0, 1));
    assert_eq!(constants.index(0), Value::Float(1.0f64.to_bits()));
    assert_eq!(constants.index(1), Value::Nil);
    assert_eq!(constants.len(), 2);
}

fn tokens_of(src: &str) -> Vec<Result<Token, String>> {
    let chars: Vec<char> = src.chars().collect();
    let mut tokenizer = Tokenizer::new(&chars);
    let mut out = Vec::new();
    while let Some(item) = tokenizer.next_token() {
        out.push(item.map_err(|e| e.content()));
    }
    out
}

fn kinds_of(src: &str) -> Vec<TokenType> {
    tokens_of(src).into_iter().map(|r| r.unwrap().token_type).collect()
}

#[test]
fn lexer_single_and_two_char_tokens() {
    assert_eq!(
        kinds_of("( ) { } , . - + ; / *"),
        vec![
            TokenType::LeftParen,
            TokenType::RightParen,
            TokenType::LeftBrace,
            TokenType::RightBrace,
            TokenType::Comma,
            TokenType::Dot,
            TokenType::Minus,
            TokenType::Plus,
            TokenType::Semicolon,
            TokenType::Slash,
            TokenType::Star,
        ]
    );
    assert_eq!(
        kinds_of("! != = == < <= > >="),
        vec![
            TokenType::Bang,
            TokenType::BangEqual,
            TokenType::Equal,
            TokenType::EqualEqual,
            TokenType::Less,
            TokenType::LessEqual,
            TokenType::Greater,
            TokenType::GreaterEqual,
        ]
    );
}

#[test]
fn lexer_maximal_munch_prefers_two_chars() {
    assert_eq!(kinds_of("!="), vec![TokenType::BangEqual]);
    assert_eq!(kinds_of("! ="), vec![TokenType::Bang, TokenType::Equal]);
    assert_eq!(kinds_of("<=="), vec![TokenType::LessEqual, TokenType::Equal]);
}

#[test]
fn lexer_keywords_and_identifiers() {
    assert_eq!(
        kinds_of("and class else false for fun if nil or print return super this true var while"),
        vec![
            TokenType::And,
            TokenType::Class,
            TokenType::Else,
            TokenType::FalseIdent,
            TokenType::For,
            TokenType::Func,
            TokenType::If,
            TokenType::Nil,
            TokenType::Or,
            TokenType::Print,
            TokenType::Return,
            TokenType::Super,
            TokenType::This,
            TokenType::TrueIdent,
            TokenType::Var,
            TokenType::While,
        ]
    );
    assert_eq!(kinds_of("android truthy x_1"), vec![
        TokenType::Identifier,
        TokenType::Identifier,
        TokenType::Identifier,
    ]);
}

#[test]
fn lexer_numeric_literals_and_offsets() {
    let tokens = tokens_of("12 3.25");
    let first = tokens[0].clone().unwrap();
    assert_eq!(
        (first.token_type, first.pos, first.length, first.line),
        (TokenType::NumericLiteral, 0, 2, 0)
    );
    let second = tokens[1].clone().unwrap();
    assert_eq!(
        (second.token_type, second.pos, second.length),
        (TokenType::NumericLiteral, 3, 4)
    );
}

#[test]
fn lexer_no_trailing_dot_in_numbers() {
    assert_eq!(kinds_of("1."), vec![TokenType::NumericLiteral, TokenType::Dot]);
    assert_eq!(kinds_of("1.2.3"), vec![
        TokenType::NumericLiteral,
        TokenType::Dot,
        TokenType::NumericLiteral,
    ]);
}

#[test]
fn lexer_string_literal_spans_quotes() {
    let tokens = tokens_of("\"ab\"");
    let t = tokens[0].clone().unwrap();
    assert_eq!((t.token_type, t.pos, t.length), (TokenType::StringLiteral, 0, 4));
}

#[test]
fn lexer_errors_keep_the_stream_going() {
    let tokens = tokens_of("@ 1");
    assert_eq!(tokens[0], Err("Unrecognised token @".to_string()));
    assert_eq!(tokens[1].clone().unwrap().token_type, TokenType::NumericLiteral);
}

#[test]
fn lexer_counts_lines() {
    let chars: Vec<char> = "1\n// note\n 2".chars().collect();
    let mut tokenizer = Tokenizer::new(&chars);
    let first = tokenizer.next_token().unwrap().unwrap();
    assert_eq!(first.line, 0);
    let second = tokenizer.next_token().unwrap().unwrap();
    assert_eq!(second.line, 2);
    assert_eq!(tokenizer.get_current_line(), 2);
    assert!(tokenizer.next_token().is_none());
}

#[test]
fn token_constructor_keeps_fields() {
    let t = Token::new(TokenType::Plus, 4, 1, 7);
    assert_eq!((t.token_type, t.pos, t.length, t.line), (TokenType::Plus, 4, 1, 7));
}

#[test]
fn rule_table_rows() {
    assert_eq!(get_rule(TokenType::Plus), Rule {
        prefix: None,
        infix: Some(InfixRule::Binary),
        precedence: Precedence::Term,
    });
    assert_eq!(get_rule(TokenType::Minus), Rule {
        prefix: Some(PrefixRule::Unary),
        infix: Some(InfixRule::Binary),
        precedence: Precedence::Term,
    });
    assert_eq!(get_rule(TokenType::Star).precedence, Precedence::Factor);
    assert_eq!(get_rule(TokenType::EqualEqual).precedence, Precedence::Equality);
    assert_eq!(get_rule(TokenType::Less).precedence, Precedence::Comparison);
    assert_eq!(get_rule(TokenType::LeftParen).prefix, Some(PrefixRule::Grouping));
    assert_eq!(get_rule(TokenType::Semicolon), Rule {
        prefix: None,
        infix: None,
        precedence: Precedence::PrecNone,
    });
}

#[test]
fn precedence_levels_step_up() {
    assert_eq!(Precedence::from(6u8), Precedence::Term);
    assert_eq!(Precedence::Term.one_higher(), Precedence::Factor);
    assert_eq!(Precedence::Primary.one_higher(), Precedence::Primary);
    assert!(Precedence::Factor.level() > Precedence::Term.level());
}

#[test]
fn lexer_counts_lines_inside_strings() {
    let chars: Vec<char> = "\"a\nb\"".chars().collect();
    let mut tokenizer = Tokenizer::new(&chars);
    let t = tokenizer.next_token().unwrap().unwrap();
    assert_eq!((t.token_type, t.length, t.line), (TokenType::StringLiteral, 5, 1));
}

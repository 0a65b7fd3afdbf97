//! The Pratt parser's table: each token kind maps to an optional prefix
//! handler, an optional infix handler, and a binding precedence.
//!
//! Handlers are named by small enums and dispatched by the compiler with a
//! match, so the table is plain data.

use vstd::prelude::*;

use crate::tokenizer::TokenType;

verus! {

/// Binding precedence, lowest to highest.
#[derive(Debug, Clone, Copy, PartialEq, Eq, Structural)]
pub enum Precedence {
    PrecNone,
    Assignment,
    Or,
    And,
    Equality,
    Comparison,
    Term,
    Factor,
    Unary,
    Call,
    Primary,
}

/// The numeric level of a precedence.
pub open spec fn spec_level(p: Precedence) -> int {
    match p {
        Precedence::PrecNone => 0,
        Precedence::Assignment => 1,
        Precedence::Or => 2,
        Precedence::And => 3,
        Precedence::Equality => 4,
        Precedence::Comparison => 5,
        Precedence::Term => 6,
        Precedence::Factor => 7,
        Precedence::Unary => 8,
        Precedence::Call => 9,
        Precedence::Primary => 10,
    }
}

/// The precedence of a numeric level; every level past the highest is the
/// highest.
pub open spec fn spec_precedence_of_level(value: int) -> Precedence {
    if value == 0 {
        Precedence::PrecNone
    } else if value == 1 {
        Precedence::Assignment
    } else if value == 2 {
        Precedence::Or
    } else if value == 3 {
        Precedence::And
    } else if value == 4 {
        Precedence::Equality
    } else if value == 5 {
        Precedence::Comparison
    } else if value == 6 {
        Precedence::Term
    } else if value == 7 {
        Precedence::Factor
    } else if value == 8 {
        Precedence::Unary
    } else if value == 9 {
        Precedence::Call
    } else {
        Precedence::Primary
    }
}

impl Precedence {
    /// The numeric level, for comparing binding strengths.
    pub fn level(self) -> (r: u8)
        ensures
            r as int == spec_level(self),
    {
        match self {
            Precedence::PrecNone => 0,
            Precedence::Assignment => 1,
            Precedence::Or => 2,
            Precedence::And => 3,
            Precedence::Equality => 4,
            Precedence::Comparison => 5,
            Precedence::Term => 6,
            Precedence::Factor => 7,
            Precedence::Unary => 8,
            Precedence::Call => 9,
            Precedence::Primary => 10,
        }
    }

    /// The next precedence up: what a left-associative binary operator's
    /// right operand is parsed at.
    pub fn one_higher(self) -> (r: Self)
        ensures
            r == spec_precedence_of_level(spec_level(self) + 1),
    {
        Precedence::from(self.level() + 1)
    }
}

impl From<u8> for Precedence {
    /// The precedence at a numeric level; every level past the highest is
    /// the highest.
    fn from(value: u8) -> (r: Self) {
        match value {
            0 => Precedence::PrecNone,
            1 => Precedence::Assignment,
            2 => Precedence::Or,
            3 => Precedence::And,
            4 => Precedence::Equality,
            5 => Precedence::Comparison,
            6 => Precedence::Term,
            7 => Precedence::Factor,
            8 => Precedence::Unary,
            9 => Precedence::Call,
            _ => Precedence::Primary,
        }
    }
}

impl vstd::std_specs::convert::FromSpecImpl<u8> for Precedence {
    open spec fn obeys_from_spec() -> bool {
        true
    }

    open spec fn from_spec(v: u8) -> Self {
        spec_precedence_of_level(v as int)
    }
}

/// The prefix parsing behaviours a token kind can name.
#[derive(Debug, Clone, Copy, PartialEq, Eq, Structural)]
pub enum PrefixRule {
    Grouping,
    Unary,
    Number,
    Literal,
}

/// The infix parsing behaviours a token kind can name.
#[derive(Debug, Clone, Copy, PartialEq, Eq, Structural)]
pub enum InfixRule {
    Binary,
}

/// One row of the parsing table.
#[derive(Debug, Clone, Copy, PartialEq, Eq, Structural)]
pub struct Rule {
    pub prefix: Option<PrefixRule>,
    pub infix: Option<InfixRule>,
    pub precedence: Precedence,
}

impl Rule {
    fn new(prefix: Option<PrefixRule>, infix: Option<InfixRule>, precedence: Precedence) -> (r:
        Self)
        ensures
            r == (Rule { prefix, infix, precedence }),
    {
        Self { prefix, infix, precedence }
    }
}

/// The table row of a token kind.
pub open spec fn spec_get_rule(token_type: TokenType) -> Rule {
    match token_type {
        TokenType::LeftParen => Rule {
            prefix: Some(PrefixRule::Grouping),
            infix: None,
            precedence: Precedence::PrecNone,
        },
        TokenType::Minus => Rule {
            prefix: Some(PrefixRule::Unary),
            infix: Some(InfixRule::Binary),
            precedence: Precedence::Term,
        },
        TokenType::Plus => Rule {
            prefix: None,
            infix: Some(InfixRule::Binary),
            precedence: Precedence::Term,
        },
        TokenType::Slash | TokenType::Star => Rule {
            prefix: None,
            infix: Some(InfixRule::Binary),
            precedence: Precedence::Factor,
        },
        TokenType::NumericLiteral => Rule {
            prefix: Some(PrefixRule::Number),
            infix: None,
            precedence: Precedence::PrecNone,
        },
        TokenType::Nil | TokenType::TrueIdent | TokenType::FalseIdent => Rule {
            prefix: Some(PrefixRule::Literal),
            infix: None,
            precedence: Precedence::PrecNone,
        },
        TokenType::Bang => Rule {
            prefix: Some(PrefixRule::Unary),
            infix: None,
            precedence: Precedence::PrecNone,
        },
        TokenType::BangEqual | TokenType::EqualEqual => Rule {
            prefix: None,
            infix: Some(InfixRule::Binary),
            precedence: Precedence::Equality,
        },
        TokenType::Greater | TokenType::GreaterEqual | TokenType::LessEqual | TokenType::Less
            => Rule {
            prefix: None,
            infix: Some(InfixRule::Binary),
            precedence: Precedence::Comparison,
        },
        _ => Rule { prefix: None, infix: None, precedence: Precedence::PrecNone },
    }
}

/// Look up a token kind's prefix handler, infix handler and precedence.
pub fn get_rule(token_type: TokenType) -> (r: Rule)
    ensures
        r == spec_get_rule(token_type),
{
    match token_type {
        TokenType::LeftParen => Rule::new(
            Some(PrefixRule::Grouping),
            None,
            Precedence::PrecNone,
        ),
        TokenType::Minus => Rule::new(
            Some(PrefixRule::Unary),
            Some(InfixRule::Binary),
            Precedence::Term,
        ),
        TokenType::Plus => Rule::new(None, Some(InfixRule::Binary), Precedence::Term),
        TokenType::Slash | TokenType::Star => Rule::new(
            None,
            Some(InfixRule::Binary),
            Precedence::Factor,
        ),
        TokenType::NumericLiteral => Rule::new(
            Some(PrefixRule::Number),
            None,
            Precedence::PrecNone,
        ),
        TokenType::Nil | TokenType::TrueIdent | TokenType::FalseIdent => Rule::new(
            Some(PrefixRule::Literal),
            None,
            Precedence::PrecNone,
        ),
        TokenType::Bang => Rule::new(Some(PrefixRule::Unary), None, Precedence::PrecNone),
        TokenType::BangEqual | TokenType::EqualEqual => Rule::new(
            None,
            Some(InfixRule::Binary),
            Precedence::Equality,
        ),
        TokenType::Greater | TokenType::GreaterEqual | TokenType::LessEqual | TokenType::Less
            => Rule::new(None, Some(InfixRule::Binary), Precedence::Comparison),
        _ => Rule::new(None, None, Precedence::PrecNone),
    }
}

} // verus!

//! The single-pass Pratt-parsing compiler: it drives the lexer to
//! completion, emits one flat instruction sequence and one constant pool,
//! records every error it meets (suppressing cascades after the first until
//! the end of the input), and never panics.
//!
//! The central guarantee: when compilation reports no error, the emitted
//! program is a complete expression's code — balanced, in the sense of
//! `balanced_expr` — followed by a single trailing `OpReturn`, and every
//! constant index in it addresses the pool. The virtual machine needs
//! nothing more to run it without ever underflowing its stack. Beyond that,
//! the operator handlers are pinned to the opcode and line they emit, and
//! whole source classes are fixed end to end: input that trims to nothing
//! records exactly one "Expect expression." error; one numeric literal
//! compiles to its constant and a return; two literals joined by an operator,
//! and three joined by two (at equal-or-looser precedence — left associative
//! — or at tighter precedence for the second), compile to exactly the
//! post-order opcode sequences; and a group over a binary expression with no
//! closing parenthesis records exactly the one error naming it.

use vstd::prelude::*;
use vstd::string::StringExecFns;

use crate::constants::Constants;
use crate::numeric::parse_double_bits;
use crate::numeric::spec_parse_double_bits;
use crate::precedence::InfixRule;
use crate::precedence::Precedence;
use crate::precedence::PrefixRule;
use crate::precedence::get_rule;
use crate::precedence::spec_get_rule;
use crate::precedence::spec_level;
use crate::program::OpCode;
use crate::program::Program;
use crate::program::balanced_expr;
use crate::program::balanced_extension;
use crate::program::lemma_balanced_extend;
use crate::program::lemma_balanced_single;
use crate::program::lemma_balanced_unary;
use crate::program::lemma_extension_from_operand;
use crate::program::program_wf;
use crate::tokenizer::OTokenResult;
use crate::tokenizer::SpecScan;
use crate::tokenizer::lemma_trim_bounds;
use crate::tokenizer::spec_scan_ahead;
use crate::tokenizer::Token;
use crate::tokenizer::TokenType;
use crate::tokenizer::Tokenizer;
use crate::tokenizer::spec_scan;
use crate::tokenizer::spec_trim_from;
use crate::value::Value;
use crate::value::values_wf;

verus! {

/// The opcode a unary operator token emits after its operand's code.
pub open spec fn spec_unary_opcode(tt: TokenType) -> Option<OpCode> {
    match tt {
        TokenType::Minus => Some(OpCode::OpNegate),
        TokenType::Bang => Some(OpCode::OpNot),
        _ => None,
    }
}

/// The opcode a binary operator token emits after its right operand's code.
pub open spec fn spec_binary_opcode(tt: TokenType) -> Option<OpCode> {
    match tt {
        TokenType::Plus => Some(OpCode::OpAdd),
        TokenType::Minus => Some(OpCode::OpSubtract),
        TokenType::Star => Some(OpCode::OpMultiply),
        TokenType::Slash => Some(OpCode::OpDivide),
        TokenType::EqualEqual => Some(OpCode::OpEqual),
        TokenType::BangEqual => Some(OpCode::OpNotEqual),
        TokenType::Greater => Some(OpCode::OpGreater),
        TokenType::GreaterEqual => Some(OpCode::OpGreaterEqual),
        TokenType::Less => Some(OpCode::OpLess),
        TokenType::LessEqual => Some(OpCode::OpLessEqual),
        _ => None,
    }
}

/// The scan after the buffered token ends an expression parsed at this
/// binding strength: the input ran out, or the next token binds less
/// tightly (a lexical error never ends one).
pub open spec fn spec_follow_exits(src: Seq<char>, pos: int, level: int) -> bool {
    match spec_scan(src, pos) {
        SpecScan::EndScan => true,
        SpecScan::TokenScan(k, _) => spec_level(spec_get_rule(k).precedence) < level,
        _ => false,
    }
}

/// The digit character of a value below ten.
pub open spec fn spec_decimal_digit(d: nat) -> char {
    if d == 0 {
        '0'
    } else if d == 1 {
        '1'
    } else if d == 2 {
        '2'
    } else if d == 3 {
        '3'
    } else if d == 4 {
        '4'
    } else if d == 5 {
        '5'
    } else if d == 6 {
        '6'
    } else if d == 7 {
        '7'
    } else if d == 8 {
        '8'
    } else {
        '9'
    }
}

/// The decimal digits of a number, most significant first.
pub open spec fn spec_decimal(n: nat) -> Seq<char>
    decreases n,
{
    if n < 10 {
        seq![spec_decimal_digit(n)]
    } else {
        spec_decimal(n / 10).push(spec_decimal_digit(n % 10))
    }
}

/// Relies on std's formatting of `usize`: its decimal digits.
#[verifier::external_body]
fn usize_decimal(n: usize) -> (r: String)
    ensures
        r@ == spec_decimal(n as nat),
{
    format!("{n}")
}

/// A compile-time error: the token it was found at (`None` at the end of
/// the input, a lexical error where scanning itself failed) and a message.
pub struct CompilerErr {
    token: OTokenResult,
    content: String,
}

/// The message of a lexical error's scan outcome.
pub open spec fn spec_scan_err_msg(scan: SpecScan) -> Seq<char> {
    match scan {
        SpecScan::UnterminatedScan => "Unterminated string literal"@,
        SpecScan::UnrecognisedScan(c) => "Unrecognised token "@.push(c),
        _ => Seq::<char>::empty(),
    }
}

/// Exactly one error was appended to the list, and it carries the message of
/// the given scan outcome.
pub open spec fn spec_first_err_recorded(
    errs0: Seq<CompilerErr>,
    errs: Seq<CompilerErr>,
    scan: SpecScan,
) -> bool {
    &&& errs.len() == errs0.len() + 1
    &&& errs[errs0.len() as int].spec_content() == spec_scan_err_msg(scan)
}

/// The line a report names for an error's token: a token's own line, a
/// lexical error's line, and line zero at the end of the input.
pub open spec fn spec_report_line(token: OTokenResult) -> int {
    match token {
        None => 0,
        Some(Ok(t)) => t.line as int,
        Some(Err(e)) => e.spec_line(),
    }
}

/// The marker a report puts after "Error": the token's offset and length,
/// "at end" when the input was exhausted, nothing for a lexical error.
pub open spec fn spec_report_marker(token: OTokenResult) -> Seq<char> {
    match token {
        None => " at end"@,
        Some(Ok(t)) => " at ("@ + spec_decimal(t.pos as nat) + ", "@ + spec_decimal(
            t.length as nat,
        ) + ")"@,
        Some(Err(_)) => Seq::<char>::empty(),
    }
}

impl CompilerErr {
    /// The token the error was found at.
    pub closed spec fn spec_token(&self) -> OTokenResult {
        self.token
    }

    /// The message's characters.
    pub closed spec fn spec_content(&self) -> Seq<char> {
        self.content@
    }

    /// An error at the given token with the given message.
    pub fn new(token: &OTokenResult, content: &str) -> (r: Self)
        ensures
            r.spec_token() == *token,
            r.spec_content() == content@,
    {
        let held: OTokenResult = match token {
            None => None,
            Some(Ok(t)) => Some(Ok(*t)),
            Some(Err(e)) => Some(Err(e.clone())),
        };
        Self { token: held, content: String::from_str(content) }
    }

    /// The token the error was found at.
    pub fn token(&self) -> (r: &OTokenResult)
        ensures
            *r == self.spec_token(),
    {
        &self.token
    }

    /// The message.
    pub fn content(&self) -> (r: String)
        ensures
            r@ == self.spec_content(),
    {
        self.content.clone()
    }

    /// The rendered report: the line, the error marker, and the message.
    pub open spec fn spec_describe(&self) -> Seq<char> {
        "[line "@ + spec_decimal(spec_report_line(self.spec_token()) as nat) + "]: Error"@
            + spec_report_marker(self.spec_token()) + ": "@ + self.spec_content()
    }

    /// Render the error for a report.
    pub fn describe(&self) -> (r: String)
        ensures
            r@ == self.spec_describe(),
    {
        let mut s = String::from_str("[line ");
        let line: usize = match &self.token {
            None => 0,
            Some(Ok(t)) => t.line,
            Some(Err(e)) => e.line(),
        };
        s.append(usize_decimal(line).as_str());
        s.append("]: Error");
        match &self.token {
            None => s.append(" at end"),
            Some(Ok(t)) => {
                s.append(" at (");
                s.append(usize_decimal(t.pos).as_str());
                s.append(", ");
                s.append(usize_decimal(t.length).as_str());
                s.append(")");
            },
            Some(Err(_)) => {},
        }
        s.append(": ");
        s.append(self.content.as_str());
        proof {
            assert(s@ =~= self.spec_describe());
        }
        s
    }
}

pub type CompilerErrors = Vec<CompilerErr>;

/// The compiler: the source, the lexer it drives, a one-token lookahead
/// buffer (current and previous), the program and pool being emitted, the
/// errors recorded so far, and the panic-mode flag that suppresses cascading
/// reports after the first error until the end of the input.
pub struct Compiler<'a> {
    source: &'a [char],
    tokenizer: Tokenizer<'a>,
    panic_mode: bool,
    pub had_error: bool,
    current_token: Option<Token>,
    previous_token: Option<Token>,
    pub constants: Constants,
    pub program: Program,
    pub errors: CompilerErrors,
}

impl<'a> Compiler<'a> {
    /// The source being compiled.
    pub closed spec fn spec_src(&self) -> Seq<char> {
        self.source@
    }

    /// The instructions emitted so far.
    pub closed spec fn spec_program(&self) -> Seq<(OpCode, usize)> {
        self.program@
    }

    /// The constants emitted so far.
    pub closed spec fn spec_constants(&self) -> Seq<Value> {
        self.constants@
    }

    /// The errors recorded so far.
    pub closed spec fn spec_errors(&self) -> Seq<CompilerErr> {
        self.errors@
    }

    /// Whether any error has been recorded.
    pub closed spec fn spec_had_error(&self) -> bool {
        self.had_error
    }

    /// Whether error reporting is currently suppressed.
    pub closed spec fn spec_panic_mode(&self) -> bool {
        self.panic_mode
    }

    /// The token under consideration.
    pub closed spec fn spec_current(&self) -> Option<Token> {
        self.current_token
    }

    /// The token most recently consumed.
    pub closed spec fn spec_previous(&self) -> Option<Token> {
        self.previous_token
    }

    /// The lexer's cursor into the source.
    pub closed spec fn stream_pos(&self) -> int {
        self.tokenizer.pos()
    }

    /// How much input the parser still holds: unconsumed characters plus the
    /// buffered current token. Every token consumed shrinks it.
    pub closed spec fn lookahead_units(&self) -> int {
        self.tokenizer.src().len() - self.tokenizer.pos() + (if self.current_token is Some {
            1int
        } else {
            0int
        })
    }

    /// A token's characters lie within the source.
    pub open spec fn token_in_src(&self, t: Token) -> bool {
        t.pos + t.length <= self.spec_src().len()
    }

    /// The compiler's invariant: the lexer walks this source; the program
    /// addresses the pool; the pool holds no string references (only the
    /// machine interns strings); panic mode, the error flag and the error
    /// list agree; buffered tokens lie within the source.
    pub closed spec fn wf(&self) -> bool {
        &&& self.tokenizer.wf()
        &&& self.tokenizer.src() == self.source@
        &&& program_wf(self.program@, self.constants@.len() as int)
        &&& values_wf(self.constants@, 0)
        &&& self.panic_mode == self.had_error
        &&& self.had_error <==> self.errors@.len() > 0
        &&& match self.current_token {
            Some(t) => self.token_in_src(t),
            None => true,
        }
        &&& match self.previous_token {
            Some(t) => self.token_in_src(t),
            None => true,
        }
    }

    /// A compiler at the start of its token stream, with nothing emitted and
    /// nothing recorded.
    pub fn new(source: &'a [char], tokenizer: Tokenizer<'a>) -> (r: Self)
        requires
            tokenizer.wf(),
            tokenizer.src() == source@,
        ensures
            r.wf(),
            r.spec_src() == source@,
            r.spec_program().len() == 0,
            r.spec_constants().len() == 0,
            r.spec_errors().len() == 0,
            !r.spec_had_error(),
            r.spec_current() is None,
            r.stream_pos() == tokenizer.pos(),
    {
        Self {
            source,
            tokenizer,
            panic_mode: false,
            had_error: false,
            current_token: None,
            previous_token: None,
            program: Vec::new(),
            errors: Vec::new(),
            constants: Constants::new(),
        }
    }

    /// Whether any error has been recorded.
    pub fn has_error(&self) -> (r: bool)
        ensures
            r == self.spec_had_error(),
    {
        self.had_error
    }

    /// Hand the emitted program and pool to their consumer.
    pub fn into_parts(self) -> (r: (Program, Constants))
        ensures
            r.0@ == self.spec_program(),
            r.1@ == self.spec_constants(),
    {
        (self.program, self.constants)
    }

    /// Hand out the recorded errors.
    pub fn take_errors(self) -> (r: CompilerErrors)
        ensures
            r@ == self.spec_errors(),
    {
        self.errors
    }

    /// Record an error at a token, unless panic mode already suppresses
    /// reporting; either way the error flag is set from here on.
    fn error_at(&mut self, token: &OTokenResult, msg: &str)
        requires
            old(self).wf(),
        ensures
            final(self).wf(),
            final(self).spec_had_error(),
            final(self).spec_panic_mode(),
            final(self).spec_src() == old(self).spec_src(),
            final(self).spec_program() == old(self).spec_program(),
            final(self).spec_constants() == old(self).spec_constants(),
            final(self).spec_current() == old(self).spec_current(),
            final(self).spec_previous() == old(self).spec_previous(),
            final(self).lookahead_units() == old(self).lookahead_units(),
            final(self).stream_pos() == old(self).stream_pos(),
            if old(self).spec_panic_mode() {
                final(self).spec_errors() == old(self).spec_errors()
            } else {
                &&& final(self).spec_errors().len() == old(self).spec_errors().len() + 1
                &&& final(self).spec_errors().last().spec_token() == *token
                &&& final(self).spec_errors().last().spec_content() == msg@
                &&& final(self).spec_errors().drop_last() == old(self).spec_errors()
            },
    {
        if self.panic_mode {
            return ;
        }
        self.panic_mode = true;
        self.errors.push(CompilerErr::new(token, msg));
        self.had_error = true;
        proof {
            assert(self.errors@.drop_last() =~= old(self).errors@);
        }
    }

    /// Record an error at the current token.
    fn error_at_current(&mut self, msg: &str)
        requires
            old(self).wf(),
        ensures
            final(self).wf(),
            final(self).spec_had_error(),
            final(self).spec_src() == old(self).spec_src(),
            final(self).spec_program() == old(self).spec_program(),
            final(self).spec_constants() == old(self).spec_constants(),
            final(self).spec_current() == old(self).spec_current(),
            final(self).spec_previous() == old(self).spec_previous(),
            final(self).lookahead_units() == old(self).lookahead_units(),
            final(self).stream_pos() == old(self).stream_pos(),
            if old(self).spec_panic_mode() {
                final(self).spec_errors() == old(self).spec_errors()
            } else {
                &&& final(self).spec_errors().len() == old(self).spec_errors().len() + 1
                &&& final(self).spec_errors().last().spec_content() == msg@
                &&& final(self).spec_errors().last().spec_token() == (match old(
                    self,
                ).spec_current() {
                    Some(t) => Some(Ok::<Token, crate::tokenizer::TokenErr>(t)),
                    None => None,
                })
                &&& final(self).spec_errors().drop_last() == old(self).spec_errors()
            },
    {
        let wrapped: OTokenResult = match self.current_token {
            Some(t) => Some(Ok(t)),
            None => None,
        };
        self.error_at(&wrapped, msg);
    }

    /// Record an error at the token most recently consumed.
    fn error(&mut self, msg: &str)
        requires
            old(self).wf(),
        ensures
            final(self).wf(),
            final(self).spec_had_error(),
            final(self).spec_src() == old(self).spec_src(),
            final(self).spec_program() == old(self).spec_program(),
            final(self).spec_constants() == old(self).spec_constants(),
            final(self).spec_current() == old(self).spec_current(),
            final(self).spec_previous() == old(self).spec_previous(),
            final(self).lookahead_units() == old(self).lookahead_units(),
            final(self).stream_pos() == old(self).stream_pos(),
            if old(self).spec_panic_mode() {
                final(self).spec_errors() == old(self).spec_errors()
            } else {
                &&& final(self).spec_errors().len() == old(self).spec_errors().len() + 1
                &&& final(self).spec_errors().last().spec_content() == msg@
                &&& final(self).spec_errors().last().spec_token() == (match old(
                    self,
                ).spec_previous() {
                    Some(t) => Some(Ok::<Token, crate::tokenizer::TokenErr>(t)),
                    None => None,
                })
                &&& final(self).spec_errors().drop_last() == old(self).spec_errors()
            },
    {
        let wrapped: OTokenResult = match self.previous_token {
            Some(t) => Some(Ok(t)),
            None => None,
        };
        self.error_at(&wrapped, msg);
    }

    /// Shift the lookahead: the current token becomes the previous one, and
    /// the next token the lexer produces becomes current. Lexical errors are
    /// recorded (subject to panic-mode suppression) and skipped. The whole
    /// shift is `spec_scan_ahead` at the cursor: where the cursor lands, the
    /// token found (or none at the end of the input), and — since only the
    /// first error ever reports — exactly one recorded error, carrying the
    /// first skipped message, when any was skipped and reporting was not
    /// already suppressed. The earlier clauses spell out its two clean cases.
    fn advance(&mut self)
        requires
            old(self).wf(),
        ensures
            final(self).wf(),
            final(self).spec_src() == old(self).spec_src(),
            final(self).spec_program() == old(self).spec_program(),
            final(self).spec_constants() == old(self).spec_constants(),
            final(self).spec_previous() == old(self).spec_current(),
            final(self).lookahead_units() <= old(self).lookahead_units(),
            old(self).spec_current() is Some ==> final(self).lookahead_units() < old(
                self,
            ).lookahead_units(),
            old(self).spec_had_error() ==> final(self).spec_had_error(),
            final(self).spec_current() is None ==> final(self).stream_pos()
                == final(self).spec_src().len(),
            spec_scan(old(self).spec_src(), old(self).stream_pos()) == SpecScan::EndScan ==> {
                &&& final(self).spec_current() is None
                &&& final(self).stream_pos() == final(self).spec_src().len()
                &&& final(self).spec_errors() == old(self).spec_errors()
                &&& final(self).spec_had_error() == old(self).spec_had_error()
            },
            spec_scan(old(self).spec_src(), old(self).stream_pos()) matches SpecScan::TokenScan(
                tt,
                token_end,
            ) ==> {
                &&& final(self).spec_current() matches Some(t) && t.token_type == tt && t.pos
                    == spec_trim_from(old(self).spec_src(), old(self).stream_pos()) && t.pos
                    + t.length == token_end
                &&& final(self).stream_pos() == token_end
                &&& final(self).spec_errors() == old(self).spec_errors()
                &&& final(self).spec_had_error() == old(self).spec_had_error()
            },
            ({
                let a = spec_scan_ahead(old(self).spec_src(), old(self).stream_pos());
                &&& final(self).stream_pos() == a.end
                &&& match a.token {
                    None => final(self).spec_current() is None,
                    Some((tt, start, token_end)) => final(self).spec_current() matches Some(t)
                        && t.token_type == tt && t.pos == start && t.pos + t.length == token_end,
                }
                &&& if a.errs.len() == 0 {
                    final(self).spec_errors() == old(self).spec_errors()
                        && final(self).spec_had_error() == old(self).spec_had_error()
                } else if old(self).spec_panic_mode() {
                    final(self).spec_errors() == old(self).spec_errors()
                        && final(self).spec_had_error()
                } else {
                    &&& final(self).spec_errors().len() == old(self).spec_errors().len() + 1
                    &&& final(self).spec_errors().last().spec_content() == a.errs[0]
                    &&& final(self).spec_errors().drop_last() == old(self).spec_errors()
                    &&& final(self).spec_had_error()
                }
            }),
    {
        proof {
            lemma_trim_bounds(self.spec_src(), self.stream_pos());
        }
        self.previous_token = self.current_token;
        loop
            invariant
                old(self).wf(),
                self.wf(),
                self.spec_src() == old(self).spec_src(),
                self.spec_program() == old(self).spec_program(),
                self.spec_constants() == old(self).spec_constants(),
                self.spec_previous() == old(self).spec_current(),
                self.spec_current() == old(self).spec_current(),
                self.lookahead_units() <= old(self).lookahead_units(),
                old(self).spec_had_error() ==> self.spec_had_error(),
                (self.stream_pos() == old(self).stream_pos() && self.spec_errors() == old(self).spec_errors()
                    && self.spec_panic_mode() == old(self).spec_panic_mode()
                    && self.spec_had_error() == old(self).spec_had_error())
                    || ({
                    let a = spec_scan_ahead(old(self).spec_src(), old(self).stream_pos());
                    let here = spec_scan_ahead(self.spec_src(), self.stream_pos());
                    &&& a.errs.len() > 0
                    &&& here.token == a.token
                    &&& here.end == a.end
                    &&& matches!(spec_scan(old(self).spec_src(), old(self).stream_pos()),
                        SpecScan::UnterminatedScan | SpecScan::UnrecognisedScan(_))
                    &&& if old(self).spec_panic_mode() {
                        self.spec_errors() == old(self).spec_errors() && self.spec_had_error()
                            == old(self).spec_had_error()
                    } else {
                        &&& self.spec_errors().len() == old(self).spec_errors().len() + 1
                        &&& self.spec_errors().last().spec_content() == a.errs[0]
                        &&& self.spec_errors().drop_last() == old(self).spec_errors()
                        &&& self.spec_had_error()
                        &&& self.spec_panic_mode()
                    }
                }),
            decreases self.lookahead_units(),
        {
            proof {
                lemma_trim_bounds(self.spec_src(), self.stream_pos());
            }
            let next = self.tokenizer.next_token();
            match next {
                Some(Ok(t)) => {
                    self.current_token = Some(t);
                    return ;
                },
                Some(Err(t)) => {
                    let msg = t.content();
                    let wrapped: OTokenResult = Some(Err(t));
                    self.error_at(&wrapped, msg.as_str());
                },
                None => {
                    self.current_token = None;
                    return ;
                },
            }
        }
    }

    /// Consume the current token when it has the expected kind; record the
    /// given error otherwise.
    fn advance_match(&mut self, expected_token_type: TokenType, error_msg: &str)
        requires
            old(self).wf(),
        ensures
            final(self).wf(),
            final(self).spec_src() == old(self).spec_src(),
            final(self).spec_program() == old(self).spec_program(),
            final(self).spec_constants() == old(self).spec_constants(),
            final(self).lookahead_units() <= old(self).lookahead_units(),
            old(self).spec_had_error() ==> final(self).spec_had_error(),
            match old(self).spec_current() {
                Some(t) => t.token_type != expected_token_type ==> final(self).spec_had_error(),
                None => final(self).spec_had_error(),
            },
            ((match old(self).spec_current() {
                Some(t) => t.token_type != expected_token_type,
                None => true,
            }) && !old(self).spec_panic_mode()) ==> {
                &&& final(self).spec_errors().len() == old(self).spec_errors().len() + 1
                &&& final(self).spec_errors().last().spec_content() == error_msg@
                &&& final(self).spec_errors().last().spec_token() == (match old(
                    self,
                ).spec_current() {
                    Some(t) => Some(Ok::<Token, crate::tokenizer::TokenErr>(t)),
                    None => None,
                })
                &&& final(self).spec_errors().drop_last() == old(self).spec_errors()
                &&& final(self).spec_current() == old(self).spec_current()
            },
            match old(self).spec_current() {
                Some(t) => (t.token_type == expected_token_type && spec_scan_ahead(
                    old(self).spec_src(),
                    old(self).stream_pos(),
                ).errs.len() == 0) ==> {
                    &&& final(self).spec_errors() == old(self).spec_errors()
                    &&& final(self).spec_had_error() == old(self).spec_had_error()
                },
                None => true,
            },
            (old(self).spec_current() is None ==> old(self).stream_pos()
                == old(self).spec_src().len()) ==> (final(self).spec_current() is None
                ==> final(self).stream_pos() == final(self).spec_src().len()),
    {
        match self.current_token {
            Some(t) => {
                if t.token_type == expected_token_type {
                    self.advance();
                    return ;
                }
            },
            None => {},
        }
        self.error_at_current(error_msg);
    }

    /// Require that the whole input has been consumed: any trailing token is
    /// an error.
    fn advance_end(&mut self)
        requires
            old(self).wf(),
        ensures
            final(self).wf(),
            final(self).spec_src() == old(self).spec_src(),
            final(self).spec_program() == old(self).spec_program(),
            final(self).spec_constants() == old(self).spec_constants(),
            old(self).spec_had_error() ==> final(self).spec_had_error(),
            old(self).spec_current() is Some ==> final(self).spec_had_error(),
            old(self).spec_current() is None ==> {
                &&& final(self).spec_errors() == old(self).spec_errors()
                &&& final(self).spec_had_error() == old(self).spec_had_error()
                &&& final(self).spec_current() == old(self).spec_current()
            },
            (old(self).spec_current() is None ==> old(self).stream_pos()
                == old(self).spec_src().len()) ==> (final(self).spec_current() is None
                ==> final(self).stream_pos() == final(self).spec_src().len()),
    {
        match self.current_token {
            None => {},
            Some(_) => self.error_at_current("Expected end of token stream"),
        }
    }

    /// Parse one expression.
    fn expression(&mut self)
        requires
            old(self).wf(),
        ensures
            final(self).wf(),
            final(self).spec_src() == old(self).spec_src(),
            old(self).spec_program().is_prefix_of(final(self).spec_program()),
            old(self).spec_constants().is_prefix_of(final(self).spec_constants()),
            final(self).lookahead_units() <= old(self).lookahead_units(),
            old(self).spec_had_error() ==> final(self).spec_had_error(),
            !final(self).spec_had_error() ==> balanced_expr(
                final(self).spec_program().skip(old(self).spec_program().len() as int),
            ),
            (!old(self).spec_had_error() && old(self).spec_current() is None && spec_scan(
                old(self).spec_src(),
                old(self).stream_pos(),
            ) == SpecScan::EndScan) ==> {
                &&& final(self).spec_program() == old(self).spec_program()
                &&& final(self).spec_errors().len() == old(self).spec_errors().len() + 1
                &&& final(self).spec_errors().last().spec_content() == "Expect expression."@
                &&& final(self).spec_errors().last().spec_token() is None
                &&& final(self).spec_current() is None
            },
            match old(self).spec_current() {
                Some(t) => (t.token_type == TokenType::NumericLiteral && spec_follow_exits(
                    old(self).spec_src(),
                    old(self).stream_pos(),
                    spec_level(Precedence::Assignment),
                )) ==> ({
                    let text = old(self).spec_src().subrange(t.pos as int, t.pos + t.length);
                    &&& final(self).spec_program() == old(self).spec_program().push(
                        (OpCode::OpConstant(old(self).spec_constants().len() as usize), t.line),
                    )
                    &&& final(self).spec_constants() == old(self).spec_constants().push(
                        Value::Float(
                            match spec_parse_double_bits(text) {
                                Some(b) => b,
                                None => 0u64,
                            },
                        ),
                    )
                    &&& (!old(self).spec_had_error() ==> (spec_parse_double_bits(text) is Some
                        <==> !final(self).spec_had_error()))
                    &&& match spec_scan(old(self).spec_src(), old(self).stream_pos()) {
                        SpecScan::EndScan => final(self).spec_current() is None,
                        SpecScan::TokenScan(k, e) => final(self).spec_current() matches Some(f)
                            && f.token_type == k && f.pos + f.length == e
                            && final(self).stream_pos() == e,
                        _ => true,
                    }
                }),
                None => true,
            },
            match old(self).spec_current() {
                Some(t) => (!old(self).spec_had_error() && spec_get_rule(t.token_type).prefix
                    is None && spec_follow_exits(
                    old(self).spec_src(),
                    old(self).stream_pos(),
                    spec_level(Precedence::Assignment),
                )) ==> {
                    &&& final(self).spec_program() == old(self).spec_program()
                    &&& final(self).spec_constants() == old(self).spec_constants()
                    &&& final(self).spec_errors().len() == old(self).spec_errors().len() + 1
                    &&& final(self).spec_errors().last().spec_content() == "Expect expression."@
                    &&& final(self).spec_errors().last().spec_token() == Some(
                        Ok::<Token, crate::tokenizer::TokenErr>(t),
                    )
                    &&& match spec_scan(old(self).spec_src(), old(self).stream_pos()) {
                        SpecScan::EndScan => final(self).spec_current() is None,
                        SpecScan::TokenScan(k, e) => final(self).spec_current() matches Some(f)
                            && f.token_type == k,
                        _ => true,
                    }
                },
                None => true,
            },
            match old(self).spec_current() {
                Some(n1) => (n1.token_type == TokenType::NumericLiteral) ==> (match spec_scan(
                    old(self).spec_src(),
                    old(self).stream_pos(),
                ) {
                    SpecScan::TokenScan(k1, op_end) => (spec_binary_opcode(k1) is Some
                        && spec_level(Precedence::Assignment) <= spec_level(spec_get_rule(k1).precedence))
                        ==> (match spec_scan(old(self).spec_src(), op_end) {
                        SpecScan::TokenScan(k2, num_end) => (k2 == TokenType::NumericLiteral
                            && spec_scan(old(self).spec_src(), num_end) == SpecScan::EndScan)
                            ==> ({
                            let t1 = old(self).spec_src().subrange(
                                n1.pos as int,
                                n1.pos + n1.length,
                            );
                            let t2 = old(self).spec_src().subrange(
                                spec_trim_from(old(self).spec_src(), op_end),
                                num_end,
                            );
                            &&& final(self).spec_program().len() == old(self).spec_program().len() + 3
                            &&& final(self).spec_program()[old(self).spec_program().len() as int]
                                == (
                                OpCode::OpConstant(old(self).spec_constants().len() as usize),
                                n1.line,
                            )
                            &&& final(self).spec_program()[old(self).spec_program().len() as int
                                + 1].0 == OpCode::OpConstant(
                                (old(self).spec_constants().len() + 1) as usize,
                            )
                            &&& final(self).spec_program()[old(self).spec_program().len() as int
                                + 2].0 == spec_binary_opcode(k1).unwrap()
                            &&& final(self).spec_constants() == old(self).spec_constants().push(
                                Value::Float(
                                    match spec_parse_double_bits(t1) {
                                        Some(b) => b,
                                        None => 0u64,
                                    },
                                ),
                            ).push(
                                Value::Float(
                                    match spec_parse_double_bits(t2) {
                                        Some(b) => b,
                                        None => 0u64,
                                    },
                                ),
                            )
                            &&& (!old(self).spec_had_error() ==> ((spec_parse_double_bits(t1)
                                is Some && spec_parse_double_bits(t2) is Some) <==> !final(self).spec_had_error()))
                            &&& final(self).spec_current() is None
                        }),
                        _ => true,
                    }),
                    _ => true,
                }),
                None => true,
            },
            match old(self).spec_current() {
                Some(lp) => (!old(self).spec_had_error() && lp.token_type
                    == TokenType::LeftParen) ==> (match spec_scan(
                    old(self).spec_src(),
                    old(self).stream_pos(),
                ) {
                    SpecScan::TokenScan(t1k, num1_end) => (t1k == TokenType::NumericLiteral)
                        ==> (match spec_scan(old(self).spec_src(), num1_end) {
                        SpecScan::TokenScan(k1, op_end) => (spec_binary_opcode(k1) is Some)
                            ==> (match spec_scan(old(self).spec_src(), op_end) {
                            SpecScan::TokenScan(k2, num2_end) => (k2
                                == TokenType::NumericLiteral && spec_scan(
                                old(self).spec_src(),
                                num2_end,
                            ) == SpecScan::EndScan && spec_parse_double_bits(
                                old(self).spec_src().subrange(
                                    spec_trim_from(
                                        old(self).spec_src(),
                                        old(self).stream_pos(),
                                    ),
                                    num1_end,
                                ),
                            ) is Some && spec_parse_double_bits(
                                old(self).spec_src().subrange(
                                    spec_trim_from(old(self).spec_src(), op_end),
                                    num2_end,
                                ),
                            ) is Some) ==> {
                                &&& final(self).spec_errors().len() == old(
                                    self,
                                ).spec_errors().len() + 1
                                &&& final(self).spec_errors().last().spec_content()
                                    == "Expect ')' after expression"@
                                &&& final(self).spec_errors().last().spec_token() is None
                                &&& final(self).spec_current() is None
                                &&& final(self).spec_had_error()
                            },
                            _ => true,
                        }),
                        _ => true,
                    }),
                    _ => true,
                }),
                None => true,
            },
            match old(self).spec_current() {
                Some(n1) => (n1.token_type == TokenType::NumericLiteral) ==> (match spec_scan(
                    old(self).spec_src(),
                    old(self).stream_pos(),
                ) {
                    SpecScan::TokenScan(k1, op1_end) => (spec_binary_opcode(k1) is Some
                        && spec_level(Precedence::Assignment) <= spec_level(spec_get_rule(k1).precedence))
                        ==> (match spec_scan(old(self).spec_src(), op1_end) {
                        SpecScan::TokenScan(m2, num2_end) => (m2 == TokenType::NumericLiteral)
                            ==> (match spec_scan(old(self).spec_src(), num2_end) {
                            SpecScan::TokenScan(k2, op2_end) => (spec_binary_opcode(k2) is Some
                                && spec_level(spec_get_rule(k2).precedence) <= spec_level(
                                spec_get_rule(k1).precedence,
                            ) && spec_level(Precedence::Assignment) <= spec_level(spec_get_rule(k2).precedence))
                                ==> (match spec_scan(old(self).spec_src(), op2_end) {
                                SpecScan::TokenScan(m3, num3_end) => (m3 == TokenType::NumericLiteral
                                    && spec_scan(old(self).spec_src(), num3_end) == SpecScan::EndScan)
                                    ==> ({
                                    let t1 = old(self).spec_src().subrange(
                                        n1.pos as int,
                                        n1.pos + n1.length,
                                    );
                                    let t2 = old(self).spec_src().subrange(
                                        spec_trim_from(old(self).spec_src(), op1_end),
                                        num2_end,
                                    );
                                    let t3 = old(self).spec_src().subrange(
                                        spec_trim_from(old(self).spec_src(), op2_end),
                                        num3_end,
                                    );
                                    let base = old(self).spec_program().len() as int;
                                    let c0 = old(self).spec_constants().len() as int;
                                    &&& final(self).spec_program().len() == base + 5
                                    &&& final(self).spec_program()[base].0 == OpCode::OpConstant(c0 as usize)
                                    &&& final(self).spec_program()[base + 1].0 == OpCode::OpConstant(
                                        (c0 + 1) as usize,
                                    )
                                    &&& final(self).spec_program()[base + 2].0 == spec_binary_opcode(
                                        k1,
                                    ).unwrap()
                                    &&& final(self).spec_program()[base + 3].0 == OpCode::OpConstant(
                                        (c0 + 2) as usize,
                                    )
                                    &&& final(self).spec_program()[base + 4].0 == spec_binary_opcode(
                                        k2,
                                    ).unwrap()
                                    &&& final(self).spec_constants() == old(self).spec_constants().push(
                                        Value::Float(
                                            match spec_parse_double_bits(t1) {
                                                Some(b) => b,
                                                None => 0u64,
                                            },
                                        ),
                                    ).push(
                                        Value::Float(
                                            match spec_parse_double_bits(t2) {
                                                Some(b) => b,
                                                None => 0u64,
                                            },
                                        ),
                                    ).push(
                                        Value::Float(
                                            match spec_parse_double_bits(t3) {
                                                Some(b) => b,
                                                None => 0u64,
                                            },
                                        ),
                                    )
                                    &&& (!old(self).spec_had_error() ==> ((spec_parse_double_bits(t1)
                                        is Some && spec_parse_double_bits(t2) is Some
                                        && spec_parse_double_bits(t3) is Some) <==> !final(self).spec_had_error()))
                                    &&& final(self).spec_current() is None
                                }),
                                _ => true,
                            }),
                            _ => true,
                        }),
                        _ => true,
                    }),
                    _ => true,
                }),
                None => true,
            },
            match old(self).spec_current() {
                Some(n1) => (n1.token_type == TokenType::NumericLiteral) ==> (match spec_scan(
                    old(self).spec_src(),
                    old(self).stream_pos(),
                ) {
                    SpecScan::TokenScan(k1, op1_end) => (spec_binary_opcode(k1) is Some
                        && spec_level(Precedence::Assignment) <= spec_level(spec_get_rule(k1).precedence))
                        ==> (match spec_scan(old(self).spec_src(), op1_end) {
                        SpecScan::TokenScan(m2, num2_end) => (m2 == TokenType::NumericLiteral)
                            ==> (match spec_scan(old(self).spec_src(), num2_end) {
                            SpecScan::TokenScan(k2, op2_end) => (spec_binary_opcode(k2) is Some
                                && spec_level(spec_get_rule(k1).precedence) + 1 <= spec_level(
                                spec_get_rule(k2).precedence,
                            )) ==> (match spec_scan(old(self).spec_src(), op2_end) {
                                SpecScan::TokenScan(m3, num3_end) => (m3 == TokenType::NumericLiteral
                                    && spec_scan(old(self).spec_src(), num3_end) == SpecScan::EndScan)
                                    ==> ({
                                    let t1 = old(self).spec_src().subrange(
                                        n1.pos as int,
                                        n1.pos + n1.length,
                                    );
                                    let t2 = old(self).spec_src().subrange(
                                        spec_trim_from(old(self).spec_src(), op1_end),
                                        num2_end,
                                    );
                                    let t3 = old(self).spec_src().subrange(
                                        spec_trim_from(old(self).spec_src(), op2_end),
                                        num3_end,
                                    );
                                    let base = old(self).spec_program().len() as int;
                                    let c0 = old(self).spec_constants().len() as int;
                                    &&& final(self).spec_program().len() == base + 5
                                    &&& final(self).spec_program()[base].0 == OpCode::OpConstant(
                                        c0 as usize,
                                    )
                                    &&& final(self).spec_program()[base + 1].0 == OpCode::OpConstant(
                                        (c0 + 1) as usize,
                                    )
                                    &&& final(self).spec_program()[base + 2].0 == OpCode::OpConstant(
                                        (c0 + 2) as usize,
                                    )
                                    &&& final(self).spec_program()[base + 3].0 == spec_binary_opcode(
                                        k2,
                                    ).unwrap()
                                    &&& final(self).spec_program()[base + 4].0 == spec_binary_opcode(
                                        k1,
                                    ).unwrap()
                                    &&& final(self).spec_constants() == old(self).spec_constants().push(
                                        Value::Float(
                                            match spec_parse_double_bits(t1) {
                                                Some(b) => b,
                                                None => 0u64,
                                            },
                                        ),
                                    ).push(
                                        Value::Float(
                                            match spec_parse_double_bits(t2) {
                                                Some(b) => b,
                                                None => 0u64,
                                            },
                                        ),
                                    ).push(
                                        Value::Float(
                                            match spec_parse_double_bits(t3) {
                                                Some(b) => b,
                                                None => 0u64,
                                            },
                                        ),
                                    )
                                    &&& (!old(self).spec_had_error() ==> ((spec_parse_double_bits(t1)
                                        is Some && spec_parse_double_bits(t2) is Some
                                        && spec_parse_double_bits(t3) is Some) <==> !final(self).spec_had_error()))
                                    &&& final(self).spec_current() is None
                                }),
                                _ => true,
                            }),
                            _ => true,
                        }),
                        _ => true,
                    }),
                    _ => true,
                }),
                None => true,
            },
            final(self).spec_current() is None ==> final(self).stream_pos()
                == final(self).spec_src().len(),
        decreases old(self).lookahead_units(), 1int,
    {
        self.parse_precedence(Precedence::Assignment)
    }

    /// Parse a parenthesised group, after its `(` was consumed: the inner
    /// expression, then the required `)`.
    pub fn grouping(&mut self)
        requires
            old(self).wf(),
        ensures
            final(self).wf(),
            final(self).spec_src() == old(self).spec_src(),
            old(self).spec_program().is_prefix_of(final(self).spec_program()),
            old(self).spec_constants().is_prefix_of(final(self).spec_constants()),
            final(self).lookahead_units() <= old(self).lookahead_units(),
            old(self).spec_had_error() ==> final(self).spec_had_error(),
            !final(self).spec_had_error() ==> balanced_expr(
                final(self).spec_program().skip(old(self).spec_program().len() as int),
            ),
            match old(self).spec_current() {
                Some(t) => (t.token_type == TokenType::NumericLiteral && (spec_scan(
                    old(self).spec_src(),
                    old(self).stream_pos(),
                ) matches SpecScan::TokenScan(TokenType::RightParen, close_end)
                    && spec_scan_ahead(old(self).spec_src(), close_end).errs.len() == 0)) ==> ({
                    let text = old(self).spec_src().subrange(t.pos as int, t.pos + t.length);
                    &&& final(self).spec_program() == old(self).spec_program().push(
                        (OpCode::OpConstant(old(self).spec_constants().len() as usize), t.line),
                    )
                    &&& final(self).spec_constants() == old(self).spec_constants().push(
                        Value::Float(
                            match spec_parse_double_bits(text) {
                                Some(b) => b,
                                None => 0u64,
                            },
                        ),
                    )
                    &&& (!old(self).spec_had_error() ==> (spec_parse_double_bits(text) is Some
                        <==> !final(self).spec_had_error()))
                }),
                None => true,
            },
            match old(self).spec_current() {
                Some(n1) => (!old(self).spec_had_error() && n1.token_type
                    == TokenType::NumericLiteral) ==> (match spec_scan(
                    old(self).spec_src(),
                    old(self).stream_pos(),
                ) {
                    SpecScan::TokenScan(k1, op_end) => (spec_binary_opcode(k1) is Some)
                        ==> (match spec_scan(old(self).spec_src(), op_end) {
                        SpecScan::TokenScan(k2, num_end) => (k2 == TokenType::NumericLiteral
                            && spec_scan(old(self).spec_src(), num_end) == SpecScan::EndScan
                            && spec_parse_double_bits(
                            old(self).spec_src().subrange(n1.pos as int, n1.pos + n1.length),
                        ) is Some && spec_parse_double_bits(
                            old(self).spec_src().subrange(
                                spec_trim_from(old(self).spec_src(), op_end),
                                num_end,
                            ),
                        ) is Some) ==> {
                            &&& final(self).spec_errors().len() == old(self).spec_errors().len()
                                + 1
                            &&& final(self).spec_errors().last().spec_content()
                                == "Expect ')' after expression"@
                            &&& final(self).spec_errors().last().spec_token() is None
                            &&& final(self).spec_current() is None
                            &&& final(self).spec_had_error()
                        },
                        _ => true,
                    }),
                    _ => true,
                }),
                None => true,
            },
            final(self).spec_current() is None ==> final(self).stream_pos()
                == final(self).spec_src().len(),
        decreases old(self).lookahead_units(), 2int,
    {
        self.expression();
        proof {
            // A closing parenthesis binds at no precedence, so an inner
            // expression ends right before it.
            assert(spec_level(spec_get_rule(TokenType::RightParen).precedence) == 0);
        }
        self.advance_match(TokenType::RightParen, "Expect ')' after expression");
    }

    /// Parse a unary operation, after its operator was consumed: the operand
    /// at unary precedence, then the operator's opcode.
    pub fn unary(&mut self)
        requires
            old(self).wf(),
        ensures
            final(self).wf(),
            final(self).spec_src() == old(self).spec_src(),
            old(self).spec_program().is_prefix_of(final(self).spec_program()),
            old(self).spec_constants().is_prefix_of(final(self).spec_constants()),
            final(self).lookahead_units() <= old(self).lookahead_units(),
            old(self).spec_had_error() ==> final(self).spec_had_error(),
            !final(self).spec_had_error() ==> balanced_expr(
                final(self).spec_program().skip(old(self).spec_program().len() as int),
            ),
            match old(self).spec_previous() {
                Some(t) => (!final(self).spec_had_error() && spec_unary_opcode(t.token_type)
                    is Some) ==> {
                    &&& final(self).spec_program().len() > old(self).spec_program().len()
                    &&& final(self).spec_program().last() == (
                        spec_unary_opcode(t.token_type).unwrap(),
                        t.line,
                    )
                    &&& balanced_expr(
                        final(self).spec_program().skip(
                            old(self).spec_program().len() as int,
                        ).drop_last(),
                    )
                },
                None => true,
            },
            match (old(self).spec_previous(), old(self).spec_current()) {
                (Some(op), Some(t)) => (spec_unary_opcode(op.token_type) is Some && t.token_type
                    == TokenType::NumericLiteral && spec_follow_exits(
                    old(self).spec_src(),
                    old(self).stream_pos(),
                    spec_level(Precedence::Unary),
                )) ==> ({
                    let text = old(self).spec_src().subrange(t.pos as int, t.pos + t.length);
                    &&& final(self).spec_program() == old(self).spec_program().push(
                        (OpCode::OpConstant(old(self).spec_constants().len() as usize), t.line),
                    ).push((spec_unary_opcode(op.token_type).unwrap(), op.line))
                    &&& final(self).spec_constants() == old(self).spec_constants().push(
                        Value::Float(
                            match spec_parse_double_bits(text) {
                                Some(b) => b,
                                None => 0u64,
                            },
                        ),
                    )
                    &&& (!old(self).spec_had_error() ==> (spec_parse_double_bits(text) is Some
                        <==> !final(self).spec_had_error()))
                }),
                _ => true,
            },
            final(self).spec_current() is None ==> final(self).stream_pos()
                == final(self).spec_src().len(),
        decreases old(self).lookahead_units(), 2int,
    {
        let ghost len0 = self.spec_program().len() as int;
        let previous_token = self.previous_token;
        self.parse_precedence(Precedence::Unary);
        let ghost sub = self.spec_program().skip(len0);
        match previous_token {
            Some(t) => {
                match t.token_type {
                    TokenType::Minus => {
                        self.push_op(OpCode::OpNegate, t.line);
                        proof {
                            if !self.spec_had_error() {
                                lemma_balanced_unary(sub, (OpCode::OpNegate, t.line));
                                assert(self.spec_program().skip(len0) =~= sub.push(
                                    (OpCode::OpNegate, t.line),
                                ));
                                assert(self.spec_program().skip(len0).drop_last() =~= sub);
                            }
                        }
                    },
                    TokenType::Bang => {
                        self.push_op(OpCode::OpNot, t.line);
                        proof {
                            if !self.spec_had_error() {
                                lemma_balanced_unary(sub, (OpCode::OpNot, t.line));
                                assert(self.spec_program().skip(len0) =~= sub.push(
                                    (OpCode::OpNot, t.line),
                                ));
                                assert(self.spec_program().skip(len0).drop_last() =~= sub);
                            }
                        }
                    },
                    _ => {},
                }
            },
            None => {},
        }
    }

    /// Parse the right side of a binary operation, after its operator was
    /// consumed: the right operand one level above the operator's own
    /// precedence (left associativity), then the operator's opcode.
    pub fn binary(&mut self)
        requires
            old(self).wf(),
        ensures
            final(self).wf(),
            final(self).spec_src() == old(self).spec_src(),
            old(self).spec_program().is_prefix_of(final(self).spec_program()),
            old(self).spec_constants().is_prefix_of(final(self).spec_constants()),
            final(self).lookahead_units() <= old(self).lookahead_units(),
            old(self).spec_had_error() ==> final(self).spec_had_error(),
            match old(self).spec_previous() {
                Some(t) => (spec_get_rule(t.token_type).infix is Some && !final(self).spec_had_error())
                    ==> balanced_extension(
                    final(self).spec_program().skip(old(self).spec_program().len() as int),
                ),
                None => final(self).spec_program() == old(self).spec_program(),
            },
            match old(self).spec_previous() {
                Some(t) => (!final(self).spec_had_error() && spec_binary_opcode(t.token_type)
                    is Some) ==> {
                    &&& final(self).spec_program().len() > old(self).spec_program().len()
                    &&& final(self).spec_program().last() == (
                        spec_binary_opcode(t.token_type).unwrap(),
                        t.line,
                    )
                    &&& balanced_expr(
                        final(self).spec_program().skip(
                            old(self).spec_program().len() as int,
                        ).drop_last(),
                    )
                },
                None => true,
            },
            match (old(self).spec_previous(), old(self).spec_current()) {
                (Some(op), Some(t)) => (spec_binary_opcode(op.token_type) is Some
                    && t.token_type == TokenType::NumericLiteral) ==> (match spec_scan(
                    old(self).spec_src(),
                    old(self).stream_pos(),
                ) {
                    SpecScan::TokenScan(k2, op2_end) => (spec_binary_opcode(k2) is Some
                        && spec_level(spec_get_rule(op.token_type).precedence) + 1 <= spec_level(
                        spec_get_rule(k2).precedence,
                    )) ==> (match spec_scan(old(self).spec_src(), op2_end) {
                        SpecScan::TokenScan(m3, num3_end) => (m3 == TokenType::NumericLiteral
                            && spec_scan(old(self).spec_src(), num3_end) == SpecScan::EndScan)
                            ==> ({
                            let t1 = old(self).spec_src().subrange(
                                t.pos as int,
                                t.pos + t.length,
                            );
                            let t2 = old(self).spec_src().subrange(
                                spec_trim_from(old(self).spec_src(), op2_end),
                                num3_end,
                            );
                            let base = old(self).spec_program().len() as int;
                            let c0 = old(self).spec_constants().len() as int;
                            &&& final(self).spec_program().len() == base + 4
                            &&& final(self).spec_program()[base] == (
                                OpCode::OpConstant(c0 as usize),
                                t.line,
                            )
                            &&& final(self).spec_program()[base + 1].0 == OpCode::OpConstant(
                                (c0 + 1) as usize,
                            )
                            &&& final(self).spec_program()[base + 2].0 == spec_binary_opcode(
                                k2,
                            ).unwrap()
                            &&& final(self).spec_program()[base + 3] == (
                                spec_binary_opcode(op.token_type).unwrap(),
                                op.line,
                            )
                            &&& final(self).spec_constants() == old(self).spec_constants().push(
                                Value::Float(
                                    match spec_parse_double_bits(t1) {
                                        Some(b) => b,
                                        None => 0u64,
                                    },
                                ),
                            ).push(
                                Value::Float(
                                    match spec_parse_double_bits(t2) {
                                        Some(b) => b,
                                        None => 0u64,
                                    },
                                ),
                            )
                            &&& (!old(self).spec_had_error() ==> ((spec_parse_double_bits(t1)
                                is Some && spec_parse_double_bits(t2) is Some)
                                <==> !final(self).spec_had_error()))
                            &&& final(self).spec_current() is None
                        }),
                        _ => true,
                    }),
                    _ => true,
                }),
                _ => true,
            },
            match (old(self).spec_previous(), old(self).spec_current()) {
                (Some(op), Some(t)) => (spec_binary_opcode(op.token_type) is Some
                    && t.token_type == TokenType::NumericLiteral && spec_follow_exits(
                    old(self).spec_src(),
                    old(self).stream_pos(),
                    spec_level(spec_get_rule(op.token_type).precedence) + 1,
                )) ==> ({
                    let text = old(self).spec_src().subrange(t.pos as int, t.pos + t.length);
                    &&& final(self).spec_program() == old(self).spec_program().push(
                        (OpCode::OpConstant(old(self).spec_constants().len() as usize), t.line),
                    ).push((spec_binary_opcode(op.token_type).unwrap(), op.line))
                    &&& final(self).spec_constants() == old(self).spec_constants().push(
                        Value::Float(
                            match spec_parse_double_bits(text) {
                                Some(b) => b,
                                None => 0u64,
                            },
                        ),
                    )
                    &&& (!old(self).spec_had_error() ==> (spec_parse_double_bits(text) is Some
                        <==> !final(self).spec_had_error()))
                    &&& match spec_scan(old(self).spec_src(), old(self).stream_pos()) {
                        SpecScan::EndScan => final(self).spec_current() is None,
                        SpecScan::TokenScan(k, e) => final(self).spec_current() matches Some(f)
                            && f.token_type == k && f.pos + f.length == e
                            && final(self).stream_pos() == e,
                        _ => true,
                    }
                }),
                _ => true,
            },
            (old(self).spec_current() is None ==> old(self).stream_pos()
                == old(self).spec_src().len()) ==> (final(self).spec_current() is None
                ==> final(self).stream_pos() == final(self).spec_src().len()),
        decreases old(self).lookahead_units(), 2int,
    {
        let ghost len0 = self.spec_program().len() as int;
        let token = match self.previous_token {
            Some(t) => t,
            None => { return ; },
        };
        let rule = get_rule(token.token_type);
        self.parse_precedence(rule.precedence.one_higher());
        let ghost sub = self.spec_program().skip(len0);
        let op: Option<OpCode> = match token.token_type {
            TokenType::Plus => Some(OpCode::OpAdd),
            TokenType::Minus => Some(OpCode::OpSubtract),
            TokenType::Star => Some(OpCode::OpMultiply),
            TokenType::Slash => Some(OpCode::OpDivide),
            TokenType::EqualEqual => Some(OpCode::OpEqual),
            TokenType::BangEqual => Some(OpCode::OpNotEqual),
            TokenType::Greater => Some(OpCode::OpGreater),
            TokenType::GreaterEqual => Some(OpCode::OpGreaterEqual),
            TokenType::Less => Some(OpCode::OpLess),
            TokenType::LessEqual => Some(OpCode::OpLessEqual),
            _ => None,
        };
        match op {
            Some(opcode) => {
                self.push_op(opcode, token.line);
                proof {
                    if !self.spec_had_error() {
                        lemma_extension_from_operand(sub, (opcode, token.line));
                        assert(self.spec_program().skip(len0) =~= sub.push((opcode, token.line)));
                        assert(self.spec_program().skip(len0).drop_last() =~= sub);
                    }
                }
            },
            None => {},
        }
    }

    /// Compile a numeric literal, after its token was consumed: read its
    /// characters as a decimal number and emit a push of the new constant.
    /// An unreadable literal is a recorded error that substitutes zero
    /// rather than aborting.
    pub fn number(&mut self)
        requires
            old(self).wf(),
            old(self).spec_previous() is Some,
        ensures
            final(self).wf(),
            final(self).spec_src() == old(self).spec_src(),
            final(self).lookahead_units() == old(self).lookahead_units(),
            old(self).spec_had_error() ==> final(self).spec_had_error(),
            final(self).spec_current() == old(self).spec_current(),
            final(self).spec_previous() == old(self).spec_previous(),
            final(self).stream_pos() == old(self).stream_pos(),
            ({
                let t = old(self).spec_previous().unwrap();
                let text = old(self).spec_src().subrange(t.pos as int, t.pos + t.length);
                let bits = match spec_parse_double_bits(text) {
                    Some(b) => b,
                    None => 0u64,
                };
                &&& final(self).spec_constants() == old(self).spec_constants().push(
                    Value::Float(bits),
                )
                &&& final(self).spec_program() == old(self).spec_program().push(
                    (OpCode::OpConstant(old(self).spec_constants().len() as usize), t.line),
                )
                &&& (spec_parse_double_bits(text) is None ==> final(self).spec_had_error())
                &&& (spec_parse_double_bits(text) is Some ==> final(self).spec_errors() == old(
                    self,
                ).spec_errors() && final(self).spec_had_error() == old(self).spec_had_error())
            }),
    {
        let t = self.previous_token.unwrap();
        let _bound = self.source.len();
        let text: &[char] = &self.source[t.pos..t.pos + t.length];
        let num: u64 = match parse_double_bits(text) {
            Some(b) => b,
            None => {
                self.error("Failed to parse number, defaulting to 0");
                0
            },
        };
        proof {
            assert(text@ =~= old(self).spec_src().subrange(t.pos as int, t.pos + t.length));
        }
        let idx = self.constants.push(Value::Float(num));
        self.program.push((OpCode::OpConstant(idx), t.line));
    }

    /// Compile a literal keyword, after its token was consumed: `nil`,
    /// `true` and `false` each emit their own push opcode.
    pub fn literal(&mut self)
        requires
            old(self).wf(),
        ensures
            final(self).wf(),
            final(self).spec_src() == old(self).spec_src(),
            final(self).spec_constants() == old(self).spec_constants(),
            final(self).lookahead_units() == old(self).lookahead_units(),
            final(self).spec_had_error() == old(self).spec_had_error(),
            final(self).spec_current() == old(self).spec_current(),
            final(self).spec_previous() == old(self).spec_previous(),
            final(self).stream_pos() == old(self).stream_pos(),
            match old(self).spec_previous() {
                Some(t) => match t.token_type {
                    TokenType::FalseIdent => final(self).spec_program() == old(
                        self,
                    ).spec_program().push((OpCode::OpFalse, t.line)),
                    TokenType::TrueIdent => final(self).spec_program() == old(
                        self,
                    ).spec_program().push((OpCode::OpTrue, t.line)),
                    TokenType::Nil => final(self).spec_program() == old(
                        self,
                    ).spec_program().push((OpCode::OpNil, t.line)),
                    _ => final(self).spec_program() == old(self).spec_program(),
                },
                None => final(self).spec_program() == old(self).spec_program(),
            },
    {
        match self.previous_token {
            Some(t) => {
                match t.token_type {
                    TokenType::FalseIdent => self.push_op(OpCode::OpFalse, t.line),
                    TokenType::TrueIdent => self.push_op(OpCode::OpTrue, t.line),
                    TokenType::Nil => self.push_op(OpCode::OpNil, t.line),
                    _ => {},
                }
            },
            None => {},
        }
    }

    /// Append one opcode that carries no constant index.
    fn push_op(&mut self, op: OpCode, line: usize)
        requires
            old(self).wf(),
            !(op is OpConstant),
        ensures
            final(self).wf(),
            final(self).spec_src() == old(self).spec_src(),
            final(self).spec_constants() == old(self).spec_constants(),
            final(self).spec_errors() == old(self).spec_errors(),
            final(self).spec_had_error() == old(self).spec_had_error(),
            final(self).spec_current() == old(self).spec_current(),
            final(self).spec_previous() == old(self).spec_previous(),
            final(self).lookahead_units() == old(self).lookahead_units(),
            final(self).spec_program() == old(self).spec_program().push((op, line)),
    {
        self.program.push((op, line));
    }

    /// The heart of the Pratt parser. Consume one token and parse a prefix
    /// expression with its handler (reporting "Expect expression." when the
    /// token has none, or the input is exhausted); then, as long as the
    /// current token binds at least as tightly as asked, consume it and let
    /// its infix handler extend the expression to the left.
    #[verifier::rlimit(100)]
    fn parse_precedence(&mut self, precedence: Precedence)
        requires
            old(self).wf(),
        ensures
            final(self).wf(),
            final(self).spec_src() == old(self).spec_src(),
            old(self).spec_program().is_prefix_of(final(self).spec_program()),
            old(self).spec_constants().is_prefix_of(final(self).spec_constants()),
            final(self).lookahead_units() <= old(self).lookahead_units(),
            old(self).spec_had_error() ==> final(self).spec_had_error(),
            !final(self).spec_had_error() ==> balanced_expr(
                final(self).spec_program().skip(old(self).spec_program().len() as int),
            ),
            (!old(self).spec_had_error() && old(self).spec_current() is None && spec_scan(
                old(self).spec_src(),
                old(self).stream_pos(),
            ) == SpecScan::EndScan) ==> {
                &&& final(self).spec_program() == old(self).spec_program()
                &&& final(self).spec_errors().len() == old(self).spec_errors().len() + 1
                &&& final(self).spec_errors().last().spec_content() == "Expect expression."@
                &&& final(self).spec_errors().last().spec_token() is None
                &&& final(self).spec_current() is None
            },
            match old(self).spec_current() {
                Some(t) => (t.token_type == TokenType::NumericLiteral && spec_follow_exits(
                    old(self).spec_src(),
                    old(self).stream_pos(),
                    spec_level(precedence),
                )) ==> ({
                    let text = old(self).spec_src().subrange(t.pos as int, t.pos + t.length);
                    &&& final(self).spec_program() == old(self).spec_program().push(
                        (OpCode::OpConstant(old(self).spec_constants().len() as usize), t.line),
                    )
                    &&& final(self).spec_constants() == old(self).spec_constants().push(
                        Value::Float(
                            match spec_parse_double_bits(text) {
                                Some(b) => b,
                                None => 0u64,
                            },
                        ),
                    )
                    &&& (!old(self).spec_had_error() ==> (spec_parse_double_bits(text) is Some
                        <==> !final(self).spec_had_error()))
                    &&& match spec_scan(old(self).spec_src(), old(self).stream_pos()) {
                        SpecScan::EndScan => final(self).spec_current() is None,
                        SpecScan::TokenScan(k, e) => final(self).spec_current() matches Some(f)
                            && f.token_type == k && f.pos + f.length == e
                            && final(self).stream_pos() == e,
                        _ => true,
                    }
                }),
                None => true,
            },
            match old(self).spec_current() {
                Some(t) => (!old(self).spec_had_error() && spec_get_rule(t.token_type).prefix
                    is None && spec_follow_exits(
                    old(self).spec_src(),
                    old(self).stream_pos(),
                    spec_level(precedence),
                )) ==> {
                    &&& final(self).spec_program() == old(self).spec_program()
                    &&& final(self).spec_constants() == old(self).spec_constants()
                    &&& final(self).spec_errors().len() == old(self).spec_errors().len() + 1
                    &&& final(self).spec_errors().last().spec_content() == "Expect expression."@
                    &&& final(self).spec_errors().last().spec_token() == Some(
                        Ok::<Token, crate::tokenizer::TokenErr>(t),
                    )
                    &&& match spec_scan(old(self).spec_src(), old(self).stream_pos()) {
                        SpecScan::EndScan => final(self).spec_current() is None,
                        SpecScan::TokenScan(k, e) => final(self).spec_current() matches Some(f)
                            && f.token_type == k,
                        _ => true,
                    }
                },
                None => true,
            },
            match old(self).spec_current() {
                Some(n1) => (n1.token_type == TokenType::NumericLiteral) ==> (match spec_scan(
                    old(self).spec_src(),
                    old(self).stream_pos(),
                ) {
                    SpecScan::TokenScan(k1, op_end) => (spec_binary_opcode(k1) is Some
                        && spec_level(precedence) <= spec_level(spec_get_rule(k1).precedence))
                        ==> (match spec_scan(old(self).spec_src(), op_end) {
                        SpecScan::TokenScan(k2, num_end) => (k2 == TokenType::NumericLiteral
                            && spec_scan(old(self).spec_src(), num_end) == SpecScan::EndScan)
                            ==> ({
                            let t1 = old(self).spec_src().subrange(
                                n1.pos as int,
                                n1.pos + n1.length,
                            );
                            let t2 = old(self).spec_src().subrange(
                                spec_trim_from(old(self).spec_src(), op_end),
                                num_end,
                            );
                            &&& final(self).spec_program().len() == old(self).spec_program().len() + 3
                            &&& final(self).spec_program()[old(self).spec_program().len() as int]
                                == (
                                OpCode::OpConstant(old(self).spec_constants().len() as usize),
                                n1.line,
                            )
                            &&& final(self).spec_program()[old(self).spec_program().len() as int
                                + 1].0 == OpCode::OpConstant(
                                (old(self).spec_constants().len() + 1) as usize,
                            )
                            &&& final(self).spec_program()[old(self).spec_program().len() as int
                                + 2].0 == spec_binary_opcode(k1).unwrap()
                            &&& final(self).spec_constants() == old(self).spec_constants().push(
                                Value::Float(
                                    match spec_parse_double_bits(t1) {
                                        Some(b) => b,
                                        None => 0u64,
                                    },
                                ),
                            ).push(
                                Value::Float(
                                    match spec_parse_double_bits(t2) {
                                        Some(b) => b,
                                        None => 0u64,
                                    },
                                ),
                            )
                            &&& (!old(self).spec_had_error() ==> ((spec_parse_double_bits(t1)
                                is Some && spec_parse_double_bits(t2) is Some) <==> !final(self).spec_had_error()))
                            &&& final(self).spec_current() is None
                        }),
                        _ => true,
                    }),
                    _ => true,
                }),
                None => true,
            },
            match old(self).spec_current() {
                Some(lp) => (!old(self).spec_had_error() && lp.token_type
                    == TokenType::LeftParen) ==> (match spec_scan(
                    old(self).spec_src(),
                    old(self).stream_pos(),
                ) {
                    SpecScan::TokenScan(t1k, num1_end) => (t1k == TokenType::NumericLiteral)
                        ==> (match spec_scan(old(self).spec_src(), num1_end) {
                        SpecScan::TokenScan(k1, op_end) => (spec_binary_opcode(k1) is Some)
                            ==> (match spec_scan(old(self).spec_src(), op_end) {
                            SpecScan::TokenScan(k2, num2_end) => (k2
                                == TokenType::NumericLiteral && spec_scan(
                                old(self).spec_src(),
                                num2_end,
                            ) == SpecScan::EndScan && spec_parse_double_bits(
                                old(self).spec_src().subrange(
                                    spec_trim_from(
                                        old(self).spec_src(),
                                        old(self).stream_pos(),
                                    ),
                                    num1_end,
                                ),
                            ) is Some && spec_parse_double_bits(
                                old(self).spec_src().subrange(
                                    spec_trim_from(old(self).spec_src(), op_end),
                                    num2_end,
                                ),
                            ) is Some) ==> {
                                &&& final(self).spec_errors().len() == old(
                                    self,
                                ).spec_errors().len() + 1
                                &&& final(self).spec_errors().last().spec_content()
                                    == "Expect ')' after expression"@
                                &&& final(self).spec_errors().last().spec_token() is None
                                &&& final(self).spec_current() is None
                                &&& final(self).spec_had_error()
                            },
                            _ => true,
                        }),
                        _ => true,
                    }),
                    _ => true,
                }),
                None => true,
            },
            match old(self).spec_current() {
                Some(n1) => (n1.token_type == TokenType::NumericLiteral) ==> (match spec_scan(
                    old(self).spec_src(),
                    old(self).stream_pos(),
                ) {
                    SpecScan::TokenScan(k1, op1_end) => (spec_binary_opcode(k1) is Some
                        && spec_level(precedence) <= spec_level(spec_get_rule(k1).precedence))
                        ==> (match spec_scan(old(self).spec_src(), op1_end) {
                        SpecScan::TokenScan(m2, num2_end) => (m2 == TokenType::NumericLiteral)
                            ==> (match spec_scan(old(self).spec_src(), num2_end) {
                            SpecScan::TokenScan(k2, op2_end) => (spec_binary_opcode(k2) is Some
                                && spec_level(spec_get_rule(k2).precedence) <= spec_level(
                                spec_get_rule(k1).precedence,
                            ) && spec_level(precedence) <= spec_level(spec_get_rule(k2).precedence))
                                ==> (match spec_scan(old(self).spec_src(), op2_end) {
                                SpecScan::TokenScan(m3, num3_end) => (m3 == TokenType::NumericLiteral
                                    && spec_scan(old(self).spec_src(), num3_end) == SpecScan::EndScan)
                                    ==> ({
                                    let t1 = old(self).spec_src().subrange(
                                        n1.pos as int,
                                        n1.pos + n1.length,
                                    );
                                    let t2 = old(self).spec_src().subrange(
                                        spec_trim_from(old(self).spec_src(), op1_end),
                                        num2_end,
                                    );
                                    let t3 = old(self).spec_src().subrange(
                                        spec_trim_from(old(self).spec_src(), op2_end),
                                        num3_end,
                                    );
                                    let base = old(self).spec_program().len() as int;
                                    let c0 = old(self).spec_constants().len() as int;
                                    &&& final(self).spec_program().len() == base + 5
                                    &&& final(self).spec_program()[base].0 == OpCode::OpConstant(c0 as usize)
                                    &&& final(self).spec_program()[base + 1].0 == OpCode::OpConstant(
                                        (c0 + 1) as usize,
                                    )
                                    &&& final(self).spec_program()[base + 2].0 == spec_binary_opcode(
                                        k1,
                                    ).unwrap()
                                    &&& final(self).spec_program()[base + 3].0 == OpCode::OpConstant(
                                        (c0 + 2) as usize,
                                    )
                                    &&& final(self).spec_program()[base + 4].0 == spec_binary_opcode(
                                        k2,
                                    ).unwrap()
                                    &&& final(self).spec_constants() == old(self).spec_constants().push(
                                        Value::Float(
                                            match spec_parse_double_bits(t1) {
                                                Some(b) => b,
                                                None => 0u64,
                                            },
                                        ),
                                    ).push(
                                        Value::Float(
                                            match spec_parse_double_bits(t2) {
                                                Some(b) => b,
                                                None => 0u64,
                                            },
                                        ),
                                    ).push(
                                        Value::Float(
                                            match spec_parse_double_bits(t3) {
                                                Some(b) => b,
                                                None => 0u64,
                                            },
                                        ),
                                    )
                                    &&& (!old(self).spec_had_error() ==> ((spec_parse_double_bits(t1)
                                        is Some && spec_parse_double_bits(t2) is Some
                                        && spec_parse_double_bits(t3) is Some) <==> !final(self).spec_had_error()))
                                    &&& final(self).spec_current() is None
                                }),
                                _ => true,
                            }),
                            _ => true,
                        }),
                        _ => true,
                    }),
                    _ => true,
                }),
                None => true,
            },
            match old(self).spec_current() {
                Some(n1) => (n1.token_type == TokenType::NumericLiteral) ==> (match spec_scan(
                    old(self).spec_src(),
                    old(self).stream_pos(),
                ) {
                    SpecScan::TokenScan(k1, op1_end) => (spec_binary_opcode(k1) is Some
                        && spec_level(precedence) <= spec_level(spec_get_rule(k1).precedence))
                        ==> (match spec_scan(old(self).spec_src(), op1_end) {
                        SpecScan::TokenScan(m2, num2_end) => (m2 == TokenType::NumericLiteral)
                            ==> (match spec_scan(old(self).spec_src(), num2_end) {
                            SpecScan::TokenScan(k2, op2_end) => (spec_binary_opcode(k2) is Some
                                && spec_level(spec_get_rule(k1).precedence) + 1 <= spec_level(
                                spec_get_rule(k2).precedence,
                            )) ==> (match spec_scan(old(self).spec_src(), op2_end) {
                                SpecScan::TokenScan(m3, num3_end) => (m3 == TokenType::NumericLiteral
                                    && spec_scan(old(self).spec_src(), num3_end) == SpecScan::EndScan)
                                    ==> ({
                                    let t1 = old(self).spec_src().subrange(
                                        n1.pos as int,
                                        n1.pos + n1.length,
                                    );
                                    let t2 = old(self).spec_src().subrange(
                                        spec_trim_from(old(self).spec_src(), op1_end),
                                        num2_end,
                                    );
                                    let t3 = old(self).spec_src().subrange(
                                        spec_trim_from(old(self).spec_src(), op2_end),
                                        num3_end,
                                    );
                                    let base = old(self).spec_program().len() as int;
                                    let c0 = old(self).spec_constants().len() as int;
                                    &&& final(self).spec_program().len() == base + 5
                                    &&& final(self).spec_program()[base].0 == OpCode::OpConstant(
                                        c0 as usize,
                                    )
                                    &&& final(self).spec_program()[base + 1].0 == OpCode::OpConstant(
                                        (c0 + 1) as usize,
                                    )
                                    &&& final(self).spec_program()[base + 2].0 == OpCode::OpConstant(
                                        (c0 + 2) as usize,
                                    )
                                    &&& final(self).spec_program()[base + 3].0 == spec_binary_opcode(
                                        k2,
                                    ).unwrap()
                                    &&& final(self).spec_program()[base + 4].0 == spec_binary_opcode(
                                        k1,
                                    ).unwrap()
                                    &&& final(self).spec_constants() == old(self).spec_constants().push(
                                        Value::Float(
                                            match spec_parse_double_bits(t1) {
                                                Some(b) => b,
                                                None => 0u64,
                                            },
                                        ),
                                    ).push(
                                        Value::Float(
                                            match spec_parse_double_bits(t2) {
                                                Some(b) => b,
                                                None => 0u64,
                                            },
                                        ),
                                    ).push(
                                        Value::Float(
                                            match spec_parse_double_bits(t3) {
                                                Some(b) => b,
                                                None => 0u64,
                                            },
                                        ),
                                    )
                                    &&& (!old(self).spec_had_error() ==> ((spec_parse_double_bits(t1)
                                        is Some && spec_parse_double_bits(t2) is Some
                                        && spec_parse_double_bits(t3) is Some) <==> !final(self).spec_had_error()))
                                    &&& final(self).spec_current() is None
                                }),
                                _ => true,
                            }),
                            _ => true,
                        }),
                        _ => true,
                    }),
                    _ => true,
                }),
                None => true,
            },
            final(self).spec_current() is None ==> final(self).stream_pos()
                == final(self).spec_src().len(),
        decreases old(self).lookahead_units(), 0int,
    {
        let ghost len0 = self.spec_program().len() as int;
        let ghost units0 = self.lookahead_units();
        let ghost had_current = self.spec_current() is Some;
        self.advance();
        match self.previous_token {
            Some(token) => {
                match get_rule(token.token_type).prefix {
                    Some(PrefixRule::Grouping) => self.grouping(),
                    Some(PrefixRule::Unary) => self.unary(),
                    Some(PrefixRule::Number) => {
                        self.number();
                        proof {
                            if !self.spec_had_error() {
                                lemma_balanced_single(self.spec_program().last());
                                assert(self.spec_program().skip(len0) =~= seq![
                                    self.spec_program().last(),
                                ]);
                            }
                        }
                    },
                    Some(PrefixRule::Literal) => {
                        self.literal();
                        proof {
                            if !self.spec_had_error() {
                                // A literal handler runs only for the three
                                // literal keywords, each of which pushes.
                                if self.spec_program().len() > len0 {
                                    lemma_balanced_single(self.spec_program().last());
                                    assert(self.spec_program().skip(len0) =~= seq![
                                        self.spec_program().last(),
                                    ]);
                                }
                            }
                        }
                    },
                    None => self.error("Expect expression."),
                }
            },
            None => {
                // The input ran out where an expression was owed.
                let wrapped: OTokenResult = None;
                self.error_at(&wrapped, "Expect expression.");
            },
        }
        loop
            invariant
                self.wf(),
                self.spec_src() == old(self).spec_src(),
                old(self).spec_program().is_prefix_of(self.spec_program()),
                old(self).spec_constants().is_prefix_of(self.spec_constants()),
                len0 == old(self).spec_program().len() as int,
                self.lookahead_units() <= units0,
                units0 == old(self).lookahead_units(),
                had_current ==> self.lookahead_units() < units0,
                old(self).spec_had_error() ==> self.spec_had_error(),
                self.spec_current() is None ==> self.stream_pos() == self.spec_src().len(),
                !self.spec_had_error() ==> balanced_expr(self.spec_program().skip(len0)),
                (!old(self).spec_had_error() && old(self).spec_current() is None && spec_scan(
                    old(self).spec_src(),
                    old(self).stream_pos(),
                ) == SpecScan::EndScan) ==> {
                    &&& self.spec_program() == old(self).spec_program()
                    &&& self.spec_errors().len() == old(self).spec_errors().len() + 1
                    &&& self.spec_errors().last().spec_content() == "Expect expression."@
                    &&& self.spec_errors().last().spec_token() is None
                    &&& self.spec_current() is None
                },
                match old(self).spec_current() {
                    Some(t) => (t.token_type == TokenType::NumericLiteral && spec_follow_exits(
                        old(self).spec_src(),
                        old(self).stream_pos(),
                        spec_level(precedence),
                    )) ==> ({
                        let text = old(self).spec_src().subrange(t.pos as int, t.pos + t.length);
                        &&& self.spec_program() == old(self).spec_program().push(
                            (
                                OpCode::OpConstant(old(self).spec_constants().len() as usize),
                                t.line,
                            ),
                        )
                        &&& self.spec_constants() == old(self).spec_constants().push(
                            Value::Float(
                                match spec_parse_double_bits(text) {
                                    Some(b) => b,
                                    None => 0u64,
                                },
                            ),
                        )
                        &&& (!old(self).spec_had_error() ==> (spec_parse_double_bits(text)
                            is Some <==> !self.spec_had_error()))
                        &&& match spec_scan(old(self).spec_src(), old(self).stream_pos()) {
                            SpecScan::EndScan => self.spec_current() is None,
                            SpecScan::TokenScan(k, e) => self.spec_current() matches Some(f)
                                && f.token_type == k && f.pos + f.length == e
                                && self.stream_pos() == e,
                            _ => true,
                        }
                    }),
                    None => true,
                },
                match old(self).spec_current() {
                    Some(t) => (!old(self).spec_had_error() && spec_get_rule(
                        t.token_type,
                    ).prefix is None && spec_follow_exits(
                        old(self).spec_src(),
                        old(self).stream_pos(),
                        spec_level(precedence),
                    )) ==> {
                        &&& self.spec_program() == old(self).spec_program()
                        &&& self.spec_constants() == old(self).spec_constants()
                        &&& self.spec_errors().len() == old(self).spec_errors().len() + 1
                        &&& self.spec_errors().last().spec_content() == "Expect expression."@
                        &&& self.spec_errors().last().spec_token() == Some(
                            Ok::<Token, crate::tokenizer::TokenErr>(t),
                        )
                        &&& match spec_scan(old(self).spec_src(), old(self).stream_pos()) {
                            SpecScan::EndScan => self.spec_current() is None,
                            SpecScan::TokenScan(k, e) => self.spec_current() matches Some(f)
                                && f.token_type == k,
                            _ => true,
                        }
                    },
                    None => true,
                },
                match old(self).spec_current() {
                    Some(n1) => (n1.token_type == TokenType::NumericLiteral) ==> (match spec_scan(
                        old(self).spec_src(),
                        old(self).stream_pos(),
                    ) {
                        SpecScan::TokenScan(k1, op_end) => (spec_binary_opcode(k1) is Some
                            && spec_level(precedence) <= spec_level(spec_get_rule(k1).precedence))
                            ==> (match spec_scan(old(self).spec_src(), op_end) {
                            SpecScan::TokenScan(k2, num_end) => (k2 == TokenType::NumericLiteral
                                && spec_scan(old(self).spec_src(), num_end)
                                == SpecScan::EndScan) ==> ({
                                let t1 = old(self).spec_src().subrange(
                                    n1.pos as int,
                                    n1.pos + n1.length,
                                );
                                let t2 = old(self).spec_src().subrange(
                                    spec_trim_from(old(self).spec_src(), op_end),
                                    num_end,
                                );
                                ||| ({
                                    &&& self.spec_program() == old(self).spec_program().push(
                                        (
                                            OpCode::OpConstant(
                                                old(self).spec_constants().len() as usize,
                                            ),
                                            n1.line,
                                        ),
                                    )
                                    &&& self.spec_constants() == old(
                                        self,
                                    ).spec_constants().push(
                                        Value::Float(
                                            match spec_parse_double_bits(t1) {
                                                Some(b) => b,
                                                None => 0u64,
                                            },
                                        ),
                                    )
                                    &&& self.spec_current() matches Some(f) && f.token_type == k1
                                        && f.pos + f.length == op_end
                                    &&& self.stream_pos() == op_end
                                    &&& (!old(self).spec_had_error() ==> (spec_parse_double_bits(
                                        t1,
                                    ) is Some <==> !self.spec_had_error()))
                                })
                                ||| ({
                                    &&& self.spec_program().len() == old(
                                        self,
                                    ).spec_program().len() + 3
                                    &&& self.spec_program()[old(self).spec_program().len() as int]
                                        == (
                                        OpCode::OpConstant(
                                            old(self).spec_constants().len() as usize,
                                        ),
                                        n1.line,
                                    )
                                    &&& self.spec_program()[old(self).spec_program().len() as int
                                        + 1].0 == OpCode::OpConstant(
                                        (old(self).spec_constants().len() + 1) as usize,
                                    )
                                    &&& self.spec_program()[old(self).spec_program().len() as int
                                        + 2].0 == spec_binary_opcode(k1).unwrap()
                                    &&& self.spec_constants() == old(
                                        self,
                                    ).spec_constants().push(
                                        Value::Float(
                                            match spec_parse_double_bits(t1) {
                                                Some(b) => b,
                                                None => 0u64,
                                            },
                                        ),
                                    ).push(
                                        Value::Float(
                                            match spec_parse_double_bits(t2) {
                                                Some(b) => b,
                                                None => 0u64,
                                            },
                                        ),
                                    )
                                    &&& (!old(self).spec_had_error() ==> ((spec_parse_double_bits(
                                        t1,
                                    ) is Some && spec_parse_double_bits(t2) is Some)
                                        <==> !self.spec_had_error()))
                                    &&& self.spec_current() is None
                                })
                            }),
                            _ => true,
                        }),
                        _ => true,
                    }),
                    None => true,
                },
                match old(self).spec_current() {
                    Some(lp) => (!old(self).spec_had_error() && lp.token_type
                        == TokenType::LeftParen) ==> (match spec_scan(
                        old(self).spec_src(),
                        old(self).stream_pos(),
                    ) {
                        SpecScan::TokenScan(t1k, num1_end) => (t1k == TokenType::NumericLiteral)
                            ==> (match spec_scan(old(self).spec_src(), num1_end) {
                            SpecScan::TokenScan(k1, op_end) => (spec_binary_opcode(k1) is Some)
                                ==> (match spec_scan(old(self).spec_src(), op_end) {
                                SpecScan::TokenScan(k2, num2_end) => (k2
                                    == TokenType::NumericLiteral && spec_scan(
                                    old(self).spec_src(),
                                    num2_end,
                                ) == SpecScan::EndScan && spec_parse_double_bits(
                                    old(self).spec_src().subrange(
                                        spec_trim_from(
                                            old(self).spec_src(),
                                            old(self).stream_pos(),
                                        ),
                                        num1_end,
                                    ),
                                ) is Some && spec_parse_double_bits(
                                    old(self).spec_src().subrange(
                                        spec_trim_from(old(self).spec_src(), op_end),
                                        num2_end,
                                    ),
                                ) is Some) ==> {
                                    &&& self.spec_errors().len() == old(
                                        self,
                                    ).spec_errors().len() + 1
                                    &&& self.spec_errors().last().spec_content()
                                        == "Expect ')' after expression"@
                                    &&& self.spec_errors().last().spec_token() is None
                                    &&& self.spec_current() is None
                                    &&& self.spec_had_error()
                                },
                                _ => true,
                            }),
                            _ => true,
                        }),
                        _ => true,
                    }),
                    None => true,
                },
                match old(self).spec_current() {
                    Some(n1) => (n1.token_type == TokenType::NumericLiteral) ==> (match spec_scan(
                        old(self).spec_src(),
                        old(self).stream_pos(),
                    ) {
                        SpecScan::TokenScan(k1, op1_end) => (spec_binary_opcode(k1) is Some
                            && spec_level(precedence) <= spec_level(spec_get_rule(k1).precedence))
                            ==> (match spec_scan(old(self).spec_src(), op1_end) {
                            SpecScan::TokenScan(m2, num2_end) => (m2 == TokenType::NumericLiteral)
                                ==> (match spec_scan(old(self).spec_src(), num2_end) {
                                SpecScan::TokenScan(k2, op2_end) => (spec_binary_opcode(k2)
                                    is Some && spec_level(spec_get_rule(k2).precedence)
                                    <= spec_level(spec_get_rule(k1).precedence) && spec_level(
                                    precedence,
                                ) <= spec_level(spec_get_rule(k2).precedence)) ==> (match spec_scan(
                                    old(self).spec_src(),
                                    op2_end,
                                ) {
                                    SpecScan::TokenScan(m3, num3_end) => (m3
                                        == TokenType::NumericLiteral && spec_scan(
                                        old(self).spec_src(),
                                        num3_end,
                                    ) == SpecScan::EndScan) ==> ({
                                        let t1 = old(self).spec_src().subrange(
                                            n1.pos as int,
                                            n1.pos + n1.length,
                                        );
                                        let t2 = old(self).spec_src().subrange(
                                            spec_trim_from(old(self).spec_src(), op1_end),
                                            num2_end,
                                        );
                                        let t3 = old(self).spec_src().subrange(
                                            spec_trim_from(old(self).spec_src(), op2_end),
                                            num3_end,
                                        );
                                        let base = old(self).spec_program().len() as int;
                                        let c0 = old(self).spec_constants().len() as int;
                                        ||| ({
                                            &&& self.spec_program() == old(
                                                self,
                                            ).spec_program().push(
                                                (OpCode::OpConstant(c0 as usize), n1.line),
                                            )
                                            &&& self.spec_constants() == old(
                                                self,
                                            ).spec_constants().push(
                                                Value::Float(
                                                    match spec_parse_double_bits(t1) {
                                                        Some(b) => b,
                                                        None => 0u64,
                                                    },
                                                ),
                                            )
                                            &&& self.spec_current() matches Some(f)
                                                && f.token_type == k1 && f.pos + f.length
                                                == op1_end
                                            &&& self.stream_pos() == op1_end
                                            &&& (!old(self).spec_had_error() ==> (
                                            spec_parse_double_bits(t1) is Some
                                                <==> !self.spec_had_error()))
                                        })
                                        ||| ({
                                            &&& self.spec_program().len() == base + 3
                                            &&& self.spec_program()[base].0 == OpCode::OpConstant(c0 as usize)
                                            &&& self.spec_program()[base + 1].0
                                                == OpCode::OpConstant((c0 + 1) as usize)
                                            &&& self.spec_program()[base + 2].0
                                                == spec_binary_opcode(k1).unwrap()
                                            &&& self.spec_constants() == old(
                                                self,
                                            ).spec_constants().push(
                                                Value::Float(
                                                    match spec_parse_double_bits(t1) {
                                                        Some(b) => b,
                                                        None => 0u64,
                                                    },
                                                ),
                                            ).push(
                                                Value::Float(
                                                    match spec_parse_double_bits(t2) {
                                                        Some(b) => b,
                                                        None => 0u64,
                                                    },
                                                ),
                                            )
                                            &&& self.spec_current() matches Some(f)
                                                && f.token_type == k2 && f.pos + f.length
                                                == op2_end
                                            &&& self.stream_pos() == op2_end
                                            &&& (!old(self).spec_had_error() ==> ((
                                            spec_parse_double_bits(t1) is Some
                                                && spec_parse_double_bits(t2) is Some)
                                                <==> !self.spec_had_error()))
                                        })
                                        ||| ({
                                            &&& self.spec_program().len() == base + 5
                                            &&& self.spec_program()[base].0 == OpCode::OpConstant(c0 as usize)
                                            &&& self.spec_program()[base + 1].0
                                                == OpCode::OpConstant((c0 + 1) as usize)
                                            &&& self.spec_program()[base + 2].0
                                                == spec_binary_opcode(k1).unwrap()
                                            &&& self.spec_program()[base + 3].0
                                                == OpCode::OpConstant((c0 + 2) as usize)
                                            &&& self.spec_program()[base + 4].0
                                                == spec_binary_opcode(k2).unwrap()
                                            &&& self.spec_constants() == old(
                                                self,
                                            ).spec_constants().push(
                                                Value::Float(
                                                    match spec_parse_double_bits(t1) {
                                                        Some(b) => b,
                                                        None => 0u64,
                                                    },
                                                ),
                                            ).push(
                                                Value::Float(
                                                    match spec_parse_double_bits(t2) {
                                                        Some(b) => b,
                                                        None => 0u64,
                                                    },
                                                ),
                                            ).push(
                                                Value::Float(
                                                    match spec_parse_double_bits(t3) {
                                                        Some(b) => b,
                                                        None => 0u64,
                                                    },
                                                ),
                                            )
                                            &&& (!old(self).spec_had_error() ==> ((
                                            spec_parse_double_bits(t1) is Some
                                                && spec_parse_double_bits(t2) is Some
                                                && spec_parse_double_bits(t3) is Some)
                                                <==> !self.spec_had_error()))
                                            &&& self.spec_current() is None
                                        })
                                    }),
                                    _ => true,
                                }),
                                _ => true,
                            }),
                            _ => true,
                        }),
                        _ => true,
                    }),
                    None => true,
                },
                match old(self).spec_current() {
                    Some(n1) => (n1.token_type == TokenType::NumericLiteral) ==> (match spec_scan(
                        old(self).spec_src(),
                        old(self).stream_pos(),
                    ) {
                        SpecScan::TokenScan(k1, op1_end) => (spec_binary_opcode(k1) is Some
                            && spec_level(precedence) <= spec_level(spec_get_rule(k1).precedence))
                            ==> (match spec_scan(old(self).spec_src(), op1_end) {
                            SpecScan::TokenScan(m2, num2_end) => (m2 == TokenType::NumericLiteral)
                                ==> (match spec_scan(old(self).spec_src(), num2_end) {
                                SpecScan::TokenScan(k2, op2_end) => (spec_binary_opcode(k2) is Some
                                    && spec_level(spec_get_rule(k1).precedence) + 1 <= spec_level(
                                    spec_get_rule(k2).precedence,
                                )) ==> (match spec_scan(old(self).spec_src(), op2_end) {
                                    SpecScan::TokenScan(m3, num3_end) => (m3 == TokenType::NumericLiteral
                                        && spec_scan(old(self).spec_src(), num3_end) == SpecScan::EndScan)
                                        ==> ({
                                        let t1 = old(self).spec_src().subrange(
                                            n1.pos as int,
                                            n1.pos + n1.length,
                                        );
                                        let t2 = old(self).spec_src().subrange(
                                            spec_trim_from(old(self).spec_src(), op1_end),
                                            num2_end,
                                        );
                                        let t3 = old(self).spec_src().subrange(
                                            spec_trim_from(old(self).spec_src(), op2_end),
                                            num3_end,
                                        );
                                        let base = old(self).spec_program().len() as int;
                                        let c0 = old(self).spec_constants().len() as int;
                                        ||| ({
                            &&& self.spec_program() == old(self).spec_program().push(
                                (OpCode::OpConstant(c0 as usize), n1.line),
                            )
                            &&& self.spec_constants() == old(self).spec_constants().push(
                                Value::Float(
                                    match spec_parse_double_bits(t1) {
                                        Some(b) => b,
                                        None => 0u64,
                                    },
                                ),
                            )
                            &&& self.spec_current() matches Some(f) && f.token_type == k1
                                && f.pos + f.length == op1_end
                            &&& self.stream_pos() == op1_end
                            &&& (!old(self).spec_had_error() ==> (spec_parse_double_bits(t1)
                                is Some <==> !self.spec_had_error()))
                        })
                        ||| ({
                            &&& self.spec_program().len() == base + 5
                                            &&& self.spec_program()[base].0 == OpCode::OpConstant(
                                                c0 as usize,
                                            )
                                            &&& self.spec_program()[base + 1].0 == OpCode::OpConstant(
                                                (c0 + 1) as usize,
                                            )
                                            &&& self.spec_program()[base + 2].0 == OpCode::OpConstant(
                                                (c0 + 2) as usize,
                                            )
                                            &&& self.spec_program()[base + 3].0 == spec_binary_opcode(
                                                k2,
                                            ).unwrap()
                                            &&& self.spec_program()[base + 4].0 == spec_binary_opcode(
                                                k1,
                                            ).unwrap()
                                            &&& self.spec_constants() == old(self).spec_constants().push(
                                                Value::Float(
                                                    match spec_parse_double_bits(t1) {
                                                        Some(b) => b,
                                                        None => 0u64,
                                                    },
                                                ),
                                            ).push(
                                                Value::Float(
                                                    match spec_parse_double_bits(t2) {
                                                        Some(b) => b,
                                                        None => 0u64,
                                                    },
                                                ),
                                            ).push(
                                                Value::Float(
                                                    match spec_parse_double_bits(t3) {
                                                        Some(b) => b,
                                                        None => 0u64,
                                                    },
                                                ),
                                            )
                                            &&& (!old(self).spec_had_error() ==> ((spec_parse_double_bits(t1)
                                                is Some && spec_parse_double_bits(t2) is Some
                                                && spec_parse_double_bits(t3) is Some) <==> !self.spec_had_error()))
                                            &&& self.spec_current() is None
                        })
                                    }),
                                    _ => true,
                                }),
                                _ => true,
                            }),
                            _ => true,
                        }),
                        _ => true,
                    }),
                    None => true,
                },
            decreases self.lookahead_units(),
        {
            let current = match self.current_token {
                Some(t) => t,
                None => { return ; },
            };
            let current_precedence = get_rule(current.token_type).precedence;
            if precedence.level() > current_precedence.level() {
                return ;
            }
            let ghost acc = self.spec_program().skip(len0);
            self.advance();
            match self.previous_token {
                Some(previous) => {
                    match get_rule(previous.token_type).infix {
                        Some(InfixRule::Binary) => {
                            let ghost mid = self.spec_program().len() as int;
                            self.binary();
                            proof {
                                if !self.spec_had_error() {
                                    let ext = self.spec_program().skip(mid);
                                    lemma_balanced_extend(acc, ext);
                                    assert(self.spec_program().skip(len0) =~= acc + ext);
                                }
                            }
                        },
                        None => {},
                    }
                },
                None => {},
            }
        }
    }

    /// Compile the whole input: one expression at assignment precedence,
    /// then the end of the input, then a trailing return.
    ///
    /// When no error was recorded, what was appended to the program is a
    /// balanced expression body followed by exactly one `OpReturn`, and the
    /// program addresses only this compiler's pool — everything the virtual
    /// machine requires. Execution must not start when an error was
    /// recorded, and the error flag answers exactly to the recorded list.
    pub fn compile(&mut self)
        requires
            old(self).wf(),
        ensures
            final(self).wf(),
            final(self).spec_src() == old(self).spec_src(),
            program_wf(final(self).spec_program(), final(self).spec_constants().len() as int),
            values_wf(final(self).spec_constants(), 0),
            final(self).spec_had_error() <==> final(self).spec_errors().len() > 0,
            old(self).spec_had_error() ==> final(self).spec_had_error(),
            old(self).spec_program().is_prefix_of(final(self).spec_program()),
            final(self).spec_program().len() > old(self).spec_program().len(),
            final(self).spec_program().last() == (OpCode::OpReturn, 0usize),
            !final(self).spec_had_error() ==> final(self).spec_current() is None
                && final(self).stream_pos() == final(self).spec_src().len(),
            !final(self).spec_had_error() ==> ({
                let appended = final(self).spec_program().skip(old(self).spec_program().len() as int);
                &&& appended.len() >= 2
                &&& appended.last() == (OpCode::OpReturn, 0usize)
                &&& balanced_expr(appended.drop_last())
            }),
            (!old(self).spec_had_error() && old(self).spec_current() is None && spec_scan(
                old(self).spec_src(),
                old(self).stream_pos(),
            ) == SpecScan::EndScan) ==> {
                &&& final(self).spec_errors().len() == old(self).spec_errors().len() + 1
                &&& final(self).spec_errors().last().spec_content() == "Expect expression."@
                &&& final(self).spec_errors().last().spec_token() is None
                &&& final(self).spec_program() == old(self).spec_program().push(
                    (OpCode::OpReturn, 0usize),
                )
            },
            (!old(self).spec_had_error() && old(self).spec_current() is None) ==> (match spec_scan(
                old(self).spec_src(),
                old(self).stream_pos(),
            ) {
                SpecScan::TokenScan(tt, num1_end) => (tt == TokenType::NumericLiteral)
                    ==> (match spec_scan(old(self).spec_src(), num1_end) {
                    SpecScan::TokenScan(k1, op_end) => (spec_binary_opcode(k1) is Some)
                        ==> (match spec_scan(old(self).spec_src(), op_end) {
                        SpecScan::TokenScan(k2, num2_end) => (k2 == TokenType::NumericLiteral
                            && spec_scan(old(self).spec_src(), num2_end) == SpecScan::EndScan)
                            ==> ({
                            let t1 = old(self).spec_src().subrange(
                                spec_trim_from(old(self).spec_src(), old(self).stream_pos()),
                                num1_end,
                            );
                            let t2 = old(self).spec_src().subrange(
                                spec_trim_from(old(self).spec_src(), op_end),
                                num2_end,
                            );
                            &&& final(self).spec_program().len() == old(self).spec_program().len()
                                + 4
                            &&& final(self).spec_program()[old(self).spec_program().len() as int].0
                                == OpCode::OpConstant(old(self).spec_constants().len() as usize)
                            &&& final(self).spec_program()[old(self).spec_program().len() as int
                                + 1].0 == OpCode::OpConstant(
                                (old(self).spec_constants().len() + 1) as usize,
                            )
                            &&& final(self).spec_program()[old(self).spec_program().len() as int
                                + 2].0 == spec_binary_opcode(k1).unwrap()
                            &&& final(self).spec_constants() == old(self).spec_constants().push(
                                Value::Float(
                                    match spec_parse_double_bits(t1) {
                                        Some(b) => b,
                                        None => 0u64,
                                    },
                                ),
                            ).push(
                                Value::Float(
                                    match spec_parse_double_bits(t2) {
                                        Some(b) => b,
                                        None => 0u64,
                                    },
                                ),
                            )
                            &&& ((spec_parse_double_bits(t1) is Some && spec_parse_double_bits(
                                t2,
                            ) is Some) <==> !final(self).spec_had_error())
                        }),
                        _ => true,
                    }),
                    _ => true,
                }),
                _ => true,
            }),
            (!old(self).spec_had_error() && old(self).spec_current() is None) ==> (match spec_scan(
                old(self).spec_src(),
                old(self).stream_pos(),
            ) {
                SpecScan::TokenScan(lpk, lp_end) => (lpk == TokenType::LeftParen)
                    ==> (match spec_scan(old(self).spec_src(), lp_end) {
                    SpecScan::TokenScan(t1k, num1_end) => (t1k == TokenType::NumericLiteral)
                        ==> (match spec_scan(old(self).spec_src(), num1_end) {
                        SpecScan::TokenScan(k1, op_end) => (spec_binary_opcode(k1) is Some)
                            ==> (match spec_scan(old(self).spec_src(), op_end) {
                            SpecScan::TokenScan(k2, num2_end) => (k2
                                == TokenType::NumericLiteral && spec_scan(
                                old(self).spec_src(),
                                num2_end,
                            ) == SpecScan::EndScan && spec_parse_double_bits(
                                old(self).spec_src().subrange(
                                    spec_trim_from(old(self).spec_src(), lp_end),
                                    num1_end,
                                ),
                            ) is Some && spec_parse_double_bits(
                                old(self).spec_src().subrange(
                                    spec_trim_from(old(self).spec_src(), op_end),
                                    num2_end,
                                ),
                            ) is Some) ==> {
                                &&& final(self).spec_errors().len() == old(
                                    self,
                                ).spec_errors().len() + 1
                                &&& final(self).spec_errors().last().spec_content()
                                    == "Expect ')' after expression"@
                                &&& final(self).spec_errors().last().spec_token() is None
                                &&& final(self).spec_had_error()
                            },
                            _ => true,
                        }),
                        _ => true,
                    }),
                    _ => true,
                }),
                _ => true,
            }),
            (!old(self).spec_had_error() && old(self).spec_current() is None) ==> (match spec_scan(
                old(self).spec_src(),
                old(self).stream_pos(),
            ) {
                SpecScan::TokenScan(m1, num1_end) => (m1 == TokenType::NumericLiteral)
                    ==> (match spec_scan(old(self).spec_src(), num1_end) {
                    SpecScan::TokenScan(k1, op1_end) => (spec_binary_opcode(k1) is Some)
                        ==> (match spec_scan(old(self).spec_src(), op1_end) {
                        SpecScan::TokenScan(m2, num2_end) => (m2 == TokenType::NumericLiteral)
                            ==> (match spec_scan(old(self).spec_src(), num2_end) {
                            SpecScan::TokenScan(k2, op2_end) => (spec_binary_opcode(k2) is Some
                                && spec_level(spec_get_rule(k2).precedence) <= spec_level(
                                spec_get_rule(k1).precedence,
                            )) ==> (match spec_scan(old(self).spec_src(), op2_end) {
                                SpecScan::TokenScan(m3, num3_end) => (m3
                                    == TokenType::NumericLiteral && spec_scan(
                                    old(self).spec_src(),
                                    num3_end,
                                ) == SpecScan::EndScan) ==> ({
                                    let t1 = old(self).spec_src().subrange(
                                        spec_trim_from(
                                            old(self).spec_src(),
                                            old(self).stream_pos(),
                                        ),
                                        num1_end,
                                    );
                                    let t2 = old(self).spec_src().subrange(
                                        spec_trim_from(old(self).spec_src(), op1_end),
                                        num2_end,
                                    );
                                    let t3 = old(self).spec_src().subrange(
                                        spec_trim_from(old(self).spec_src(), op2_end),
                                        num3_end,
                                    );
                                    let base = old(self).spec_program().len() as int;
                                    let c0 = old(self).spec_constants().len() as int;
                                    &&& final(self).spec_program().len() == base + 6
                                    &&& final(self).spec_program()[base].0 == OpCode::OpConstant(
                                        c0 as usize,
                                    )
                                    &&& final(self).spec_program()[base + 1].0
                                        == OpCode::OpConstant((c0 + 1) as usize)
                                    &&& final(self).spec_program()[base + 2].0
                                        == spec_binary_opcode(k1).unwrap()
                                    &&& final(self).spec_program()[base + 3].0
                                        == OpCode::OpConstant((c0 + 2) as usize)
                                    &&& final(self).spec_program()[base + 4].0
                                        == spec_binary_opcode(k2).unwrap()
                                    &&& final(self).spec_program()[base + 5]
                                        == (OpCode::OpReturn, 0usize)
                                    &&& final(self).spec_constants() == old(
                                        self,
                                    ).spec_constants().push(
                                        Value::Float(
                                            match spec_parse_double_bits(t1) {
                                                Some(b) => b,
                                                None => 0u64,
                                            },
                                        ),
                                    ).push(
                                        Value::Float(
                                            match spec_parse_double_bits(t2) {
                                                Some(b) => b,
                                                None => 0u64,
                                            },
                                        ),
                                    ).push(
                                        Value::Float(
                                            match spec_parse_double_bits(t3) {
                                                Some(b) => b,
                                                None => 0u64,
                                            },
                                        ),
                                    )
                                    &&& ((spec_parse_double_bits(t1) is Some
                                        && spec_parse_double_bits(t2) is Some
                                        && spec_parse_double_bits(t3) is Some)
                                        <==> !final(self).spec_had_error())
                                }),
                                _ => true,
                            }),
                            _ => true,
                        }),
                        _ => true,
                    }),
                    _ => true,
                }),
                _ => true,
            }),
            (!old(self).spec_had_error() && old(self).spec_current() is None) ==> (match spec_scan(
                old(self).spec_src(),
                old(self).stream_pos(),
            ) {
                SpecScan::TokenScan(m1, num1_end) => (m1 == TokenType::NumericLiteral)
                    ==> (match spec_scan(old(self).spec_src(), num1_end) {
                    SpecScan::TokenScan(k1, op1_end) => (spec_binary_opcode(k1) is Some)
                        ==> (match spec_scan(old(self).spec_src(), op1_end) {
                        SpecScan::TokenScan(m2, num2_end) => (m2 == TokenType::NumericLiteral)
                            ==> (match spec_scan(old(self).spec_src(), num2_end) {
                            SpecScan::TokenScan(k2, op2_end) => (spec_binary_opcode(k2) is Some
                                && spec_level(spec_get_rule(k1).precedence) + 1 <= spec_level(
                                spec_get_rule(k2).precedence,
                            )) ==> (match spec_scan(old(self).spec_src(), op2_end) {
                                SpecScan::TokenScan(m3, num3_end) => (m3
                                    == TokenType::NumericLiteral && spec_scan(
                                    old(self).spec_src(),
                                    num3_end,
                                ) == SpecScan::EndScan) ==> ({
                                    let t1 = old(self).spec_src().subrange(
                                        spec_trim_from(
                                            old(self).spec_src(),
                                            old(self).stream_pos(),
                                        ),
                                        num1_end,
                                    );
                                    let t2 = old(self).spec_src().subrange(
                                        spec_trim_from(old(self).spec_src(), op1_end),
                                        num2_end,
                                    );
                                    let t3 = old(self).spec_src().subrange(
                                        spec_trim_from(old(self).spec_src(), op2_end),
                                        num3_end,
                                    );
                                    let base = old(self).spec_program().len() as int;
                                    let c0 = old(self).spec_constants().len() as int;
                                    &&& final(self).spec_program().len() == base + 6
                                    &&& final(self).spec_program()[base].0 == OpCode::OpConstant(
                                        c0 as usize,
                                    )
                                    &&& final(self).spec_program()[base + 1].0
                                        == OpCode::OpConstant((c0 + 1) as usize)
                                    &&& final(self).spec_program()[base + 2].0
                                        == OpCode::OpConstant((c0 + 2) as usize)
                                    &&& final(self).spec_program()[base + 3].0
                                        == spec_binary_opcode(k2).unwrap()
                                    &&& final(self).spec_program()[base + 4].0
                                        == spec_binary_opcode(k1).unwrap()
                                    &&& final(self).spec_program()[base + 5]
                                        == (OpCode::OpReturn, 0usize)
                                    &&& final(self).spec_constants() == old(
                                        self,
                                    ).spec_constants().push(
                                        Value::Float(
                                            match spec_parse_double_bits(t1) {
                                                Some(b) => b,
                                                None => 0u64,
                                            },
                                        ),
                                    ).push(
                                        Value::Float(
                                            match spec_parse_double_bits(t2) {
                                                Some(b) => b,
                                                None => 0u64,
                                            },
                                        ),
                                    ).push(
                                        Value::Float(
                                            match spec_parse_double_bits(t3) {
                                                Some(b) => b,
                                                None => 0u64,
                                            },
                                        ),
                                    )
                                    &&& ((spec_parse_double_bits(t1) is Some
                                        && spec_parse_double_bits(t2) is Some
                                        && spec_parse_double_bits(t3) is Some)
                                        <==> !final(self).spec_had_error())
                                }),
                                _ => true,
                            }),
                            _ => true,
                        }),
                        _ => true,
                    }),
                    _ => true,
                }),
                _ => true,
            }),
            (!old(self).spec_had_error() && old(self).spec_current() is None) ==> (spec_scan(
                old(self).spec_src(),
                old(self).stream_pos(),
            ) matches SpecScan::TokenScan(tt, token_end) ==> ((tt == TokenType::NumericLiteral
                && spec_scan(old(self).spec_src(), token_end) == SpecScan::EndScan) ==> ({
                let text = old(self).spec_src().subrange(
                    spec_trim_from(old(self).spec_src(), old(self).stream_pos()),
                    token_end,
                );
                &&& final(self).spec_constants() == old(self).spec_constants().push(
                    Value::Float(
                        match spec_parse_double_bits(text) {
                            Some(b) => b,
                            None => 0u64,
                        },
                    ),
                )
                &&& final(self).spec_program().len() == old(self).spec_program().len() + 2
                &&& final(self).spec_program()[old(self).spec_program().len() as int].0
                    == OpCode::OpConstant(old(self).spec_constants().len() as usize)
                &&& (spec_parse_double_bits(text) is Some <==> !final(self).spec_had_error())
            }))),
    {
        let ghost len0 = self.spec_program().len() as int;
        self.advance();
        proof {
            if spec_scan(old(self).spec_src(), old(self).stream_pos()) == SpecScan::EndScan {
                // Trimming from the end stays at the end, so the scan there
                // finds the end again.
                assert(spec_trim_from(self.spec_src(), self.spec_src().len() as int)
                    == self.spec_src().len());
                assert(spec_scan(self.spec_src(), self.stream_pos()) == SpecScan::EndScan);
            }
        }
        self.expression();
        self.advance_end();
        let ghost body = self.spec_program().skip(len0);
        self.push_op(OpCode::OpReturn, 0);
        proof {
            if !self.spec_had_error() {
                let appended = self.spec_program().skip(len0);
                assert(appended =~= body.push((OpCode::OpReturn, 0usize)));
                assert(appended.drop_last() =~= body);
            }
        }
    }
}

} // verus!

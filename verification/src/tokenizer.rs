//! The lexer: a lazy, finite, non-restartable sequence of tokens or lexical
//! errors over a character slice, with a single cursor and a monotonically
//! non-decreasing line counter.
//!
//! A token carries no text: its source offset and length recover the literal
//! characters on demand. `spec_scan` decides, from the source and the cursor
//! alone, what comes next — the end of the input, a token of which kind over
//! exactly which characters, or which lexical error — and `next_token` is
//! proved to follow it; `spec_token_shape` states what the characters under
//! each produced token look like.

use vstd::prelude::*;
use vstd::string::StringExecFns;

verus! {

/// The closed set of token kinds: punctuation, operators, literals, the
/// reserved keywords, identifiers, and a placeholder kind that the lexer
/// itself never produces.
#[derive(Debug, Clone, Copy, PartialEq, Eq, Structural)]
pub enum TokenType {
    LeftParen,
    RightParen,
    LeftBrace,
    RightBrace,
    Comma,
    Dot,
    Minus,
    Plus,
    Semicolon,
    Slash,
    Star,
    Bang,
    BangEqual,
    Equal,
    EqualEqual,
    Greater,
    GreaterEqual,
    Less,
    LessEqual,
    Identifier,
    StringLiteral,
    NumericLiteral,
    And,
    Class,
    Else,
    FalseIdent,
    For,
    Func,
    If,
    Nil,
    Or,
    Print,
    Return,
    Super,
    This,
    TrueIdent,
    Var,
    While,
    Error,
}

/// A token: its kind, the offset and length of its characters in the source,
/// and the line it ends on. Immutable once produced.
#[derive(Debug, Clone, Copy, PartialEq, Eq, Structural)]
pub struct Token {
    pub token_type: TokenType,
    pub pos: usize,
    pub length: usize,
    pub line: usize,
}

impl Token {
    /// A token with the given fields.
    pub fn new(token_type: TokenType, pos: usize, length: usize, line: usize) -> (t: Self)
        ensures
            t == (Token { token_type, pos, length, line }),
    {
        Self { token_type, pos, length, line }
    }
}

/// A lexical error: its message and the line it was found on. Produced in
/// place of a token; the lexer keeps producing subsequent tokens.
#[derive(Debug)]
pub struct TokenErr {
    content: String,
    pub line: usize,
}

impl Clone for TokenErr {
    /// An equal error.
    fn clone(&self) -> (r: Self)
        ensures
            r == *self,
    {
        Self { content: self.content.clone(), line: self.line }
    }
}

impl TokenErr {
    /// The error's message.
    pub fn content(&self) -> (r: String)
        ensures
            r@ == self.spec_content(),
    {
        self.content.clone()
    }

    /// The line the error was found on.
    pub fn line(&self) -> (r: usize)
        ensures
            r == self.spec_line(),
    {
        self.line
    }

    fn new(msg: String, line: usize) -> (r: Self)
        ensures
            r.content@ == msg@,
            r.line == line,
    {
        Self { content: msg, line }
    }

    /// The message's characters.
    pub closed spec fn spec_content(&self) -> Seq<char> {
        self.content@
    }

    /// The line the error was found on.
    pub closed spec fn spec_line(&self) -> int {
        self.line as int
    }
}

pub type TokenResult = Result<Token, TokenErr>;

pub type OTokenResult = Option<TokenResult>;

/// A decimal digit.
pub open spec fn spec_is_digit(c: char) -> bool {
    48 <= c as u32 && c as u32 <= 57
}

/// Space, carriage return or horizontal tab (a newline is skipped too, but
/// counted separately).
pub open spec fn spec_is_blank(c: char) -> bool {
    c == ' ' || c == '\r' || c == '\t'
}

/// What `char::is_alphabetic` holds of a character.
pub uninterp spec fn spec_is_alphabetic(c: char) -> bool;

/// What `char::is_alphanumeric` holds of a character.
pub uninterp spec fn spec_is_alphanumeric(c: char) -> bool;

/// A character that may continue an identifier.
pub open spec fn spec_is_ident_char(c: char) -> bool {
    spec_is_alphanumeric(c) || c == '_'
}

/// Relies on `char::is_alphabetic`: a property of the character alone.
#[verifier::external_body]
fn char_is_alphabetic(c: char) -> (r: bool)
    ensures
        r == spec_is_alphabetic(c),
{
    c.is_alphabetic()
}

/// Relies on `char::is_alphanumeric`: a property of the character alone;
/// its documentation has every alphabetic character alphanumeric as well,
/// and a newline — a control character — neither alphabetic nor numeric.
#[verifier::external_body]
fn char_is_alphanumeric(c: char) -> (r: bool)
    ensures
        r == spec_is_alphanumeric(c),
        spec_is_alphabetic(c) ==> r,
        r ==> c != '\n',
{
    c.is_alphanumeric()
}

/// Relies on std's formatting of `char`: writing a character appends the
/// character itself and nothing else.
#[verifier::external_body]
fn char_suffix_message(prefix: &str, c: char) -> (r: String)
    ensures
        r@ == prefix@.push(c),
{
    format!("{prefix}{c}")
}

fn is_digit_char(c: char) -> (r: bool)
    ensures
        r == spec_is_digit(c),
{
    let u: u32 = c as u32;
    48 <= u && u <= 57
}

/// A token kind produced by the identifier scanner: a keyword or an
/// identifier.
pub open spec fn spec_is_word_kind(tt: TokenType) -> bool {
    matches!(tt, TokenType::Identifier | TokenType::And | TokenType::Class | TokenType::Else
        | TokenType::FalseIdent | TokenType::For | TokenType::Func | TokenType::If
        | TokenType::Nil | TokenType::Or | TokenType::Print | TokenType::Return
        | TokenType::Super | TokenType::This | TokenType::TrueIdent | TokenType::Var
        | TokenType::While)
}

/// The token kind of a lone punctuation or arithmetic character, if any.
pub open spec fn spec_single_char_type(c: char) -> Option<TokenType> {
    if c == '(' {
        Some(TokenType::LeftParen)
    } else if c == ')' {
        Some(TokenType::RightParen)
    } else if c == '{' {
        Some(TokenType::LeftBrace)
    } else if c == '}' {
        Some(TokenType::RightBrace)
    } else if c == ',' {
        Some(TokenType::Comma)
    } else if c == '.' {
        Some(TokenType::Dot)
    } else if c == '-' {
        Some(TokenType::Minus)
    } else if c == '+' {
        Some(TokenType::Plus)
    } else if c == ';' {
        Some(TokenType::Semicolon)
    } else if c == '/' {
        Some(TokenType::Slash)
    } else if c == '*' {
        Some(TokenType::Star)
    } else {
        None
    }
}

/// The exact two-character-lookahead operator at a `!`, `=`, `<` or `>`:
/// the two-character form exactly when `=` is the very next character.
pub open spec fn spec_two_char_kind(c: char, eq_follows: bool) -> Option<TokenType> {
    if c == '!' {
        Some(if eq_follows { TokenType::BangEqual } else { TokenType::Bang })
    } else if c == '=' {
        Some(if eq_follows { TokenType::EqualEqual } else { TokenType::Equal })
    } else if c == '<' {
        Some(if eq_follows { TokenType::LessEqual } else { TokenType::Less })
    } else if c == '>' {
        Some(if eq_follows { TokenType::GreaterEqual } else { TokenType::Greater })
    } else {
        None
    }
}

/// The position of the next `"` at or after a position, if any.
pub open spec fn spec_string_close(src: Seq<char>, i: int) -> Option<int>
    decreases src.len() - i,
{
    if 0 <= i < src.len() {
        if src[i] == '"' {
            Some(i)
        } else {
            spec_string_close(src, i + 1)
        }
    } else {
        None
    }
}

/// The end of the maximal run of decimal digits from a position.
pub open spec fn spec_digit_end(src: Seq<char>, i: int) -> int
    decreases src.len() - i,
{
    if 0 <= i < src.len() && spec_is_digit(src[i]) {
        spec_digit_end(src, i + 1)
    } else {
        i
    }
}

/// The end of a numeric literal from its first digit: the digit run, then,
/// only when a dot with a digit straight after follows, the dot and the
/// digit run behind it.
pub open spec fn spec_numeric_end(src: Seq<char>, i: int) -> int {
    let d = spec_digit_end(src, i);
    if d < src.len() && src[d] == '.' && d + 1 < src.len() && spec_is_digit(src[d + 1]) {
        spec_digit_end(src, d + 1)
    } else {
        d
    }
}

/// The end of the maximal run of identifier characters from a position.
pub open spec fn spec_ident_end(src: Seq<char>, i: int) -> int
    decreases src.len() - i,
{
    if 0 <= i < src.len() && spec_is_ident_char(src[i]) {
        spec_ident_end(src, i + 1)
    } else {
        i
    }
}

/// How many newlines lie in `src[from..to)`.
pub open spec fn spec_newlines(src: Seq<char>, from: int, to: int) -> int
    decreases to - from,
{
    if from < to {
        (if src[from] == '\n' {
            1int
        } else {
            0int
        }) + spec_newlines(src, from + 1, to)
    } else {
        0
    }
}

/// Newline counts add over adjacent ranges.
pub proof fn lemma_newlines_split(src: Seq<char>, a: int, b: int, c: int)
    requires
        a <= b <= c,
    ensures
        spec_newlines(src, a, c) == spec_newlines(src, a, b) + spec_newlines(src, b, c),
    decreases b - a,
{
    if a < b {
        lemma_newlines_split(src, a + 1, b, c);
    }
}

/// A range without newlines counts none.
pub proof fn lemma_newlines_none(src: Seq<char>, a: int, b: int)
    requires
        forall|i: int| a <= i < b ==> src[i] != '\n',
    ensures
        spec_newlines(src, a, b) == 0,
    decreases b - a,
{
    if a < b {
        lemma_newlines_none(src, a + 1, b);
    }
}

/// Extending the range by one position on the right counts that position.
pub proof fn lemma_newlines_snoc(src: Seq<char>, from: int, to: int)
    requires
        from <= to,
    ensures
        spec_newlines(src, from, to + 1) == spec_newlines(src, from, to) + (if src[to] == '\n' {
            1int
        } else {
            0int
        }),
    decreases to - from,
{
    if from < to {
        lemma_newlines_snoc(src, from + 1, to);
    } else {
        assert(spec_newlines(src, to + 1, to + 1) == 0);
        assert(spec_newlines(src, from, to) == 0);
    }
}

/// What one scan from a position produces: the end of the input after
/// trimming, a token of some kind ending at some position, the unterminated
/// string error, or the unrecognised-character error naming the character.
/// This decides the lexer's whole behaviour but its line numbers.
pub enum SpecScan {
    EndScan,
    TokenScan(TokenType, int),
    UnterminatedScan,
    UnrecognisedScan(char),
}

/// The scan at a position: trim, then decide by the first character.
pub open spec fn spec_scan(src: Seq<char>, pos: int) -> SpecScan {
    let p = spec_trim_from(src, pos);
    if p >= src.len() {
        SpecScan::EndScan
    } else if spec_single_char_type(src[p]) is Some {
        SpecScan::TokenScan(spec_single_char_type(src[p]).unwrap(), p + 1)
    } else if spec_two_char_kind(src[p], false) is Some {
        let eq = p + 1 < src.len() && src[p + 1] == '=';
        SpecScan::TokenScan(
            spec_two_char_kind(src[p], eq).unwrap(),
            p + (if eq {
                2int
            } else {
                1int
            }),
        )
    } else if src[p] == '"' {
        match spec_string_close(src, p + 1) {
            Some(q) => SpecScan::TokenScan(TokenType::StringLiteral, q + 1),
            None => SpecScan::UnterminatedScan,
        }
    } else if spec_is_digit(src[p]) {
        SpecScan::TokenScan(TokenType::NumericLiteral, spec_numeric_end(src, p))
    } else if spec_is_alphabetic(src[p]) {
        SpecScan::TokenScan(
            spec_keyword_type(src.subrange(p, spec_ident_end(src, p))),
            spec_ident_end(src, p),
        )
    } else {
        SpecScan::UnrecognisedScan(src[p])
    }
}

/// Trimming never moves backwards nor past the end.
pub proof fn lemma_trim_bounds(src: Seq<char>, i: int)
    requires
        0 <= i <= src.len(),
    ensures
        i <= spec_trim_from(src, i) <= src.len(),
    decreases src.len() - i, 1int,
{
    if 0 <= i < src.len() {
        if spec_is_blank(src[i]) || src[i] == '\n' {
            lemma_trim_bounds(src, i + 1);
        } else if src[i] == '/' && i + 1 < src.len() && src[i + 1] == '/' {
            lemma_skip_comment_bounds(src, i + 2);
        }
    }
}

/// Skipping a comment never moves backwards nor past the end.
pub proof fn lemma_skip_comment_bounds(src: Seq<char>, i: int)
    requires
        0 <= i <= src.len(),
    ensures
        i <= spec_skip_comment(src, i) <= src.len(),
    decreases src.len() - i, 2int,
{
    if 0 <= i < src.len() {
        if src[i] == '\n' {
            lemma_trim_bounds(src, i);
        } else {
            lemma_skip_comment_bounds(src, i + 1);
        }
    }
}

/// Where one shift of a parser's lookahead comes to rest: the token found —
/// its kind, start and end — or none when the input ran out, the cursor
/// afterwards, and the messages of every lexical error skipped on the way,
/// in order.
pub struct ScanAhead {
    pub token: Option<(TokenType, int, int)>,
    pub end: int,
    pub errs: Seq<Seq<char>>,
}

/// Scan from a position past every lexical error to the next token or the
/// end of the input: the whole effect one lookahead shift has on the lexer.
pub open spec fn spec_scan_ahead(src: Seq<char>, pos: int) -> ScanAhead
    decreases src.len() - pos,
    when 0 <= pos <= src.len()
    via spec_scan_ahead_decreases
{
    match spec_scan(src, pos) {
        SpecScan::EndScan => ScanAhead {
            token: None,
            end: src.len() as int,
            errs: Seq::empty(),
        },
        SpecScan::TokenScan(tt, e) => ScanAhead {
            token: Some((tt, spec_trim_from(src, pos), e)),
            end: e,
            errs: Seq::empty(),
        },
        SpecScan::UnterminatedScan => ScanAhead {
            token: None,
            end: src.len() as int,
            errs: seq!["Unterminated string literal"@],
        },
        SpecScan::UnrecognisedScan(c) => {
            let rest = spec_scan_ahead(src, spec_trim_from(src, pos) + 1);
            ScanAhead {
                token: rest.token,
                end: rest.end,
                errs: seq!["Unrecognised token "@.push(c)] + rest.errs,
            }
        },
    }
}

#[via_fn]
proof fn spec_scan_ahead_decreases(src: Seq<char>, pos: int) {
    lemma_trim_bounds(src, pos);
}

/// Every character of the text is a decimal digit.
pub open spec fn spec_all_digits(t: Seq<char>) -> bool {
    forall|i: int| 0 <= i < t.len() ==> spec_is_digit(#[trigger] t[i])
}

/// The shape of a numeric literal: one or more digits, optionally followed
/// by a single dot and one or more further digits. No sign, no exponent,
/// and never a trailing dot.
pub open spec fn spec_is_numeric_literal(t: Seq<char>) -> bool {
    ||| (t.len() >= 1 && spec_all_digits(t))
    ||| (exists|k: int|
        1 <= k <= t.len() - 2 && #[trigger] t[k] == '.' && spec_all_digits(t.take(k))
            && spec_all_digits(t.skip(k + 1)))
}

/// The keyword kind of an identifier run, or `Identifier` when it is none of
/// the reserved words.
pub open spec fn spec_keyword_type(t: Seq<char>) -> TokenType {
    if t == seq!['a', 'n', 'd'] {
        TokenType::And
    } else if t == seq!['c', 'l', 'a', 's', 's'] {
        TokenType::Class
    } else if t == seq!['e', 'l', 's', 'e'] {
        TokenType::Else
    } else if t == seq!['i', 'f'] {
        TokenType::If
    } else if t == seq!['n', 'i', 'l'] {
        TokenType::Nil
    } else if t == seq!['o', 'r'] {
        TokenType::Or
    } else if t == seq!['p', 'r', 'i', 'n', 't'] {
        TokenType::Print
    } else if t == seq!['r', 'e', 't', 'u', 'r', 'n'] {
        TokenType::Return
    } else if t == seq!['s', 'u', 'p', 'e', 'r'] {
        TokenType::Super
    } else if t == seq!['v', 'a', 'r'] {
        TokenType::Var
    } else if t == seq!['w', 'h', 'i', 'l', 'e'] {
        TokenType::While
    } else if t == seq!['f', 'u', 'n'] {
        TokenType::Func
    } else if t == seq!['f', 'a', 'l', 's', 'e'] {
        TokenType::FalseIdent
    } else if t == seq!['f', 'o', 'r'] {
        TokenType::For
    } else if t == seq!['t', 'h', 'i', 's'] {
        TokenType::This
    } else if t == seq!['t', 'r', 'u', 'e'] {
        TokenType::TrueIdent
    } else {
        TokenType::Identifier
    }
}

/// What the characters under a token of each kind must look like.
pub open spec fn spec_token_shape(tt: TokenType, text: Seq<char>) -> bool {
    match tt {
        TokenType::LeftParen => text == seq!['('],
        TokenType::RightParen => text == seq![')'],
        TokenType::LeftBrace => text == seq!['{'],
        TokenType::RightBrace => text == seq!['}'],
        TokenType::Comma => text == seq![','],
        TokenType::Dot => text == seq!['.'],
        TokenType::Minus => text == seq!['-'],
        TokenType::Plus => text == seq!['+'],
        TokenType::Semicolon => text == seq![';'],
        TokenType::Slash => text == seq!['/'],
        TokenType::Star => text == seq!['*'],
        TokenType::Bang => text == seq!['!'],
        TokenType::BangEqual => text == seq!['!', '='],
        TokenType::Equal => text == seq!['='],
        TokenType::EqualEqual => text == seq!['=', '='],
        TokenType::Greater => text == seq!['>'],
        TokenType::GreaterEqual => text == seq!['>', '='],
        TokenType::Less => text == seq!['<'],
        TokenType::LessEqual => text == seq!['<', '='],
        TokenType::NumericLiteral => spec_is_numeric_literal(text),
        TokenType::StringLiteral => text.len() >= 2 && text[0] == '"' && text[text.len() - 1]
            == '"',
        TokenType::Identifier => text.len() >= 1 && spec_is_alphabetic(text[0])
            && spec_keyword_type(text) == TokenType::Identifier && (forall|i: int|
            0 <= i < text.len() ==> spec_is_ident_char(#[trigger] text[i])),
        TokenType::And => text == seq!['a', 'n', 'd'],
        TokenType::Class => text == seq!['c', 'l', 'a', 's', 's'],
        TokenType::Else => text == seq!['e', 'l', 's', 'e'],
        TokenType::If => text == seq!['i', 'f'],
        TokenType::Nil => text == seq!['n', 'i', 'l'],
        TokenType::Or => text == seq!['o', 'r'],
        TokenType::Print => text == seq!['p', 'r', 'i', 'n', 't'],
        TokenType::Return => text == seq!['r', 'e', 't', 'u', 'r', 'n'],
        TokenType::Super => text == seq!['s', 'u', 'p', 'e', 'r'],
        TokenType::Var => text == seq!['v', 'a', 'r'],
        TokenType::While => text == seq!['w', 'h', 'i', 'l', 'e'],
        TokenType::Func => text == seq!['f', 'u', 'n'],
        TokenType::FalseIdent => text == seq!['f', 'a', 'l', 's', 'e'],
        TokenType::For => text == seq!['f', 'o', 'r'],
        TokenType::This => text == seq!['t', 'h', 'i', 's'],
        TokenType::TrueIdent => text == seq!['t', 'r', 'u', 'e'],
        TokenType::Error => false,
    }
}

/// The position is the end of the source, or holds a character that can
/// start a token: not a blank, not a newline, and not the start of a `//`
/// comment.
pub open spec fn spec_at_token_start(src: Seq<char>, i: int) -> bool {
    i == src.len() || (!spec_is_blank(src[i]) && src[i] != '\n' && !(src[i] == '/' && i + 1
        < src.len() && src[i + 1] == '/'))
}

/// Where scanning resumes from a position: past every blank, newline and
/// `//` comment.
pub open spec fn spec_trim_from(src: Seq<char>, i: int) -> int
    decreases src.len() - i, 1int,
{
    if 0 <= i < src.len() {
        if spec_is_blank(src[i]) || src[i] == '\n' {
            spec_trim_from(src, i + 1)
        } else if src[i] == '/' && i + 1 < src.len() && src[i + 1] == '/' {
            spec_skip_comment(src, i + 2)
        } else {
            i
        }
    } else {
        i
    }
}

/// Where scanning resumes from inside a `//` comment: at whatever follows
/// the next newline, which itself still counts as to be skipped.
pub open spec fn spec_skip_comment(src: Seq<char>, i: int) -> int
    decreases src.len() - i, 2int,
{
    if 0 <= i < src.len() {
        if src[i] == '\n' {
            spec_trim_from(src, i)
        } else {
            spec_skip_comment(src, i + 1)
        }
    } else {
        i
    }
}

/// The lexer: the source, a cursor of characters already removed, and the
/// current line.
pub struct Tokenizer<'a> {
    source: &'a [char],
    line: usize,
    removed_chars: usize,
}

impl<'a> Tokenizer<'a> {
    /// The whole source under the lexer.
    pub closed spec fn src(&self) -> Seq<char> {
        self.source@
    }

    /// The cursor: how many characters have been consumed.
    pub closed spec fn pos(&self) -> int {
        self.removed_chars as int
    }

    /// The current line counter.
    pub closed spec fn line_no(&self) -> int {
        self.line as int
    }

    /// The cursor never passes the end, and the line counter means exactly
    /// what a line counter should: the number of newlines consumed so far.
    pub open spec fn wf(&self) -> bool {
        &&& 0 <= self.line_no()
        &&& self.line_no() <= self.pos()
        &&& self.pos() <= self.src().len()
        &&& self.line_no() == spec_newlines(self.src(), 0, self.pos())
    }

    /// A lexer at the start of the source, on line zero.
    pub fn new(source: &'a [char]) -> (r: Self)
        ensures
            r.src() == source@,
            r.pos() == 0,
            r.line_no() == 0,
            r.wf(),
    {
        Self { source, line: 0, removed_chars: 0 }
    }

    /// The current line counter.
    pub fn get_current_line(&self) -> (r: usize)
        ensures
            r == self.line_no(),
    {
        self.line
    }

    /// No characters remain.
    fn eof(&self) -> (r: bool)
        requires
            self.pos() <= self.src().len(),
        ensures
            r == (self.pos() == self.src().len()),
    {
        self.removed_chars == self.source.len()
    }

    /// At most `n` characters remain.
    fn eof_n(&self, n: usize) -> (r: bool)
        requires
            self.pos() <= self.src().len(),
        ensures
            r == (self.src().len() - self.pos() <= n),
    {
        self.source.len() - self.removed_chars <= n
    }

    /// Consume `n` characters.
    fn advance_n(&mut self, n: usize)
        requires
            old(self).pos() + n <= old(self).src().len(),
        ensures
            final(self).src() == old(self).src(),
            final(self).pos() == old(self).pos() + n,
            final(self).line_no() == old(self).line_no(),
    {
        let _bound = self.source.len();
        self.removed_chars = self.removed_chars + n;
    }

    /// Consume one character.
    fn advance(&mut self)
        requires
            old(self).pos() < old(self).src().len(),
        ensures
            final(self).src() == old(self).src(),
            final(self).pos() == old(self).pos() + 1,
            final(self).line_no() == old(self).line_no(),
    {
        self.advance_n(1);
    }

    /// The character at the cursor.
    fn peak(&self) -> (r: char)
        requires
            self.pos() < self.src().len(),
        ensures
            r == self.src()[self.pos()],
    {
        self.source[self.removed_chars]
    }

    /// The character `n` past the cursor.
    fn peak_n(&self, n: usize) -> (r: char)
        requires
            self.pos() + n < self.src().len(),
        ensures
            r == self.src()[self.pos() + n],
    {
        let _bound = self.source.len();
        self.source[self.removed_chars + n]
    }

    /// Whether the character after the one at the cursor exists and is `c`.
    fn peak_match(&self, c: char) -> (r: bool)
        requires
            self.pos() <= self.src().len(),
        ensures
            r == (self.pos() + 1 < self.src().len() && self.src()[self.pos() + 1] == c),
    {
        if self.eof() || self.source.len() - self.removed_chars == 1 {
            false
        } else {
            self.source[self.removed_chars + 1] == c
        }
    }

    /// A token of the given kind and length whose characters start at the
    /// cursor, ending on the current line.
    fn make_token(&self, token_type: TokenType, len: usize) -> (t: Token)
        ensures
            t == (Token {
                token_type,
                pos: self.pos() as usize,
                length: len,
                line: self.line_no() as usize,
            }),
    {
        Token::new(token_type, self.removed_chars, len, self.line)
    }

    /// A lexical error with the given message, on the current line.
    fn make_error_token(&self, msg: &str) -> (e: TokenErr)
        ensures
            e.spec_content() == msg@,
            e.spec_line() == self.line_no(),
    {
        TokenErr::new(String::from_str(msg), self.line)
    }

    /// Skip blanks, newlines (counting lines) and `//` comments, stopping at
    /// the first character that can start a token, or at the end.
    fn trim_left(&mut self)
        requires
            old(self).wf(),
        ensures
            final(self).wf(),
            final(self).src() == old(self).src(),
            final(self).pos() >= old(self).pos(),
            final(self).line_no() >= old(self).line_no(),
            final(self).pos() == spec_trim_from(old(self).src(), old(self).pos()),
            final(self).line_no() == old(self).line_no() + spec_newlines(
                old(self).src(),
                old(self).pos(),
                final(self).pos(),
            ),
            spec_at_token_start(final(self).src(), final(self).pos()),
    {
        loop
            invariant
                self.wf(),
                self.src() == old(self).src(),
                self.pos() >= old(self).pos(),
                self.line_no() >= old(self).line_no(),
                self.line_no() == old(self).line_no() + spec_newlines(
                    self.src(),
                    old(self).pos(),
                    self.pos(),
                ),
                spec_trim_from(self.src(), old(self).pos()) == spec_trim_from(
                    self.src(),
                    self.pos(),
                ),
            decreases self.src().len() - self.pos(),
        {
            if self.eof() {
                return ;
            }
            let c = self.peak();
            let ghost here = self.pos();
            if c == ' ' || c == '\r' || c == '\t' {
                self.advance();
                proof {
                    lemma_newlines_snoc(self.src(), old(self).pos(), here);
                    lemma_newlines_snoc(self.src(), 0, here);
                }
            } else if c == '\n' {
                self.advance();
                self.line = self.line + 1;
                proof {
                    lemma_newlines_snoc(self.src(), old(self).pos(), here);
                    lemma_newlines_snoc(self.src(), 0, here);
                }
            } else if c == '/' {
                if self.peak_match('/') {
                    // A comment runs to the end of the line; the newline
                    // itself is handled, and counted, by the next pass.
                    let ghost before = self.pos();
                    self.advance_n(2);
                    proof {
                        lemma_newlines_snoc(self.src(), old(self).pos(), before);
                        lemma_newlines_snoc(self.src(), old(self).pos(), before + 1);
                        lemma_newlines_snoc(self.src(), 0, before);
                        lemma_newlines_snoc(self.src(), 0, before + 1);
                    }
                    loop
                        invariant
                            self.wf(),
                            self.src() == old(self).src(),
                            self.pos() >= before + 2,
                            self.pos() >= old(self).pos(),
                            self.line_no() >= old(self).line_no(),
                            self.line_no() == old(self).line_no() + spec_newlines(
                                self.src(),
                                old(self).pos(),
                                self.pos(),
                            ),
                            spec_trim_from(self.src(), old(self).pos()) == spec_skip_comment(
                                self.src(),
                                self.pos(),
                            ),
                        ensures
                            self.pos() < self.src().len(),
                            self.src()[self.pos()] == '\n',
                            self.line_no() == old(self).line_no() + spec_newlines(
                                self.src(),
                                old(self).pos(),
                                self.pos(),
                            ),
                            spec_trim_from(self.src(), old(self).pos()) == spec_skip_comment(
                                self.src(),
                                self.pos(),
                            ),
                        decreases self.src().len() - self.pos(),
                    {
                        if self.eof() {
                            return ;
                        }
                        if self.peak() == '\n' {
                            break ;
                        }
                        let ghost inside = self.pos();
                        self.advance();
                        proof {
                            lemma_newlines_snoc(self.src(), old(self).pos(), inside);
                            lemma_newlines_snoc(self.src(), 0, inside);
                        }
                    }
                    proof {
                        assert(spec_skip_comment(self.src(), self.pos()) == spec_trim_from(
                            self.src(),
                            self.pos(),
                        ));
                    }
                } else {
                    return ;
                }
            } else {
                return ;
            }
        }
    }

    /// Recognise a lone punctuation or arithmetic character and consume it.
    fn single_char_token(&mut self) -> (r: Option<Token>)
        requires
            old(self).wf(),
            old(self).pos() < old(self).src().len(),
        ensures
            final(self).wf(),
            final(self).src() == old(self).src(),
            final(self).line_no() == old(self).line_no(),
            match r {
                Some(t) => {
                    &&& Some(t.token_type) == spec_single_char_type(
                        old(self).src()[old(self).pos()],
                    )
                    &&& t.pos == old(self).pos()
                    &&& t.length == 1
                    &&& t.line == final(self).line_no()
                    &&& final(self).pos() == old(self).pos() + 1
                    &&& spec_token_shape(
                        t.token_type,
                        old(self).src().subrange(t.pos as int, t.pos + t.length),
                    )
                },
                None => final(self).pos() == old(self).pos() && spec_single_char_type(
                    old(self).src()[old(self).pos()],
                ) is None,
            },
    {
        let c = self.peak();
        let token_type: Option<TokenType> = if c == '(' {
            Some(TokenType::LeftParen)
        } else if c == ')' {
            Some(TokenType::RightParen)
        } else if c == '{' {
            Some(TokenType::LeftBrace)
        } else if c == '}' {
            Some(TokenType::RightBrace)
        } else if c == ',' {
            Some(TokenType::Comma)
        } else if c == '.' {
            Some(TokenType::Dot)
        } else if c == '-' {
            Some(TokenType::Minus)
        } else if c == '+' {
            Some(TokenType::Plus)
        } else if c == ';' {
            Some(TokenType::Semicolon)
        } else if c == '/' {
            Some(TokenType::Slash)
        } else if c == '*' {
            Some(TokenType::Star)
        } else {
            None
        };
        match token_type {
            Some(tt) => {
                let token = self.make_token(tt, 1);
                self.advance();
                proof {
                    lemma_newlines_snoc(self.src(), 0, old(self).pos());
                    assert(old(self).src().subrange(
                        token.pos as int,
                        token.pos + token.length,
                    ) =~= seq![old(self).src()[old(self).pos()]]);
                }
                Some(token)
            },
            None => None,
        }
    }

    /// Recognise `!`, `=`, `<` or `>`, preferring the two-character operator
    /// when `=` follows, and consume what was recognised.
    fn two_char_token(&mut self) -> (r: Option<Token>)
        requires
            old(self).wf(),
            old(self).pos() < old(self).src().len(),
        ensures
            final(self).wf(),
            final(self).src() == old(self).src(),
            final(self).line_no() == old(self).line_no(),
            match r {
                Some(t) => {
                    &&& t.pos == old(self).pos()
                    &&& 1 <= t.length <= 2
                    &&& matches!(t.token_type, TokenType::Bang | TokenType::BangEqual
                        | TokenType::Equal | TokenType::EqualEqual | TokenType::Less
                        | TokenType::LessEqual | TokenType::Greater | TokenType::GreaterEqual)
                    &&& ({
                        let eq = old(self).pos() + 1 < old(self).src().len() && old(self).src()[
                            old(self).pos() + 1
                        ] == '=';
                        Some(t.token_type) == spec_two_char_kind(
                            old(self).src()[old(self).pos()],
                            eq,
                        ) && t.length == (if eq {
                            2int
                        } else {
                            1int
                        })
                    })
                    &&& t.line == final(self).line_no()
                    &&& old(self).pos() + t.length <= old(self).src().len()
                    &&& final(self).pos() == old(self).pos() + t.length
                    &&& spec_token_shape(
                        t.token_type,
                        old(self).src().subrange(t.pos as int, t.pos + t.length),
                    )
                },
                None => {
                    &&& final(self).pos() == old(self).pos()
                    &&& old(self).src()[old(self).pos()] != '!'
                    &&& old(self).src()[old(self).pos()] != '='
                    &&& old(self).src()[old(self).pos()] != '<'
                    &&& old(self).src()[old(self).pos()] != '>'
                },
            },
    {
        let c = self.peak();
        let token: Option<Token> = if c == '!' {
            if self.peak_match('=') {
                Some(self.make_token(TokenType::BangEqual, 2))
            } else {
                Some(self.make_token(TokenType::Bang, 1))
            }
        } else if c == '=' {
            if self.peak_match('=') {
                Some(self.make_token(TokenType::EqualEqual, 2))
            } else {
                Some(self.make_token(TokenType::Equal, 1))
            }
        } else if c == '<' {
            if self.peak_match('=') {
                Some(self.make_token(TokenType::LessEqual, 2))
            } else {
                Some(self.make_token(TokenType::Less, 1))
            }
        } else if c == '>' {
            if self.peak_match('=') {
                Some(self.make_token(TokenType::GreaterEqual, 2))
            } else {
                Some(self.make_token(TokenType::Greater, 1))
            }
        } else {
            None
        };
        match token {
            Some(t) => {
                self.advance_n(t.length);
                proof {
                    lemma_newlines_snoc(self.src(), 0, old(self).pos());
                    if t.length == 2 {
                        lemma_newlines_snoc(self.src(), 0, old(self).pos() + 1);
                    }
                    if t.length == 1 {
                        assert(old(self).src().subrange(t.pos as int, t.pos + 1) =~= seq![
                            old(self).src()[old(self).pos()],
                        ]);
                    } else {
                        assert(old(self).src().subrange(t.pos as int, t.pos + 2) =~= seq![
                            old(self).src()[old(self).pos()],
                            old(self).src()[old(self).pos() + 1],
                        ]);
                    }
                }
                Some(t)
            },
            None => None,
        }
    }

    /// Scan a string literal from the opening quote: consume up to and
    /// including the closing quote, counting embedded newlines, or report an
    /// unterminated literal after consuming the rest of the source.
    fn string_literal(&mut self) -> (r: TokenResult)
        requires
            old(self).wf(),
            old(self).pos() < old(self).src().len(),
            old(self).src()[old(self).pos()] == '"',
        ensures
            final(self).wf(),
            final(self).src() == old(self).src(),
            final(self).line_no() >= old(self).line_no(),
            match r {
                Ok(t) => {
                    &&& t.token_type == TokenType::StringLiteral
                    &&& t.pos == old(self).pos()
                    &&& t.length >= 2
                    &&& t.line == final(self).line_no()
                    &&& old(self).pos() + t.length <= old(self).src().len()
                    &&& final(self).pos() == old(self).pos() + t.length
                    &&& spec_string_close(old(self).src(), old(self).pos() + 1) == Some(
                        t.pos + t.length - 1,
                    )
                    &&& final(self).line_no() == old(self).line_no() + spec_newlines(
                        old(self).src(),
                        old(self).pos() + 1,
                        t.pos + t.length - 1,
                    )
                    &&& spec_token_shape(
                        t.token_type,
                        old(self).src().subrange(t.pos as int, t.pos + t.length),
                    )
                },
                Err(e) => {
                    &&& e.spec_content() == "Unterminated string literal"@
                    &&& e.spec_line() == final(self).line_no()
                    &&& spec_string_close(old(self).src(), old(self).pos() + 1) is None
                    &&& final(self).line_no() == old(self).line_no() + spec_newlines(
                        old(self).src(),
                        old(self).pos() + 1,
                        old(self).src().len() as int,
                    )
                    &&& final(self).pos() == final(self).src().len()
                    &&& final(self).pos() > old(self).pos()
                },
            },
    {
        let total = self.source.len();
        let ghost start = self.pos();
        let mut n: usize = 0;
        loop
            invariant
                old(self).wf(),
                total as int == self.src().len(),
                self.src() == old(self).src(),
                self.pos() == start,
                start == old(self).pos(),
                start < self.src().len(),
                self.src()[start] == '"',
                old(self).line_no() <= start,
                self.line_no() >= old(self).line_no(),
                self.line_no() <= old(self).line_no() + n,
                spec_string_close(self.src(), start + 1) == spec_string_close(
                    self.src(),
                    start + n + 1,
                ),
                self.line_no() == old(self).line_no() + spec_newlines(
                    self.src(),
                    start + 1,
                    start + n + 1,
                ),
                start + n < self.src().len() || start + n + 1 == self.src().len(),
            decreases self.src().len() - n,
        {
            if self.eof_n(n + 1) {
                // The closing quote never came: everything scanned, the
                // opening quote included, is consumed.
                let err = self.make_error_token("Unterminated string literal");
                self.advance_n(n + 1);
                proof {
                    lemma_newlines_split(self.src(), 0, start, start + 1);
                    lemma_newlines_split(self.src(), 0, start + 1, start + n + 1);
                    assert(spec_newlines(self.src(), start, start + 1) == 0) by {
                        lemma_newlines_none(self.src(), start, start + 1);
                    }
                }
                return Err(err);
            }
            if self.peak_n(n + 1) == '"' {
                let token = self.make_token(TokenType::StringLiteral, n + 2);
                self.advance_n(n + 2);
                proof {
                    let text = old(self).src().subrange(start, start + n + 2);
                    assert(text[0] == old(self).src()[start]);
                    assert(text[text.len() - 1] == old(self).src()[start + n + 1]);
                    lemma_newlines_split(self.src(), 0, start, start + 1);
                    lemma_newlines_split(self.src(), 0, start + 1, start + n + 1);
                    lemma_newlines_split(self.src(), 0, start + n + 1, start + n + 2);
                    assert(spec_newlines(self.src(), start, start + 1) == 0) by {
                        lemma_newlines_none(self.src(), start, start + 1);
                    }
                    assert(spec_newlines(self.src(), start + n + 1, start + n + 2) == 0) by {
                        lemma_newlines_none(self.src(), start + n + 1, start + n + 2);
                    }
                }
                return Ok(token);
            }
            proof {
                lemma_newlines_snoc(self.src(), start + 1, start + n + 1);
            }
            if self.peak_n(n + 1) == '\n' {
                self.line = self.line + 1;
            }
            n = n + 1;
        }
    }

    /// Scan a numeric literal from a leading digit: a maximal run of digits,
    /// then, only when a dot with a digit behind it follows, the dot and the
    /// maximal run of digits after it.
    fn numeric_literal(&mut self) -> (t: Token)
        requires
            old(self).wf(),
            old(self).pos() < old(self).src().len(),
            spec_is_digit(old(self).src()[old(self).pos()]),
        ensures
            final(self).wf(),
            final(self).src() == old(self).src(),
            final(self).line_no() == old(self).line_no(),
            t.token_type == TokenType::NumericLiteral,
            t.pos == old(self).pos(),
            t.length >= 1,
            t.line == final(self).line_no(),
            old(self).pos() + t.length <= old(self).src().len(),
            final(self).pos() == old(self).pos() + t.length,
            spec_is_numeric_literal(old(self).src().subrange(t.pos as int, t.pos + t.length)),
            t.pos + t.length == spec_numeric_end(old(self).src(), old(self).pos()),
            final(self).pos() == final(self).src().len() || !spec_is_digit(
                final(self).src()[final(self).pos()],
            ),
    {
        let total = self.source.len();
        let ghost start = self.pos();
        let mut n: usize = 1;
        loop
            invariant
                total as int == self.src().len(),
                self.wf(),
                self.src() == old(self).src(),
                self.pos() == start,
                n >= 1,
                start + n <= self.src().len(),
                spec_is_digit(self.src()[start]),
                spec_digit_end(self.src(), start) == spec_digit_end(self.src(), start + n),
                spec_all_digits(self.src().subrange(start, start + n)),
            ensures
                start + n == spec_digit_end(self.src(), start),
                start + n == self.src().len() || !spec_is_digit(self.src()[start + n]),
            decreases self.src().len() - (start + n),
        {
            if self.eof_n(n) {
                break ;
            }
            let c = self.peak_n(n);
            if !is_digit_char(c) {
                break ;
            }
            proof {
                assert(self.src().subrange(start, start + n + 1) =~= self.src().subrange(
                    start,
                    start + n,
                ).push(self.src()[start + n]));
            }
            n = n + 1;
        }
        // A dot joins the literal only when a digit follows it.
        let has_fraction: bool = if self.eof_n(n) {
            false
        } else if self.peak_n(n) != '.' {
            false
        } else if self.eof_n(n + 1) {
            false
        } else {
            is_digit_char(self.peak_n(n + 1))
        };
        let ghost mut dot: int = 0;
        if has_fraction {
            proof {
                dot = n as int;
            }
            n = n + 1;
            proof {
                assert(spec_all_digits(self.src().subrange(start + dot + 1, start + dot + 1)));
            }
            loop
                invariant
                    total as int == self.src().len(),
                    self.wf(),
                    self.src() == old(self).src(),
                    self.pos() == start,
                    1 <= dot < n,
                    start + n <= self.src().len(),
                    self.src()[start + dot] == '.',
                    start + dot + 1 < self.src().len(),
                    spec_is_digit(self.src()[start + dot + 1]),
                    spec_digit_end(self.src(), start + dot + 1) == spec_digit_end(
                        self.src(),
                        start + n,
                    ),
                    spec_all_digits(self.src().subrange(start, start + dot)),
                    spec_all_digits(self.src().subrange(start + dot + 1, start + n)),
                    n >= dot + 1,
                ensures
                    n >= dot + 2,
                    start + n == spec_digit_end(self.src(), start + dot + 1),
                    start + n == self.src().len() || !spec_is_digit(self.src()[start + n]),
                decreases self.src().len() - (start + n),
            {
                if self.eof_n(n) {
                    break ;
                }
                let c = self.peak_n(n);
                if !is_digit_char(c) {
                    break ;
                }
                proof {
                    assert(self.src().subrange(start + dot + 1, start + n + 1)
                        =~= self.src().subrange(start + dot + 1, start + n).push(
                        self.src()[start + n],
                    ));
                }
                n = n + 1;
            }
            proof {
                assert(n >= dot + 2);
            }
        }
        let token = self.make_token(TokenType::NumericLiteral, n);
        self.advance_n(n);
        proof {
            assert forall|i: int| start <= i < start + n implies self.src()[i] != '\n' by {
                if has_fraction {
                    if i < start + dot {
                        assert(spec_is_digit(self.src().subrange(start, start + dot)[i - start]));
                    } else if i > start + dot {
                        assert(spec_is_digit(
                            self.src().subrange(start + dot + 1, start + n)[i - (start + dot
                                + 1)],
                        ));
                    }
                } else {
                    assert(spec_is_digit(self.src().subrange(start, start + n)[i - start]));
                }
            }
            lemma_newlines_none(self.src(), start, start + n);
            lemma_newlines_split(self.src(), 0, start, start + n);
            let text = old(self).src().subrange(start, start + n);
            if has_fraction {
                assert(text.take(dot) =~= old(self).src().subrange(start, start + dot));
                assert(text.skip(dot + 1) =~= old(self).src().subrange(start + dot + 1, start + n));
                assert(text[dot] == '.');
                assert(1 <= dot <= text.len() - 2);
                assert(spec_is_numeric_literal(text));
            } else {
                assert(text =~= old(self).src().subrange(start, start + n));
                assert(spec_is_numeric_literal(text));
            }
        }
        token
    }

    /// Scan an identifier or keyword from a leading alphabetic character: a
    /// maximal run of alphanumeric or underscore characters, classified
    /// against the reserved words.
    fn identifier(&mut self) -> (t: Token)
        requires
            old(self).wf(),
            old(self).pos() < old(self).src().len(),
            spec_is_alphabetic(old(self).src()[old(self).pos()]),
        ensures
            final(self).wf(),
            final(self).src() == old(self).src(),
            final(self).line_no() == old(self).line_no(),
            t.pos == old(self).pos(),
            t.length >= 1,
            t.line == final(self).line_no(),
            old(self).pos() + t.length <= old(self).src().len(),
            final(self).pos() == old(self).pos() + t.length,
            t.token_type == spec_keyword_type(
                old(self).src().subrange(t.pos as int, t.pos + t.length),
            ),
            spec_token_shape(
                t.token_type,
                old(self).src().subrange(t.pos as int, t.pos + t.length),
            ),
            t.pos + t.length == spec_ident_end(old(self).src(), old(self).pos()),
            final(self).pos() == final(self).src().len() || !spec_is_ident_char(
                final(self).src()[final(self).pos()],
            ),
    {
        let total = self.source.len();
        let ghost start = self.pos();
        let mut n: usize = 0;
        loop
            invariant
                total as int == self.src().len(),
                self.wf(),
                self.src() == old(self).src(),
                self.pos() == start,
                start < self.src().len(),
                spec_is_alphabetic(self.src()[start]),
                start + n <= self.src().len(),
                spec_ident_end(self.src(), start) == spec_ident_end(self.src(), start + n),
                forall|i: int|
                    start <= i < start + n ==> spec_is_ident_char(#[trigger] self.src()[i]),
                forall|i: int| start <= i < start + n ==> #[trigger] self.src()[i] != '\n',
            ensures
                n >= 1,
                forall|i: int| start <= i < start + n ==> #[trigger] self.src()[i] != '\n',
                start + n == spec_ident_end(self.src(), start),
                start + n == self.src().len() || !spec_is_ident_char(self.src()[start + n]),
            decreases self.src().len() - (start + n),
        {
            if self.eof_n(n) {
                break ;
            }
            let c = self.peak_n(n);
            if !(char_is_alphanumeric(c) || c == '_') {
                break ;
            }
            n = n + 1;
        }
        let text: &[char] = &self.source[self.removed_chars..self.removed_chars + n];
        proof {
            assert(text@ =~= self.src().subrange(start, start + n));
        }
        let token_type = classify_identifier(text);
        let token = self.make_token(token_type, n);
        self.advance_n(n);
        proof {
            lemma_newlines_none(self.src(), start, start + n);
            lemma_newlines_split(self.src(), 0, start, start + n);
            let t = old(self).src().subrange(start, start + n);
            assert(t[0] == old(self).src()[start]);
            assert(forall|i: int| 0 <= i < t.len() ==> t[i] == old(self).src()[start + i]);
            keyword_shape_agrees(t);
        }
        token
    }

    /// Produce the next token, a lexical error, or nothing at the end of the
    /// source. A produced item always consumes at least one character; `None`
    /// means the cursor has reached the end. Which of these comes, the
    /// token's kind and exactly which characters it covers are decided by
    /// `spec_scan` at the cursor: the lexer is a function of the source.
    pub fn next_token(&mut self) -> (r: OTokenResult)
        requires
            old(self).wf(),
        ensures
            final(self).wf(),
            final(self).src() == old(self).src(),
            final(self).line_no() >= old(self).line_no(),
            final(self).pos() >= old(self).pos(),
            match r {
                None => spec_scan(old(self).src(), old(self).pos()) == SpecScan::EndScan,
                Some(Ok(t)) => spec_scan(old(self).src(), old(self).pos())
                    == SpecScan::TokenScan(t.token_type, t.pos + t.length),
                Some(Err(e)) => {
                    ||| (spec_scan(old(self).src(), old(self).pos())
                        == SpecScan::UnterminatedScan && e.spec_content()
                        == "Unterminated string literal"@ && final(self).pos()
                        == final(self).src().len())
                    ||| (spec_scan(old(self).src(), old(self).pos())
                        == SpecScan::UnrecognisedScan(
                        old(self).src()[spec_trim_from(old(self).src(), old(self).pos())],
                    ) && e.spec_content() == "Unrecognised token "@.push(
                        old(self).src()[spec_trim_from(old(self).src(), old(self).pos())],
                    ) && final(self).pos() == spec_trim_from(old(self).src(), old(self).pos())
                        + 1)
                },
            },
            match r {
                None => final(self).pos() == final(self).src().len() && spec_trim_from(
                    old(self).src(),
                    old(self).pos(),
                ) == final(self).src().len(),
                Some(Ok(t)) => {
                    &&& t.length >= 1
                    &&& old(self).pos() <= t.pos
                    &&& t.pos == spec_trim_from(old(self).src(), old(self).pos())
                    &&& t.pos + t.length == final(self).pos()
                    &&& final(self).pos() <= final(self).src().len()
                    &&& t.line == final(self).line_no()
                    &&& spec_token_shape(
                        t.token_type,
                        final(self).src().subrange(t.pos as int, t.pos + t.length),
                    )
                    &&& (t.token_type == TokenType::NumericLiteral && final(self).pos()
                        < final(self).src().len()) ==> !spec_is_digit(
                        final(self).src()[final(self).pos()],
                    )
                    &&& (spec_is_word_kind(t.token_type) && final(self).pos()
                        < final(self).src().len()) ==> !spec_is_ident_char(
                        final(self).src()[final(self).pos()],
                    )
                },
                Some(Err(e)) => {
                    &&& final(self).pos() > old(self).pos()
                    &&& e.spec_line() == final(self).line_no()
                    &&& (e.spec_content() == "Unterminated string literal"@ || e.spec_content()
                        == "Unrecognised token "@.push(
                        final(self).src()[final(self).pos() - 1],
                    ))
                },
            },
    {
        self.trim_left();
        if self.eof() {
            return None;
        }
        if let Some(token) = self.single_char_token() {
            return Some(Ok(token));
        }
        if let Some(token) = self.two_char_token() {
            return Some(Ok(token));
        }
        let c = self.peak();
        if c == '"' {
            return Some(self.string_literal());
        }
        if is_digit_char(c) {
            return Some(Ok(self.numeric_literal()));
        }
        if char_is_alphabetic(c) {
            return Some(Ok(self.identifier()));
        }
        let err = self.make_error_token_with_char("Unrecognised token ", c);
        let ghost here = self.pos();
        self.advance();
        proof {
            // The character was not skippable, so in particular no newline.
            lemma_newlines_snoc(self.src(), 0, here);
        }
        Some(Err(err))
    }

    /// A lexical error whose message ends in the offending character.
    fn make_error_token_with_char(&self, msg: &str, c: char) -> (e: TokenErr)
        ensures
            e.spec_content() == msg@.push(c),
            e.spec_line() == self.line_no(),
    {
        TokenErr::new(char_suffix_message(msg, c), self.line)
    }
}

/// Compare an identifier run against the reserved words.
fn classify_identifier(text: &[char]) -> (r: TokenType)
    ensures
        r == spec_keyword_type(text@),
{
    let n = text.len();
    if n == 3 && text[0] == 'a' && text[1] == 'n' && text[2] == 'd' {
        proof {
            assert(text@ =~= seq!['a', 'n', 'd']);
        }
        TokenType::And
    } else if n == 5 && text[0] == 'c' && text[1] == 'l' && text[2] == 'a' && text[3] == 's'
        && text[4] == 's' {
        proof {
            assert(text@ =~= seq!['c', 'l', 'a', 's', 's']);
        }
        TokenType::Class
    } else if n == 4 && text[0] == 'e' && text[1] == 'l' && text[2] == 's' && text[3] == 'e' {
        proof {
            assert(text@ =~= seq!['e', 'l', 's', 'e']);
        }
        TokenType::Else
    } else if n == 2 && text[0] == 'i' && text[1] == 'f' {
        proof {
            assert(text@ =~= seq!['i', 'f']);
        }
        TokenType::If
    } else if n == 3 && text[0] == 'n' && text[1] == 'i' && text[2] == 'l' {
        proof {
            assert(text@ =~= seq!['n', 'i', 'l']);
        }
        TokenType::Nil
    } else if n == 2 && text[0] == 'o' && text[1] == 'r' {
        proof {
            assert(text@ =~= seq!['o', 'r']);
        }
        TokenType::Or
    } else if n == 5 && text[0] == 'p' && text[1] == 'r' && text[2] == 'i' && text[3] == 'n'
        && text[4] == 't' {
        proof {
            assert(text@ =~= seq!['p', 'r', 'i', 'n', 't']);
        }
        TokenType::Print
    } else if n == 6 && text[0] == 'r' && text[1] == 'e' && text[2] == 't' && text[3] == 'u'
        && text[4] == 'r' && text[5] == 'n' {
        proof {
            assert(text@ =~= seq!['r', 'e', 't', 'u', 'r', 'n']);
        }
        TokenType::Return
    } else if n == 5 && text[0] == 's' && text[1] == 'u' && text[2] == 'p' && text[3] == 'e'
        && text[4] == 'r' {
        proof {
            assert(text@ =~= seq!['s', 'u', 'p', 'e', 'r']);
        }
        TokenType::Super
    } else if n == 3 && text[0] == 'v' && text[1] == 'a' && text[2] == 'r' {
        proof {
            assert(text@ =~= seq!['v', 'a', 'r']);
        }
        TokenType::Var
    } else if n == 5 && text[0] == 'w' && text[1] == 'h' && text[2] == 'i' && text[3] == 'l'
        && text[4] == 'e' {
        proof {
            assert(text@ =~= seq!['w', 'h', 'i', 'l', 'e']);
        }
        TokenType::While
    } else if n == 3 && text[0] == 'f' && text[1] == 'u' && text[2] == 'n' {
        proof {
            assert(text@ =~= seq!['f', 'u', 'n']);
        }
        TokenType::Func
    } else if n == 5 && text[0] == 'f' && text[1] == 'a' && text[2] == 'l' && text[3] == 's'
        && text[4] == 'e' {
        proof {
            assert(text@ =~= seq!['f', 'a', 'l', 's', 'e']);
        }
        TokenType::FalseIdent
    } else if n == 3 && text[0] == 'f' && text[1] == 'o' && text[2] == 'r' {
        proof {
            assert(text@ =~= seq!['f', 'o', 'r']);
        }
        TokenType::For
    } else if n == 4 && text[0] == 't' && text[1] == 'h' && text[2] == 'i' && text[3] == 's' {
        proof {
            assert(text@ =~= seq!['t', 'h', 'i', 's']);
        }
        TokenType::This
    } else if n == 4 && text[0] == 't' && text[1] == 'r' && text[2] == 'u' && text[3] == 'e' {
        proof {
            assert(text@ =~= seq!['t', 'r', 'u', 'e']);
        }
        TokenType::TrueIdent
    } else {
        TokenType::Identifier
    }
}

/// An identifier run of ident characters, led by an alphabetic character,
/// satisfies the shape of whatever kind classification gives it.
proof fn keyword_shape_agrees(t: Seq<char>)
    requires
        t.len() >= 1,
        spec_is_alphabetic(t[0]),
        forall|i: int| 0 <= i < t.len() ==> spec_is_ident_char(#[trigger] t[i]),
    ensures
        spec_token_shape(spec_keyword_type(t), t),
{
}

} // verus!

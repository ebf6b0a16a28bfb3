//! The tokenizer: source text to a stream of positioned tokens or lexical
//! errors.
//!
//! The lexer is pull-based: each call to [`Lexer::next`] consumes just
//! enough characters for one result.  On a lexical error the rest of the
//! offending line is discarded and scanning resumes on the next line, so
//! one bad line never poisons the stream.
//!
//! The whole tokenization is modelled by spec functions over a
//! [`LexSt`] state (the character sequence, the count of consumed
//! characters, and whether the end was hit); every method's contract says
//! exactly which transition it performs.

use vstd::prelude::*;

use crate::push_char;

verus! {

// ---------------------------------------------------------------------------
// Token and error types
// ---------------------------------------------------------------------------

/// One token of the assembly surface syntax.
#[derive(Debug, PartialEq, Eq)]
pub enum Token {
    Instruction(Instruction),
    Directive(Directive),
    Unit(Unit),
    At,
    Comma,
    AbsoluteLabel(String),
    RelativeLabel(String),
    IntLiteral(i64),
    StringLiteral(String),
    LabelReference(String),
}

/// An instruction mnemonic keyword.
#[derive(Debug, Clone, Copy, PartialEq, Eq, Structural)]
pub enum Instruction {
    Mov,
    Add,
    Sub,
    Mul,
    Div,
    Cmp,
    Jg,
    Je,
    Jl,
    Jmp,
    Int,
    Iret,
    And,
    Or,
    Xor,
    Not,
    Shl,
    Shr,
}

/// A directive keyword.
#[derive(Debug, Clone, Copy, PartialEq, Eq, Structural)]
pub enum Directive {
    Db,
    Ds,
}

/// A unit keyword.
#[derive(Debug, Clone, Copy, PartialEq, Eq, Structural)]
pub enum Unit {
    Byte,
    Word,
    Dword,
}

/// A source position: zero-based line and column of a character.  The line
/// grows and the column resets to zero on a newline; otherwise the column
/// grows, counting the character itself.
#[derive(Debug, Clone, Copy, PartialEq, Eq, Structural)]
pub struct Position {
    pub line: usize,
    pub col: usize,
}

/// A token together with the position of its first character.
#[derive(Debug, PartialEq, Eq)]
pub struct FatToken {
    pub token: Token,
    pub pos: Position,
}

/// A lexical error kind.
#[derive(Debug, PartialEq, Eq, Structural)]
pub enum Error {
    /// This character stood where that other one was expected.
    WrongCharacter(char, char),
    /// The input ended where this character was expected.
    MissingCharacter(char),
    /// A newline inside a string literal.
    UnexpectedNewline,
    /// A digit was expected.
    NotADigit,
    /// The input ended inside a token.
    UnexpectedEof,
    /// No token starts with this character.
    InvalidCharacter,
}

/// An error together with its position.
#[derive(Debug, PartialEq, Eq, Structural)]
pub struct FatError {
    pub error: Error,
    pub pos: Position,
}

/// One element of the token stream: a token or a positioned error.
#[derive(Debug, PartialEq, Eq)]
pub enum LexResult {
    Success(FatToken),
    Error(FatError),
}

impl LexResult {
    fn token(pos: Position, token: Token) -> (r: Self)
        ensures
            r == LexResult::Success(FatToken { token, pos }),
    {
        LexResult::Success(FatToken { token, pos })
    }

    fn error(pos: Position, error: Error) -> (r: Self)
        ensures
            r == LexResult::Error(FatError { error, pos }),
    {
        LexResult::Error(FatError { error, pos })
    }
}

// ---------------------------------------------------------------------------
// The ghost model: token values over character sequences
// ---------------------------------------------------------------------------

/// The mathematical value of a [`Token`]: text payloads as character
/// sequences.
pub enum TokenModel {
    Instruction(Instruction),
    Directive(Directive),
    Unit(Unit),
    At,
    Comma,
    AbsoluteLabel(Seq<char>),
    RelativeLabel(Seq<char>),
    IntLiteral(i64),
    StringLiteral(Seq<char>),
    LabelReference(Seq<char>),
}

impl Token {
    pub open spec fn model(self) -> TokenModel {
        match self {
            Token::Instruction(i) => TokenModel::Instruction(i),
            Token::Directive(d) => TokenModel::Directive(d),
            Token::Unit(u) => TokenModel::Unit(u),
            Token::At => TokenModel::At,
            Token::Comma => TokenModel::Comma,
            Token::AbsoluteLabel(s) => TokenModel::AbsoluteLabel(s@),
            Token::RelativeLabel(s) => TokenModel::RelativeLabel(s@),
            Token::IntLiteral(v) => TokenModel::IntLiteral(v),
            Token::StringLiteral(s) => TokenModel::StringLiteral(s@),
            Token::LabelReference(s) => TokenModel::LabelReference(s@),
        }
    }
}

/// The mathematical value of a [`LexResult`].
pub enum LexOut {
    Token(TokenModel, Position),
    Error(Error, Position),
}

impl LexResult {
    pub open spec fn model(self) -> LexOut {
        match self {
            LexResult::Success(ft) => LexOut::Token(ft.token.model(), ft.pos),
            LexResult::Error(fe) => LexOut::Error(fe.error, fe.pos),
        }
    }
}

// ---------------------------------------------------------------------------
// Character classes
// ---------------------------------------------------------------------------

/// The Unicode `White_Space` characters, as `char::is_whitespace` lists
/// them.
pub open spec fn spec_is_whitespace(c: char) -> bool {
    let u = c as u32;
    u == 0x09 || u == 0x0A || u == 0x0B || u == 0x0C || u == 0x0D || u == 0x20 || u == 0x85 || u
        == 0xA0 || u == 0x1680 || (0x2000 <= u && u <= 0x200A) || u == 0x2028 || u == 0x2029 || u
        == 0x202F || u == 0x205F || u == 0x3000
}

fn is_whitespace_char(c: char) -> (r: bool)
    ensures
        r == spec_is_whitespace(c),
{
    let u = c as u32;
    u == 0x09 || u == 0x0A || u == 0x0B || u == 0x0C || u == 0x0D || u == 0x20 || u == 0x85 || u
        == 0xA0 || u == 0x1680 || (0x2000 <= u && u <= 0x200A) || u == 0x2028 || u == 0x2029 || u
        == 0x202F || u == 0x205F || u == 0x3000
}

/// Whether the character has the Unicode `Alphabetic` property.  The
/// property is a large table; its content is left unstated and the lexer is
/// verified for every assignment of it.
pub uninterp spec fn alphabetic(c: char) -> bool;

/// Relies on `char::is_alphabetic`: whether the character has the Unicode
/// `Alphabetic` property, a function of the character alone.
#[verifier::external_body]
fn is_alphabetic_char(c: char) -> (r: bool)
    ensures
        r == alphabetic(c),
{
    c.is_alphabetic()
}

/// The numeric value of `c` as a digit in the given radix, if it is one:
/// `0`-`9` count from zero, and in radices above ten the letters `a`-`z`
/// and `A`-`Z` continue from ten.
pub open spec fn spec_to_digit(c: char, radix: u32) -> Option<u32> {
    let u = c as u32;
    if 0x30 <= u && u <= 0x39 && u - 0x30 < radix {
        Some((u - 0x30) as u32)
    } else if 0x61 <= u && u <= 0x7A && u - 0x57 < radix {
        Some((u - 0x57) as u32)
    } else if 0x41 <= u && u <= 0x5A && u - 0x37 < radix {
        Some((u - 0x37) as u32)
    } else {
        None
    }
}

fn to_digit(c: char, radix: u32) -> (r: Option<u32>)
    ensures
        r == spec_to_digit(c, radix),
{
    let u = c as u32;
    if 0x30 <= u && u <= 0x39 && u - 0x30 < radix {
        Some(u - 0x30)
    } else if 0x61 <= u && u <= 0x7A && u - 0x57 < radix {
        Some(u - 0x57)
    } else if 0x41 <= u && u <= 0x5A && u - 0x37 < radix {
        Some(u - 0x37)
    } else {
        None
    }
}

/// A character that may continue an identifier.
pub open spec fn spec_ident_cont(c: char) -> bool {
    alphabetic(c) || spec_to_digit(c, 10) is Some || c == '_'
}

fn is_ident_cont(c: char) -> (r: bool)
    ensures
        r == spec_ident_cont(c),
{
    is_alphabetic_char(c) || to_digit(c, 10).is_some() || c == '_'
}

/// ASCII lowercasing, used for the case-insensitive keyword match.
pub open spec fn spec_lower(c: char) -> char {
    let u = c as u32;
    if 0x41 <= u && u <= 0x5A {
        ((u + 0x20) as u8) as char
    } else {
        c
    }
}

fn lower(c: char) -> (r: char)
    ensures
        r == spec_lower(c),
{
    let u = c as u32;
    if 0x41 <= u && u <= 0x5A {
        ((u + 0x20) as u8) as char
    } else {
        c
    }
}

// ---------------------------------------------------------------------------
// Keyword tables (case-insensitive)
// ---------------------------------------------------------------------------

/// The instruction mnemonic spelled by the identifier, if any.
pub open spec fn spec_keyword_instr(cs: Seq<char>) -> Option<Instruction> {
    if cs.len() == 2 {
        let c0 = spec_lower(cs[0]);
        let c1 = spec_lower(cs[1]);
        if c0 == 'j' && c1 == 'g' {
            Some(Instruction::Jg)
        } else if c0 == 'j' && c1 == 'e' {
            Some(Instruction::Je)
        } else if c0 == 'j' && c1 == 'l' {
            Some(Instruction::Jl)
        } else if c0 == 'o' && c1 == 'r' {
            Some(Instruction::Or)
        } else {
            None
        }
    } else if cs.len() == 3 {
        let c0 = spec_lower(cs[0]);
        let c1 = spec_lower(cs[1]);
        let c2 = spec_lower(cs[2]);
        if c0 == 'm' && c1 == 'o' && c2 == 'v' {
            Some(Instruction::Mov)
        } else if c0 == 'a' && c1 == 'd' && c2 == 'd' {
            Some(Instruction::Add)
        } else if c0 == 's' && c1 == 'u' && c2 == 'b' {
            Some(Instruction::Sub)
        } else if c0 == 'm' && c1 == 'u' && c2 == 'l' {
            Some(Instruction::Mul)
        } else if c0 == 'd' && c1 == 'i' && c2 == 'v' {
            Some(Instruction::Div)
        } else if c0 == 'c' && c1 == 'm' && c2 == 'p' {
            Some(Instruction::Cmp)
        } else if c0 == 'j' && c1 == 'm' && c2 == 'p' {
            Some(Instruction::Jmp)
        } else if c0 == 'i' && c1 == 'n' && c2 == 't' {
            Some(Instruction::Int)
        } else if c0 == 'a' && c1 == 'n' && c2 == 'd' {
            Some(Instruction::And)
        } else if c0 == 'x' && c1 == 'o' && c2 == 'r' {
            Some(Instruction::Xor)
        } else if c0 == 'n' && c1 == 'o' && c2 == 't' {
            Some(Instruction::Not)
        } else if c0 == 's' && c1 == 'h' && c2 == 'l' {
            Some(Instruction::Shl)
        } else if c0 == 's' && c1 == 'h' && c2 == 'r' {
            Some(Instruction::Shr)
        } else {
            None
        }
    } else if cs.len() == 4 {
        if spec_lower(cs[0]) == 'i' && spec_lower(cs[1]) == 'r' && spec_lower(cs[2]) == 'e'
            && spec_lower(cs[3]) == 't' {
            Some(Instruction::Iret)
        } else {
            None
        }
    } else {
        None
    }
}

/// The directive keyword spelled by the identifier, if any.
pub open spec fn spec_keyword_directive(cs: Seq<char>) -> Option<Directive> {
    if cs.len() == 2 {
        let c0 = spec_lower(cs[0]);
        let c1 = spec_lower(cs[1]);
        if c0 == 'd' && c1 == 'b' {
            Some(Directive::Db)
        } else if c0 == 'd' && c1 == 's' {
            Some(Directive::Ds)
        } else {
            None
        }
    } else {
        None
    }
}

/// The unit keyword spelled by the identifier, if any.
pub open spec fn spec_keyword_unit(cs: Seq<char>) -> Option<Unit> {
    if cs.len() == 4 {
        let c0 = spec_lower(cs[0]);
        let c1 = spec_lower(cs[1]);
        let c2 = spec_lower(cs[2]);
        let c3 = spec_lower(cs[3]);
        if c0 == 'b' && c1 == 'y' && c2 == 't' && c3 == 'e' {
            Some(Unit::Byte)
        } else if c0 == 'w' && c1 == 'o' && c2 == 'r' && c3 == 'd' {
            Some(Unit::Word)
        } else {
            None
        }
    } else if cs.len() == 5 {
        if spec_lower(cs[0]) == 'd' && spec_lower(cs[1]) == 'w' && spec_lower(cs[2]) == 'o'
            && spec_lower(cs[3]) == 'r' && spec_lower(cs[4]) == 'd' {
            Some(Unit::Dword)
        } else {
            None
        }
    } else {
        None
    }
}

impl Instruction {
    /// The case-insensitive keyword match for instruction mnemonics.
    pub fn from_ident(s: &Vec<char>) -> (r: Option<Instruction>)
        ensures
            r == spec_keyword_instr(s@),
    {
        if s.len() == 2 {
            let c0 = lower(s[0]);
            let c1 = lower(s[1]);
            if c0 == 'j' && c1 == 'g' {
                Some(Instruction::Jg)
            } else if c0 == 'j' && c1 == 'e' {
                Some(Instruction::Je)
            } else if c0 == 'j' && c1 == 'l' {
                Some(Instruction::Jl)
            } else if c0 == 'o' && c1 == 'r' {
                Some(Instruction::Or)
            } else {
                None
            }
        } else if s.len() == 3 {
            let c0 = lower(s[0]);
            let c1 = lower(s[1]);
            let c2 = lower(s[2]);
            if c0 == 'm' && c1 == 'o' && c2 == 'v' {
                Some(Instruction::Mov)
            } else if c0 == 'a' && c1 == 'd' && c2 == 'd' {
                Some(Instruction::Add)
            } else if c0 == 's' && c1 == 'u' && c2 == 'b' {
                Some(Instruction::Sub)
            } else if c0 == 'm' && c1 == 'u' && c2 == 'l' {
                Some(Instruction::Mul)
            } else if c0 == 'd' && c1 == 'i' && c2 == 'v' {
                Some(Instruction::Div)
            } else if c0 == 'c' && c1 == 'm' && c2 == 'p' {
                Some(Instruction::Cmp)
            } else if c0 == 'j' && c1 == 'm' && c2 == 'p' {
                Some(Instruction::Jmp)
            } else if c0 == 'i' && c1 == 'n' && c2 == 't' {
                Some(Instruction::Int)
            } else if c0 == 'a' && c1 == 'n' && c2 == 'd' {
                Some(Instruction::And)
            } else if c0 == 'x' && c1 == 'o' && c2 == 'r' {
                Some(Instruction::Xor)
            } else if c0 == 'n' && c1 == 'o' && c2 == 't' {
                Some(Instruction::Not)
            } else if c0 == 's' && c1 == 'h' && c2 == 'l' {
                Some(Instruction::Shl)
            } else if c0 == 's' && c1 == 'h' && c2 == 'r' {
                Some(Instruction::Shr)
            } else {
                None
            }
        } else if s.len() == 4 {
            if lower(s[0]) == 'i' && lower(s[1]) == 'r' && lower(s[2]) == 'e' && lower(s[3])
                == 't' {
                Some(Instruction::Iret)
            } else {
                None
            }
        } else {
            None
        }
    }
}

impl Directive {
    /// The case-insensitive keyword match for directives.
    pub fn from_ident(s: &Vec<char>) -> (r: Option<Directive>)
        ensures
            r == spec_keyword_directive(s@),
    {
        if s.len() == 2 {
            let c0 = lower(s[0]);
            let c1 = lower(s[1]);
            if c0 == 'd' && c1 == 'b' {
                Some(Directive::Db)
            } else if c0 == 'd' && c1 == 's' {
                Some(Directive::Ds)
            } else {
                None
            }
        } else {
            None
        }
    }
}

impl Unit {
    /// The case-insensitive keyword match for units.
    pub fn from_ident(s: &Vec<char>) -> (r: Option<Unit>)
        ensures
            r == spec_keyword_unit(s@),
    {
        if s.len() == 4 {
            let c0 = lower(s[0]);
            let c1 = lower(s[1]);
            let c2 = lower(s[2]);
            let c3 = lower(s[3]);
            if c0 == 'b' && c1 == 'y' && c2 == 't' && c3 == 'e' {
                Some(Unit::Byte)
            } else if c0 == 'w' && c1 == 'o' && c2 == 'r' && c3 == 'd' {
                Some(Unit::Word)
            } else {
                None
            }
        } else if s.len() == 5 {
            if lower(s[0]) == 'd' && lower(s[1]) == 'w' && lower(s[2]) == 'o' && lower(s[3]) == 'r'
                && lower(s[4]) == 'd' {
                Some(Unit::Dword)
            } else {
                None
            }
        } else {
            None
        }
    }
}

// ---------------------------------------------------------------------------
// Positions
// ---------------------------------------------------------------------------

/// How consuming `c` moves the position counter.
pub open spec fn spec_advance_pos(p: Position, c: char) -> Position {
    if c == '\n' {
        Position { line: (p.line + 1) as usize, col: 0 }
    } else {
        Position { line: p.line, col: (p.col + 1) as usize }
    }
}

/// The position carried by character `k` of `s`: character 0 sits at line
/// 0, column 0, and each later character advances the counter by itself.
pub open spec fn spec_pos_at(s: Seq<char>, k: int) -> Position
    decreases k,
{
    if k <= 0 {
        Position { line: 0, col: 0 }
    } else {
        spec_advance_pos(spec_pos_at(s, k - 1), s[k])
    }
}

proof fn lemma_pos_at_bounds(s: Seq<char>, k: int)
    requires
        k <= usize::MAX,
    ensures
        spec_pos_at(s, k).line + spec_pos_at(s, k).col <= (if k <= 0 {
            0int
        } else {
            k
        }),
    decreases k,
{
    if k > 0 {
        lemma_pos_at_bounds(s, k - 1);
    }
}

impl Position {
    fn update(&mut self, c: char)
        requires
            old(self).line < usize::MAX,
            old(self).col < usize::MAX,
        ensures
            *final(self) == spec_advance_pos(*old(self), c),
    {
        if c == '\n' {
            self.line = self.line + 1;
            self.col = 0;
        } else {
            self.col = self.col + 1;
        }
    }
}

// ---------------------------------------------------------------------------
// The lexer state model
// ---------------------------------------------------------------------------

/// The mathematical state of a lexer: the character sequence, the count of
/// consumed characters, and whether a read past the end was attempted.
pub struct LexSt {
    pub s: Seq<char>,
    pub k: int,
    pub eof: bool,
}

/// The character most recently consumed.
pub open spec fn spec_cur(st: LexSt) -> char {
    if st.k >= 1 {
        st.s[st.k - 1]
    } else {
        '\0'
    }
}

/// The position of the character most recently consumed.
pub open spec fn spec_cur_pos(st: LexSt) -> Position {
    spec_pos_at(st.s, st.k - 1)
}

/// Consuming one character, or hitting the end.
pub open spec fn spec_read(st: LexSt) -> LexSt {
    if st.k < st.s.len() {
        LexSt { s: st.s, k: st.k + 1, eof: st.eof }
    } else {
        LexSt { s: st.s, k: st.k, eof: true }
    }
}

/// The state a fresh lexer starts in: the first character consumed, or the
/// end already hit on empty input.
pub open spec fn spec_init(s: Seq<char>) -> LexSt {
    if s.len() == 0 {
        LexSt { s, k: 0, eof: true }
    } else {
        LexSt { s, k: 1, eof: false }
    }
}

/// Skipping whitespace: consume characters while the current one is
/// whitespace.
pub open spec fn spec_skip_ws(st: LexSt) -> LexSt
    decreases st.s.len() - st.k, (if st.eof {
        0int
    } else {
        1int
    }),
{
    if !st.eof && st.k >= 1 && spec_is_whitespace(st.s[st.k - 1]) {
        spec_skip_ws(spec_read(st))
    } else {
        st
    }
}

/// Discarding the rest of the line: consume up to and including the next
/// newline (or the end of input).
pub open spec fn spec_skip_line(st: LexSt) -> LexSt
    decreases st.s.len() - st.k, (if st.eof {
        0int
    } else {
        1int
    }),
{
    if !st.eof && st.k >= 1 && st.s[st.k - 1] != '\n' {
        spec_skip_line(spec_read(st))
    } else {
        spec_read(st)
    }
}

// ---------------------------------------------------------------------------
// Collecting runs of characters
// ---------------------------------------------------------------------------

/// The first index at or after `k` whose character does not continue an
/// identifier (or the end of input).
pub open spec fn spec_scan_ident_end(s: Seq<char>, k: int) -> int
    decreases s.len() - k,
{
    if k < s.len() && spec_ident_cont(s[k]) {
        spec_scan_ident_end(s, k + 1)
    } else {
        k
    }
}

/// The first index at or after `k` holding a quote or a newline (or the
/// end of input): where a string literal's body stops.
pub open spec fn spec_scan_string_end(s: Seq<char>, k: int) -> int
    decreases s.len() - k,
{
    if k < s.len() && s[k] != '\n' && s[k] != '"' {
        spec_scan_string_end(s, k + 1)
    } else {
        k
    }
}

/// The first index at or after `k` whose character is not a digit of the
/// given radix (or the end of input).
pub open spec fn spec_scan_digits_end(s: Seq<char>, k: int, radix: u32) -> int
    decreases s.len() - k,
{
    if k < s.len() && spec_to_digit(s[k], radix) is Some {
        spec_scan_digits_end(s, k + 1, radix)
    } else {
        k
    }
}

proof fn lemma_scan_digits_ge(s: Seq<char>, k: int, radix: u32)
    ensures
        spec_scan_digits_end(s, k, radix) >= k,
    decreases s.len() - k,
{
    if k < s.len() && spec_to_digit(s[k], radix) is Some {
        lemma_scan_digits_ge(s, k + 1, radix);
    }
}

proof fn lemma_scan_ident_ge(s: Seq<char>, k: int)
    ensures
        spec_scan_ident_end(s, k) >= k,
    decreases s.len() - k,
{
    if k < s.len() && spec_ident_cont(s[k]) {
        lemma_scan_ident_ge(s, k + 1);
    }
}

proof fn lemma_scan_string_ge(s: Seq<char>, k: int)
    ensures
        spec_scan_string_end(s, k) >= k,
    decreases s.len() - k,
{
    if k < s.len() && s[k] != '\n' && s[k] != '"' {
        lemma_scan_string_ge(s, k + 1);
    }
}

/// Where a relative label's name stops: its first character may be a
/// letter or underscore, the rest continue as an identifier.
pub open spec fn spec_scan_rel_end(s: Seq<char>, k: int) -> int {
    if k < s.len() && (alphabetic(s[k]) || s[k] == '_') {
        spec_scan_ident_end(s, k + 1)
    } else {
        k
    }
}

/// The state after a collecting run that scanned up to `m`: the character
/// at `m` (the terminator) is consumed too and stays current, or the end
/// was hit.
pub open spec fn spec_collect_st(st: LexSt, m: int) -> LexSt {
    if m < st.s.len() {
        LexSt { s: st.s, k: m + 1, eof: st.eof }
    } else {
        LexSt { s: st.s, k: m, eof: true }
    }
}

/// Big-endian positional accumulation of the digits at `i..m` onto `acc`,
/// with 64-bit wraparound at each step.
pub open spec fn spec_acc_digits(s: Seq<char>, i: int, m: int, radix: u32, acc: i64) -> i64
    decreases m - i,
{
    if i >= m {
        acc
    } else {
        spec_acc_digits(
            s,
            i + 1,
            m,
            radix,
            vstd::wrapping::i64_specs::wrapping_add(
                vstd::wrapping::i64_specs::wrapping_mul(acc, radix as i64),
                spec_to_digit(s[i], radix).unwrap() as i64,
            ),
        )
    }
}

/// Builds a `String` holding exactly these characters.
fn chars_to_string(v: &Vec<char>) -> (s: String)
    ensures
        s@ == v@,
{
    let mut s = String::new();
    let mut i: usize = 0;
    while i < v.len()
        invariant
            i <= v@.len(),
            s@ == v@.take(i as int),
        decreases v@.len() - i,
    {
        push_char(&mut s, v[i]);
        i = i + 1;
        proof {
            assert(v@.take(i as int) =~= v@.take(i - 1).push(v@[i - 1]));
        }
    }
    proof {
        assert(v@.take(v@.len() as int) =~= v@);
    }
    s
}

// ---------------------------------------------------------------------------
// The lexer
// ---------------------------------------------------------------------------

/// The tokenizer.  It owns a private cursor over its input; no state is
/// shared between instances.
pub struct Lexer {
    input: Vec<char>,
    idx: usize,
    cur_pos: Position,
    cur_char: char,
    eof_hit: bool,
}

impl Lexer {
    /// The mathematical state: input characters, consumed count, end flag.
    pub closed spec fn st(self) -> LexSt {
        LexSt { s: self.input@, k: self.idx as int, eof: self.eof_hit }
    }

    pub closed spec fn wf(self) -> bool {
        &&& self.idx <= self.input@.len()
        &&& (self.eof_hit ==> self.idx == self.input@.len())
        &&& (self.idx == 0 ==> self.input@.len() == 0 && self.eof_hit)
        &&& (self.idx >= 1 ==> self.cur_char == self.input@[self.idx - 1])
        &&& self.cur_pos == spec_pos_at(self.input@, self.idx - 1)
    }

    /// A fresh lexer over the given characters.
    pub fn new(input: Vec<char>) -> (l: Lexer)
        ensures
            l.wf(),
            l.st() == spec_init(input@),
    {
        if input.len() == 0 {
            Lexer {
                input,
                idx: 0,
                cur_pos: Position { line: 0, col: 0 },
                cur_char: '\0',
                eof_hit: true,
            }
        } else {
            let c = input[0];
            Lexer {
                input,
                idx: 1,
                cur_pos: Position { line: 0, col: 0 },
                cur_char: c,
                eof_hit: false,
            }
        }
    }

    fn try_next_input(&mut self) -> (r: Option<char>)
        requires
            old(self).wf(),
        ensures
            final(self).wf(),
            final(self).st() == spec_read(old(self).st()),
            r == (if old(self).st().k < old(self).st().s.len() {
                Some(old(self).st().s[old(self).st().k])
            } else {
                None::<char>
            }),
    {
        if self.idx < self.input.len() {
            let c = self.input[self.idx];
            proof {
                lemma_pos_at_bounds(self.input@, self.idx - 1);
            }
            self.cur_pos.update(c);
            self.cur_char = c;
            self.idx = self.idx + 1;
            Some(c)
        } else {
            self.eof_hit = true;
            None
        }
    }

    fn next_input(&mut self)
        requires
            old(self).wf(),
        ensures
            final(self).wf(),
            final(self).st() == spec_read(old(self).st()),
    {
        let _ = self.try_next_input();
    }

    fn skip_whitespace(&mut self)
        requires
            old(self).wf(),
        ensures
            final(self).wf(),
            final(self).st() == spec_skip_ws(old(self).st()),
    {
        while !self.eof_hit && is_whitespace_char(self.cur_char)
            invariant
                self.wf(),
                spec_skip_ws(self.st()) == spec_skip_ws(old(self).st()),
            decreases self.input@.len() - self.idx, (if self.eof_hit {
                0int
            } else {
                1int
            }),
        {
            self.next_input();
        }
    }

    fn skip_line(&mut self)
        requires
            old(self).wf(),
        ensures
            final(self).wf(),
            final(self).st() == spec_skip_line(old(self).st()),
    {
        while !self.eof_hit && self.cur_char != '\n'
            invariant
                self.wf(),
                spec_skip_line(self.st()) == spec_skip_line(old(self).st()),
            decreases self.input@.len() - self.idx, (if self.eof_hit {
                0int
            } else {
                1int
            }),
        {
            self.next_input();
        }
        self.next_input();
    }

    /// Reads characters while they continue an identifier, appending them
    /// to `buf`; the first character that does not (if any) is consumed and
    /// stays current.
    fn collect_ident_rest(&mut self, buf: &mut Vec<char>)
        requires
            old(self).wf(),
        ensures
            final(self).wf(),
            final(self).st() == spec_collect_st(
                old(self).st(),
                spec_scan_ident_end(old(self).st().s, old(self).st().k),
            ),
            final(buf)@ == old(buf)@ + old(self).st().s.subrange(
                old(self).st().k,
                spec_scan_ident_end(old(self).st().s, old(self).st().k),
            ),
    {
        let ghost k0 = self.st().k;
        let ghost m = spec_scan_ident_end(self.st().s, self.st().k);
        loop
            invariant_except_break
                self.st().eof == old(self).st().eof,
                spec_scan_ident_end(self.st().s, self.st().k) == m,
                buf@ == old(buf)@ + self.st().s.subrange(k0, self.st().k),
            invariant
                self.wf(),
                self.st().s == old(self).st().s,
                k0 == old(self).st().k,
                m == spec_scan_ident_end(old(self).st().s, old(self).st().k),
                k0 <= self.st().k <= self.st().s.len(),
            ensures
                self.wf(),
                self.st() == spec_collect_st(old(self).st(), m),
                buf@ == old(buf)@ + old(self).st().s.subrange(k0, m),
            decreases self.st().s.len() - self.st().k,
        {
            let ghost k_before = self.st().k;
            match self.try_next_input() {
                Some(c) => {
                    if is_ident_cont(c) {
                        buf.push(c);
                        proof {
                            assert(self.st().s.subrange(k0, k_before + 1)
                                =~= self.st().s.subrange(k0, k_before).push(c));
                        }
                    } else {
                        proof {
                            assert(m == k_before);
                        }
                        break;
                    }
                },
                None => {
                    proof {
                        assert(m == k_before);
                    }
                    break;
                },
            }
        }
    }

    /// Reads characters while they may sit inside a string literal (no
    /// newline, no quote), appending them to `buf`; the terminator is
    /// consumed and stays current.
    fn collect_string_rest(&mut self, buf: &mut Vec<char>)
        requires
            old(self).wf(),
        ensures
            final(self).wf(),
            final(self).st() == spec_collect_st(
                old(self).st(),
                spec_scan_string_end(old(self).st().s, old(self).st().k),
            ),
            final(buf)@ == old(buf)@ + old(self).st().s.subrange(
                old(self).st().k,
                spec_scan_string_end(old(self).st().s, old(self).st().k),
            ),
    {
        let ghost k0 = self.st().k;
        let ghost m = spec_scan_string_end(self.st().s, self.st().k);
        loop
            invariant_except_break
                self.st().eof == old(self).st().eof,
                spec_scan_string_end(self.st().s, self.st().k) == m,
                buf@ == old(buf)@ + self.st().s.subrange(k0, self.st().k),
            invariant
                self.wf(),
                self.st().s == old(self).st().s,
                k0 == old(self).st().k,
                m == spec_scan_string_end(old(self).st().s, old(self).st().k),
                k0 <= self.st().k <= self.st().s.len(),
            ensures
                self.wf(),
                self.st() == spec_collect_st(old(self).st(), m),
                buf@ == old(buf)@ + old(self).st().s.subrange(k0, m),
            decreases self.st().s.len() - self.st().k,
        {
            let ghost k_before = self.st().k;
            match self.try_next_input() {
                Some(c) => {
                    if c != '\n' && c != '"' {
                        buf.push(c);
                        proof {
                            assert(self.st().s.subrange(k0, k_before + 1)
                                =~= self.st().s.subrange(k0, k_before).push(c));
                        }
                    } else {
                        proof {
                            assert(m == k_before);
                        }
                        break;
                    }
                },
                None => {
                    proof {
                        assert(m == k_before);
                    }
                    break;
                },
            }
        }
    }

    /// Reads digits of the given radix, accumulating them positionally
    /// (with 64-bit wraparound) onto `init`; the first non-digit (if any)
    /// is consumed and stays current.
    fn collect_digits(&mut self, radix: u32, init: i64) -> (val: i64)
        requires
            old(self).wf(),
        ensures
            final(self).wf(),
            final(self).st() == spec_collect_st(
                old(self).st(),
                spec_scan_digits_end(old(self).st().s, old(self).st().k, radix),
            ),
            val == spec_acc_digits(
                old(self).st().s,
                old(self).st().k,
                spec_scan_digits_end(old(self).st().s, old(self).st().k, radix),
                radix,
                init,
            ),
    {
        let ghost k0 = self.st().k;
        let ghost m = spec_scan_digits_end(self.st().s, self.st().k, radix);
        let mut val: i64 = init;
        loop
            invariant_except_break
                self.st().eof == old(self).st().eof,
                spec_scan_digits_end(self.st().s, self.st().k, radix) == m,
                spec_acc_digits(self.st().s, k0, m, radix, init) == spec_acc_digits(
                    self.st().s,
                    self.st().k,
                    m,
                    radix,
                    val,
                ),
            invariant
                self.wf(),
                self.st().s == old(self).st().s,
                k0 == old(self).st().k,
                m == spec_scan_digits_end(old(self).st().s, old(self).st().k, radix),
                k0 <= self.st().k <= self.st().s.len(),
            ensures
                self.wf(),
                self.st() == spec_collect_st(old(self).st(), m),
                val == spec_acc_digits(old(self).st().s, k0, m, radix, init),
            decreases self.st().s.len() - self.st().k,
        {
            let ghost k_before = self.st().k;
            match self.try_next_input() {
                Some(c) => {
                    match to_digit(c, radix) {
                        Some(d) => {
                            proof {
                                lemma_scan_digits_ge(self.st().s, k_before + 1, radix);
                                assert(k_before < m);
                            }
                            val = val.wrapping_mul(radix as i64).wrapping_add(d as i64);
                        },
                        None => {
                            proof {
                                assert(m == k_before);
                            }
                            break;
                        },
                    }
                },
                None => {
                    proof {
                        assert(m == k_before);
                    }
                    break;
                },
            }
        }
        val
    }
}

// ---------------------------------------------------------------------------
// One token: the transition each token kind performs
// ---------------------------------------------------------------------------

/// The sign applied to an accumulated magnitude, with 64-bit wraparound.
pub open spec fn spec_signed(neg: bool, v: i64) -> i64 {
    if neg {
        vstd::wrapping::i64_specs::wrapping_mul(v, -1i64)
    } else {
        v
    }
}

/// A string literal: the current character is the opening quote.  The body
/// runs to the closing quote; a newline or the end of input before it is
/// an error.
pub open spec fn spec_string_lit(st: LexSt) -> (LexOut, LexSt) {
    let start = spec_cur_pos(st);
    let m = spec_scan_string_end(st.s, st.k);
    let chars = st.s.subrange(st.k, m);
    let st2 = spec_collect_st(st, m);
    let end_char = spec_cur(st2);
    let st3 = spec_read(st2);
    if end_char == '"' {
        (LexOut::Token(TokenModel::StringLiteral(chars), start), st3)
    } else if end_char == '\n' {
        (LexOut::Error(Error::UnexpectedNewline, spec_cur_pos(st3)), st3)
    } else if st3.eof {
        (LexOut::Error(Error::MissingCharacter('"'), spec_cur_pos(st3)), st3)
    } else {
        (LexOut::Error(Error::WrongCharacter(end_char, '"'), spec_cur_pos(st3)), st3)
    }
}

/// A relative label: the current character is the leading dot.  The name
/// must be followed by a colon.
pub open spec fn spec_rel_label(st: LexSt) -> (LexOut, LexSt) {
    let start = spec_cur_pos(st);
    let m = spec_scan_rel_end(st.s, st.k);
    let chars = st.s.subrange(st.k, m);
    let st2 = spec_collect_st(st, m);
    if spec_cur(st2) == ':' {
        (LexOut::Token(TokenModel::RelativeLabel(chars), start), spec_read(st2))
    } else {
        (LexOut::Error(Error::WrongCharacter(spec_cur(st2), ':'), spec_cur_pos(st2)), st2)
    }
}

/// An identifier: the current character is alphabetic.  Keywords win over
/// labels; a trailing colon turns the identifier into an absolute label
/// declaration; anything else is a label reference.
pub open spec fn spec_ident(st: LexSt) -> (LexOut, LexSt) {
    let start = spec_cur_pos(st);
    let first = spec_cur(st);
    let m = spec_scan_ident_end(st.s, st.k);
    let chars = seq![first] + st.s.subrange(st.k, m);
    let st2 = spec_collect_st(st, m);
    if spec_keyword_directive(chars) is Some {
        (LexOut::Token(TokenModel::Directive(spec_keyword_directive(chars).unwrap()), start), st2)
    } else if spec_keyword_instr(chars) is Some {
        (LexOut::Token(TokenModel::Instruction(spec_keyword_instr(chars).unwrap()), start), st2)
    } else if spec_keyword_unit(chars) is Some {
        (LexOut::Token(TokenModel::Unit(spec_keyword_unit(chars).unwrap()), start), st2)
    } else if spec_cur(st2) == ':' {
        (LexOut::Token(TokenModel::AbsoluteLabel(chars), start), spec_read(st2))
    } else {
        (LexOut::Token(TokenModel::LabelReference(chars), start), st2)
    }
}

/// An integer literal: the current character is a decimal digit or a sign.
/// After an optional sign comes either a `0x`/`0o`/`0b` radix run or a
/// decimal run; the digits accumulate positionally with 64-bit wraparound,
/// and a leading `-` negates the result.
pub open spec fn spec_int_lit(st: LexSt) -> (LexOut, LexSt) {
    let start = spec_cur_pos(st);
    let c0 = spec_cur(st);
    let neg = c0 == '-';
    if (c0 == '+' || c0 == '-') && st.k >= st.s.len() {
        (LexOut::Error(Error::UnexpectedEof, start), spec_read(st))
    } else {
        let st1 = if c0 == '+' || c0 == '-' {
            spec_read(st)
        } else {
            st
        };
        let c1 = spec_cur(st1);
        if spec_to_digit(c1, 10) is None {
            (LexOut::Error(Error::NotADigit, start), st1)
        } else {
            let d1 = spec_to_digit(c1, 10).unwrap();
            if st1.k >= st1.s.len() {
                (
                    LexOut::Token(TokenModel::IntLiteral(spec_signed(neg, d1 as i64)), start),
                    spec_read(st1),
                )
            } else {
                let c2 = st1.s[st1.k];
                let st2 = spec_read(st1);
                if c1 == '0' && (c2 == 'x' || c2 == 'o' || c2 == 'b') {
                    let radix: u32 = if c2 == 'x' {
                        16
                    } else if c2 == 'o' {
                        8
                    } else {
                        2
                    };
                    let m = spec_scan_digits_end(st2.s, st2.k, radix);
                    let val = spec_acc_digits(st2.s, st2.k, m, radix, 0);
                    (
                        LexOut::Token(TokenModel::IntLiteral(spec_signed(neg, val)), start),
                        spec_collect_st(st2, m),
                    )
                } else if c2 == 'x' || c2 == 'o' || c2 == 'b' {
                    (LexOut::Error(Error::WrongCharacter(c1, '0'), spec_cur_pos(st2)), st2)
                } else if spec_to_digit(c2, 10) is Some {
                    let d2 = spec_to_digit(c2, 10).unwrap();
                    let m = spec_scan_digits_end(st2.s, st2.k, 10);
                    let val = spec_acc_digits(st2.s, st2.k, m, 10, (d1 * 10 + d2) as i64);
                    (
                        LexOut::Token(TokenModel::IntLiteral(spec_signed(neg, val)), start),
                        spec_collect_st(st2, m),
                    )
                } else {
                    (LexOut::Token(TokenModel::IntLiteral(spec_signed(neg, d1 as i64)), start), st2)
                }
            }
        }
    }
}

/// One token from a state whose current character is available: the
/// dispatch on that character.
pub open spec fn spec_next_token(st: LexSt) -> (LexOut, LexSt) {
    let c = spec_cur(st);
    let start = spec_cur_pos(st);
    if c == '@' {
        (LexOut::Token(TokenModel::At, start), spec_read(st))
    } else if c == ',' {
        (LexOut::Token(TokenModel::Comma, start), spec_read(st))
    } else if c == '"' {
        spec_string_lit(st)
    } else if c == '.' {
        spec_rel_label(st)
    } else if spec_to_digit(c, 10) is Some || c == '-' || c == '+' {
        spec_int_lit(st)
    } else if alphabetic(c) {
        spec_ident(st)
    } else {
        (LexOut::Error(Error::InvalidCharacter, start), st)
    }
}

proof fn lemma_skip_ws_progress(st: LexSt)
    ensures
        spec_skip_ws(st).s == st.s,
        st.k <= spec_skip_ws(st).k,
        st.k <= st.s.len() ==> spec_skip_ws(st).k <= st.s.len(),
        spec_skip_ws(st).k <= st.s.len() || spec_skip_ws(st).k == st.k,
        st.eof ==> spec_skip_ws(st) == st,
    decreases st.s.len() - st.k, (if st.eof {
        0int
    } else {
        1int
    }),
{
    if !st.eof && st.k >= 1 && spec_is_whitespace(st.s[st.k - 1]) {
        lemma_skip_ws_progress(spec_read(st));
    }
}

proof fn lemma_skip_line_progress(st: LexSt)
    ensures
        spec_skip_line(st).s == st.s,
        st.k <= spec_skip_line(st).k,
        st.k <= st.s.len() ==> spec_skip_line(st).k <= st.s.len(),
        spec_skip_line(st).k <= st.s.len() || spec_skip_line(st).k == st.k,
        spec_skip_line(st).k == st.k ==> spec_skip_line(st).eof,
    decreases st.s.len() - st.k, (if st.eof {
        0int
    } else {
        1int
    }),
{
    if !st.eof && st.k >= 1 && st.s[st.k - 1] != '\n' {
        lemma_skip_line_progress(spec_read(st));
    }
}

/// One element of the token stream, from any state: skip whitespace, skip
/// whole comment lines, then read one token; after an error, discard the
/// rest of the line.  `None` means the input is exhausted.
pub open spec fn spec_lex_next(st: LexSt) -> (Option<LexOut>, LexSt)
    decreases st.s.len() - st.k, (if st.eof {
        0int
    } else {
        1int
    }),
    via spec_lex_next_decreases
{
    let st1 = spec_skip_ws(st);
    if st1.eof {
        (None, st1)
    } else if spec_cur(st1) == ';' {
        spec_lex_next(spec_skip_line(st1))
    } else {
        let r = spec_next_token(st1);
        match r.0 {
            LexOut::Error(_, _) => (Some(r.0), spec_skip_line(r.1)),
            _ => (Some(r.0), r.1),
        }
    }
}

#[via_fn]
proof fn spec_lex_next_decreases(st: LexSt) {
    lemma_skip_ws_progress(st);
    let st1 = spec_skip_ws(st);
    if !st1.eof && spec_cur(st1) == ';' {
        lemma_skip_line_progress(st1);
    }
}

impl Lexer {
    fn parse_string_literal(&mut self) -> (res: LexResult)
        requires
            old(self).wf(),
            !old(self).st().eof,
        ensures
            final(self).wf(),
            res.model() == spec_string_lit(old(self).st()).0,
            final(self).st() == spec_string_lit(old(self).st()).1,
    {
        proof {
            lemma_scan_string_ge(self.st().s, self.st().k);
        }
        let start = self.cur_pos;
        let mut buf: Vec<char> = Vec::new();
        self.collect_string_rest(&mut buf);
        let end_char = self.cur_char;
        self.next_input();
        if end_char == '"' {
            LexResult::token(start, Token::StringLiteral(chars_to_string(&buf)))
        } else if end_char == '\n' {
            LexResult::error(self.cur_pos, Error::UnexpectedNewline)
        } else if self.eof_hit {
            LexResult::error(self.cur_pos, Error::MissingCharacter('"'))
        } else {
            LexResult::error(self.cur_pos, Error::WrongCharacter(end_char, '"'))
        }
    }

    fn parse_relative_label(&mut self) -> (res: LexResult)
        requires
            old(self).wf(),
            !old(self).st().eof,
        ensures
            final(self).wf(),
            res.model() == spec_rel_label(old(self).st()).0,
            final(self).st() == spec_rel_label(old(self).st()).1,
    {
        proof {
            lemma_scan_ident_ge(self.st().s, self.st().k + 1);
        }
        let start = self.cur_pos;
        let mut buf: Vec<char> = Vec::new();
        match self.try_next_input() {
            Some(c) => {
                if is_alphabetic_char(c) || c == '_' {
                    buf.push(c);
                    self.collect_ident_rest(&mut buf);
                }
            },
            None => {},
        }
        proof {
            assert(buf@ =~= old(self).st().s.subrange(
                old(self).st().k,
                spec_scan_rel_end(old(self).st().s, old(self).st().k),
            ));
            assert(self.st() == spec_collect_st(
                old(self).st(),
                spec_scan_rel_end(old(self).st().s, old(self).st().k),
            ));
        }
        if self.cur_char == ':' {
            self.next_input();
            LexResult::token(start, Token::RelativeLabel(chars_to_string(&buf)))
        } else {
            LexResult::error(self.cur_pos, Error::WrongCharacter(self.cur_char, ':'))
        }
    }

    fn parse_int_literal(&mut self) -> (res: LexResult)
        requires
            old(self).wf(),
            !old(self).st().eof,
        ensures
            final(self).wf(),
            res.model() == spec_int_lit(old(self).st()).0,
            final(self).st() == spec_int_lit(old(self).st()).1,
    {
        let start = self.cur_pos;
        let c0 = self.cur_char;
        let negative = c0 == '-';
        let has_sign = c0 == '-' || c0 == '+';
        let c1: char;
        if has_sign {
            match self.try_next_input() {
                Some(c) => {
                    c1 = c;
                },
                None => {
                    return LexResult::error(start, Error::UnexpectedEof);
                },
            }
        } else {
            c1 = c0;
        }
        let d1 = match to_digit(c1, 10) {
            Some(d) => d,
            None => {
                return LexResult::error(start, Error::NotADigit);
            },
        };
        match self.try_next_input() {
            None => {
                let v = d1 as i64;
                let val = if negative {
                    v.wrapping_mul(-1)
                } else {
                    v
                };
                LexResult::token(start, Token::IntLiteral(val))
            },
            Some(c2) => {
                if c1 == '0' && (c2 == 'x' || c2 == 'o' || c2 == 'b') {
                    let radix: u32 = if c2 == 'x' {
                        16
                    } else if c2 == 'o' {
                        8
                    } else {
                        2
                    };
                    let v = self.collect_digits(radix, 0);
                    let val = if negative {
                        v.wrapping_mul(-1)
                    } else {
                        v
                    };
                    LexResult::token(start, Token::IntLiteral(val))
                } else if c2 == 'x' || c2 == 'o' || c2 == 'b' {
                    LexResult::error(self.cur_pos, Error::WrongCharacter(c1, '0'))
                } else {
                    match to_digit(c2, 10) {
                        Some(d2) => {
                            let v = self.collect_digits(10, (d1 * 10 + d2) as i64);
                            let val = if negative {
                                v.wrapping_mul(-1)
                            } else {
                                v
                            };
                            LexResult::token(start, Token::IntLiteral(val))
                        },
                        None => {
                            let v = d1 as i64;
                            let val = if negative {
                                v.wrapping_mul(-1)
                            } else {
                                v
                            };
                            LexResult::token(start, Token::IntLiteral(val))
                        },
                    }
                }
            },
        }
    }

    fn next_token(&mut self) -> (res: LexResult)
        requires
            old(self).wf(),
            !old(self).st().eof,
        ensures
            final(self).wf(),
            res.model() == spec_next_token(old(self).st()).0,
            final(self).st() == spec_next_token(old(self).st()).1,
    {
        let c = self.cur_char;
        let cur_pos = self.cur_pos;
        if c == '@' {
            self.next_input();
            LexResult::token(cur_pos, Token::At)
        } else if c == ',' {
            self.next_input();
            LexResult::token(cur_pos, Token::Comma)
        } else if c == '"' {
            self.parse_string_literal()
        } else if c == '.' {
            self.parse_relative_label()
        } else if to_digit(c, 10).is_some() || c == '-' || c == '+' {
            self.parse_int_literal()
        } else if is_alphabetic_char(c) {
            proof {
                lemma_scan_ident_ge(self.st().s, self.st().k);
            }
            let mut buf: Vec<char> = Vec::new();
            buf.push(c);
            self.collect_ident_rest(&mut buf);
            proof {
                assert(buf@ =~= seq![c] + old(self).st().s.subrange(
                    old(self).st().k,
                    spec_scan_ident_end(old(self).st().s, old(self).st().k),
                ));
            }
            if let Some(dir) = Directive::from_ident(&buf) {
                LexResult::token(cur_pos, Token::Directive(dir))
            } else if let Some(ins) = Instruction::from_ident(&buf) {
                LexResult::token(cur_pos, Token::Instruction(ins))
            } else if let Some(u) = Unit::from_ident(&buf) {
                LexResult::token(cur_pos, Token::Unit(u))
            } else if self.cur_char == ':' {
                self.next_input();
                LexResult::token(cur_pos, Token::AbsoluteLabel(chars_to_string(&buf)))
            } else {
                LexResult::token(cur_pos, Token::LabelReference(chars_to_string(&buf)))
            }
        } else {
            LexResult::error(cur_pos, Error::InvalidCharacter)
        }
    }

    /// Produces the next token or positioned error, skipping whitespace and
    /// comment lines; `None` when the input is exhausted.  After an error
    /// the rest of the offending line is discarded, so the stream continues
    /// with the next line.
    pub fn next(&mut self) -> (r: Option<LexResult>)
        requires
            old(self).wf(),
        ensures
            final(self).wf(),
            final(self).st() == spec_lex_next(old(self).st()).1,
            match r {
                None => spec_lex_next(old(self).st()).0 is None,
                Some(res) => spec_lex_next(old(self).st()).0 == Some(res.model()),
            },
    {
        loop
            invariant
                self.wf(),
                spec_lex_next(self.st()) == spec_lex_next(old(self).st()),
            decreases self.input@.len() - self.idx, (if self.eof_hit {
                0int
            } else {
                1int
            }),
        {
            let ghost st_top = self.st();
            self.skip_whitespace();
            if self.eof_hit {
                return None;
            }
            if self.cur_char != ';' {
                let res = self.next_token();
                let is_err = match &res {
                    LexResult::Error(_) => true,
                    LexResult::Success(_) => false,
                };
                if is_err {
                    self.skip_line();
                }
                return Some(res);
            }
            self.skip_line();
            proof {
                lemma_skip_ws_progress(st_top);
                lemma_skip_line_progress(spec_skip_ws(st_top));
            }
        }
    }
}

} // verus!

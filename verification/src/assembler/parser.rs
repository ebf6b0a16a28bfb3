//! The syntax-tree builder over the token stream.  It handles label
//! declarations and the two data directives; an instruction token (or any
//! other token) is reported as unexpected.

use vstd::prelude::*;

use super::ast;
use super::ast::AstNode;
use super::ast::Label;
use super::lexer::{FatToken, Position, Token, TokenModel};

verus! {

broadcast use vstd::std_specs::vec::axiom_spec_len;

/// Why building one node failed.
#[derive(Debug, PartialEq, Eq)]
pub enum Error {
    UnexpectedEof(Position),
    UnexpectedToken(FatToken),
    ExpectedStringLiteral(FatToken),
    ExpectedIntLiteral(FatToken),
    NegativeInteger(FatToken),
    IntegerNotU8(FatToken),
}

// ---------------------------------------------------------------------------
// The ghost model
// ---------------------------------------------------------------------------

/// The mathematical value of a produced node.
pub enum AstNodeModel {
    Instruction,
    AbsoluteLabel(Seq<char>),
    RelativeLabel(Seq<char>),
    DeclareBytes(usize, Option<u8>),
    DeclareString(Seq<char>),
}

/// The mathematical value of an [`Error`]: token payloads as their models.
pub enum ErrorModel {
    UnexpectedEof(Position),
    UnexpectedToken(TokenModel, Position),
    ExpectedStringLiteral(TokenModel, Position),
    ExpectedIntLiteral(TokenModel, Position),
    NegativeInteger(TokenModel, Position),
    IntegerNotU8(TokenModel, Position),
}

pub open spec fn node_model(n: AstNode) -> AstNodeModel {
    match n {
        AstNode::Instruction(_) => AstNodeModel::Instruction,
        AstNode::LabelDeclaration(Label::Absolute(s)) => AstNodeModel::AbsoluteLabel(s@),
        AstNode::LabelDeclaration(Label::Relative(s)) => AstNodeModel::RelativeLabel(s@),
        AstNode::Directive(ast::Directive::DeclareBytes(n, v)) => AstNodeModel::DeclareBytes(n, v),
        AstNode::Directive(ast::Directive::DeclareString(s)) => AstNodeModel::DeclareString(s@),
    }
}

pub open spec fn error_model(e: Error) -> ErrorModel {
    match e {
        Error::UnexpectedEof(p) => ErrorModel::UnexpectedEof(p),
        Error::UnexpectedToken(t) => ErrorModel::UnexpectedToken(t.token.model(), t.pos),
        Error::ExpectedStringLiteral(t) => ErrorModel::ExpectedStringLiteral(
            t.token.model(),
            t.pos,
        ),
        Error::ExpectedIntLiteral(t) => ErrorModel::ExpectedIntLiteral(t.token.model(), t.pos),
        Error::NegativeInteger(t) => ErrorModel::NegativeInteger(t.token.model(), t.pos),
        Error::IntegerNotU8(t) => ErrorModel::IntegerNotU8(t.token.model(), t.pos),
    }
}

pub open spec fn res_model(r: Result<AstNode, Error>) -> Result<AstNodeModel, ErrorModel> {
    match r {
        Ok(n) => Ok(node_model(n)),
        Err(e) => Err(error_model(e)),
    }
}

// ---------------------------------------------------------------------------
// One node: what the builder reads and returns at a token position
// ---------------------------------------------------------------------------

/// Reading one integer literal at position `i`; `prev` positions the
/// end-of-input error.
pub open spec fn spec_parse_int(toks: Seq<FatToken>, i: int, prev: Position) -> (
    Result<i64, ErrorModel>,
    int,
) {
    if i >= toks.len() {
        (Err(ErrorModel::UnexpectedEof(prev)), toks.len() as int)
    } else {
        match toks[i].token.model() {
            TokenModel::IntLiteral(v) => (Ok(v), i + 1),
            m => (Err(ErrorModel::ExpectedIntLiteral(m, toks[i].pos)), i + 1),
        }
    }
}

/// Reading one non-negative integer; an oversized value is truncated to
/// the machine word, as the plain cast does.
pub open spec fn spec_parse_usize(toks: Seq<FatToken>, i: int, prev: Position) -> (
    Result<usize, ErrorModel>,
    int,
) {
    let r = spec_parse_int(toks, i, prev);
    match r.0 {
        Err(e) => (Err(e), r.1),
        Ok(v) => if v >= 0 {
            (Ok(v as usize), r.1)
        } else {
            (Err(ErrorModel::NegativeInteger(toks[i].token.model(), toks[i].pos)), r.1)
        },
    }
}

/// Reading one integer that must fit in a byte.
pub open spec fn spec_parse_u8(toks: Seq<FatToken>, i: int, prev: Position) -> (
    Result<u8, ErrorModel>,
    int,
) {
    let r = spec_parse_int(toks, i, prev);
    match r.0 {
        Err(e) => (Err(e), r.1),
        Ok(v) => if 0 <= v && v <= 255 {
            (Ok(v as u8), r.1)
        } else {
            (Err(ErrorModel::IntegerNotU8(toks[i].token.model(), toks[i].pos)), r.1)
        },
    }
}

/// Reading one string literal.
pub open spec fn spec_parse_string(toks: Seq<FatToken>, i: int, prev: Position) -> (
    Result<Seq<char>, ErrorModel>,
    int,
) {
    if i >= toks.len() {
        (Err(ErrorModel::UnexpectedEof(prev)), toks.len() as int)
    } else {
        match toks[i].token.model() {
            TokenModel::StringLiteral(s) => (Ok(s), i + 1),
            m => (Err(ErrorModel::ExpectedStringLiteral(m, toks[i].pos)), i + 1),
        }
    }
}

/// Reading one directive with its operands; `i` is the directive token's
/// position.  `db` takes a count and an optional fill byte (a second
/// operand that does not fit is simply dropped); `ds` takes a string.
pub open spec fn spec_parse_directive(toks: Seq<FatToken>, i: int) -> (
    Result<AstNodeModel, ErrorModel>,
    int,
) {
    match toks[i].token.model() {
        TokenModel::Directive(super::lexer::Directive::Db) => {
            let r = spec_parse_usize(toks, i + 1, toks[i].pos);
            match r.0 {
                Err(e) => (Err(e), r.1),
                Ok(num) => {
                    let r2 = spec_parse_u8(toks, r.1, toks[i].pos);
                    match r2.0 {
                        Ok(v) => (Ok(AstNodeModel::DeclareBytes(num, Some(v))), r2.1),
                        Err(_) => (Ok(AstNodeModel::DeclareBytes(num, None)), r2.1),
                    }
                },
            }
        },
        TokenModel::Directive(super::lexer::Directive::Ds) => {
            let r = spec_parse_string(toks, i + 1, toks[i].pos);
            match r.0 {
                Err(e) => (Err(e), r.1),
                Ok(s) => (Ok(AstNodeModel::DeclareString(s)), r.1),
            }
        },
        m => (Err(ErrorModel::UnexpectedToken(m, toks[i].pos)), i + 1),
    }
}

/// Building one node starting at token `i`: a label declaration, a
/// directive, or an unexpected-token error; the second component is the
/// position of the first unread token afterwards.
pub open spec fn spec_parse_step(toks: Seq<FatToken>, i: int) -> (
    Result<AstNodeModel, ErrorModel>,
    int,
) {
    match toks[i].token.model() {
        TokenModel::AbsoluteLabel(s) => (Ok(AstNodeModel::AbsoluteLabel(s)), i + 1),
        TokenModel::RelativeLabel(s) => (Ok(AstNodeModel::RelativeLabel(s)), i + 1),
        TokenModel::Directive(_) => spec_parse_directive(toks, i),
        m => (Err(ErrorModel::UnexpectedToken(m, toks[i].pos)), i + 1),
    }
}

// ---------------------------------------------------------------------------
// Executable builder
// ---------------------------------------------------------------------------

fn clone_string(s: &String) -> (r: String)
    ensures
        r@ == s@,
{
    s.clone()
}

fn clone_fat_token(t: &FatToken) -> (r: FatToken)
    ensures
        r.token.model() == t.token.model(),
        r.pos == t.pos,
{
    let token = match &t.token {
        Token::Instruction(i) => Token::Instruction(*i),
        Token::Directive(d) => Token::Directive(*d),
        Token::Unit(u) => Token::Unit(*u),
        Token::At => Token::At,
        Token::Comma => Token::Comma,
        Token::AbsoluteLabel(s) => Token::AbsoluteLabel(clone_string(s)),
        Token::RelativeLabel(s) => Token::RelativeLabel(clone_string(s)),
        Token::IntLiteral(v) => Token::IntLiteral(*v),
        Token::StringLiteral(s) => Token::StringLiteral(clone_string(s)),
        Token::LabelReference(s) => Token::LabelReference(clone_string(s)),
    };
    FatToken { token, pos: t.pos }
}

/// The tree builder.  It owns a private cursor over the token stream; each
/// call to [`Parser::next`] builds one node.
pub struct Parser {
    input: Vec<FatToken>,
    idx: usize,
}

/// Builds a tree builder over the tokens, or nothing when there are none.
pub fn parse(tokens: Vec<FatToken>) -> (r: Option<Parser>)
    ensures
        tokens@.len() == 0 ==> r is None,
        tokens@.len() > 0 ==> match r {
            Some(p) => p.wf() && p.toks() == tokens@ && p.at() == 0,
            None => false,
        },
{
    if tokens.len() == 0 {
        None
    } else {
        Some(Parser { input: tokens, idx: 0 })
    }
}

impl Parser {
    /// The token stream being read.
    pub closed spec fn toks(self) -> Seq<FatToken> {
        self.input@
    }

    /// The position of the first unread token.
    pub closed spec fn at(self) -> int {
        self.idx as int
    }

    pub open spec fn wf(self) -> bool {
        0 <= self.at() <= self.toks().len()
    }

    fn parse_int_literal(&mut self, prev: Position) -> (r: Result<i64, Error>)
        requires
            old(self).wf(),
        ensures
            final(self).wf(),
            final(self).toks() == old(self).toks(),
            match r {
                Ok(v) => spec_parse_int(old(self).toks(), old(self).at(), prev).0 == Ok::<
                    i64,
                    ErrorModel,
                >(v),
                Err(e) => spec_parse_int(old(self).toks(), old(self).at(), prev).0 == Err::<
                    i64,
                    ErrorModel,
                >(error_model(e)),
            },
            final(self).at() == spec_parse_int(old(self).toks(), old(self).at(), prev).1,
    {
        if self.idx >= self.input.len() {
            self.idx = self.input.len();
            Err(Error::UnexpectedEof(prev))
        } else {
            match &self.input[self.idx].token {
                Token::IntLiteral(v) => {
                    let v = *v;
                    self.idx = self.idx + 1;
                    Ok(v)
                },
                _ => {
                    let t = clone_fat_token(&self.input[self.idx]);
                    self.idx = self.idx + 1;
                    Err(Error::ExpectedIntLiteral(t))
                },
            }
        }
    }

    fn parse_usize(&mut self, prev: Position) -> (r: Result<usize, Error>)
        requires
            old(self).wf(),
        ensures
            final(self).wf(),
            final(self).toks() == old(self).toks(),
            match r {
                Ok(v) => spec_parse_usize(old(self).toks(), old(self).at(), prev).0 == Ok::<
                    usize,
                    ErrorModel,
                >(v),
                Err(e) => spec_parse_usize(old(self).toks(), old(self).at(), prev).0 == Err::<
                    usize,
                    ErrorModel,
                >(error_model(e)),
            },
            final(self).at() == spec_parse_usize(old(self).toks(), old(self).at(), prev).1,
    {
        let ghost i = self.at();
        match self.parse_int_literal(prev) {
            Err(e) => Err(e),
            Ok(v) => {
                if v >= 0 {
                    let num: usize = #[verifier::truncate] (v as usize);
                    Ok(num)
                } else {
                    let t = clone_fat_token(&self.input[self.idx - 1]);
                    proof {
                        assert(old(self).toks()[i] == self.toks()[self.at() - 1]);
                    }
                    Err(Error::NegativeInteger(t))
                }
            },
        }
    }

    fn parse_u8(&mut self, prev: Position) -> (r: Result<u8, Error>)
        requires
            old(self).wf(),
        ensures
            final(self).wf(),
            final(self).toks() == old(self).toks(),
            match r {
                Ok(v) => spec_parse_u8(old(self).toks(), old(self).at(), prev).0 == Ok::<
                    u8,
                    ErrorModel,
                >(v),
                Err(e) => spec_parse_u8(old(self).toks(), old(self).at(), prev).0 == Err::<
                    u8,
                    ErrorModel,
                >(error_model(e)),
            },
            final(self).at() == spec_parse_u8(old(self).toks(), old(self).at(), prev).1,
    {
        let ghost i = self.at();
        match self.parse_int_literal(prev) {
            Err(e) => Err(e),
            Ok(v) => {
                if 0 <= v && v <= 255 {
                    Ok(v as u8)
                } else {
                    let t = clone_fat_token(&self.input[self.idx - 1]);
                    proof {
                        assert(old(self).toks()[i] == self.toks()[self.at() - 1]);
                    }
                    Err(Error::IntegerNotU8(t))
                }
            },
        }
    }

    fn parse_string_literal(&mut self, prev: Position) -> (r: Result<String, Error>)
        requires
            old(self).wf(),
        ensures
            final(self).wf(),
            final(self).toks() == old(self).toks(),
            match r {
                Ok(s) => spec_parse_string(old(self).toks(), old(self).at(), prev).0 == Ok::<
                    Seq<char>,
                    ErrorModel,
                >(s@),
                Err(e) => spec_parse_string(old(self).toks(), old(self).at(), prev).0 == Err::<
                    Seq<char>,
                    ErrorModel,
                >(error_model(e)),
            },
            final(self).at() == spec_parse_string(old(self).toks(), old(self).at(), prev).1,
    {
        if self.idx >= self.input.len() {
            self.idx = self.input.len();
            Err(Error::UnexpectedEof(prev))
        } else {
            match &self.input[self.idx].token {
                Token::StringLiteral(s) => {
                    let s = clone_string(s);
                    self.idx = self.idx + 1;
                    Ok(s)
                },
                _ => {
                    let t = clone_fat_token(&self.input[self.idx]);
                    self.idx = self.idx + 1;
                    Err(Error::ExpectedStringLiteral(t))
                },
            }
        }
    }

    fn parse_directive(&mut self) -> (r: Result<AstNode, Error>)
        requires
            old(self).wf(),
            old(self).at() < old(self).toks().len(),
        ensures
            final(self).wf(),
            final(self).toks() == old(self).toks(),
            res_model(r) == spec_parse_directive(old(self).toks(), old(self).at()).0,
            final(self).at() == spec_parse_directive(old(self).toks(), old(self).at()).1,
    {
        proof {
            assert(self.input.len() == self.input@.len());
        }
        let dir_pos = self.input[self.idx].pos;
        match &self.input[self.idx].token {
            Token::Directive(d) => {
                let d = *d;
                self.idx = self.idx + 1;
                match d {
                    super::lexer::Directive::Db => {
                        let num = match self.parse_usize(dir_pos) {
                            Ok(n) => n,
                            Err(e) => {
                                return Err(e);
                            },
                        };
                        let val = match self.parse_u8(dir_pos) {
                            Ok(v) => Some(v),
                            Err(_) => None,
                        };
                        Ok(AstNode::Directive(ast::Directive::DeclareBytes(num, val)))
                    },
                    super::lexer::Directive::Ds => {
                        match self.parse_string_literal(dir_pos) {
                            Ok(s) => Ok(AstNode::Directive(ast::Directive::DeclareString(s))),
                            Err(e) => Err(e),
                        }
                    },
                }
            },
            _ => {
                let t = clone_fat_token(&self.input[self.idx]);
                self.idx = self.idx + 1;
                Err(Error::UnexpectedToken(t))
            },
        }
    }

    fn next_node(&mut self) -> (r: Result<AstNode, Error>)
        requires
            old(self).wf(),
            old(self).at() < old(self).toks().len(),
        ensures
            final(self).wf(),
            final(self).toks() == old(self).toks(),
            res_model(r) == spec_parse_step(old(self).toks(), old(self).at()).0,
            final(self).at() == spec_parse_step(old(self).toks(), old(self).at()).1,
    {
        proof {
            assert(self.input.len() == self.input@.len());
        }
        match &self.input[self.idx].token {
            Token::AbsoluteLabel(s) => {
                let s = clone_string(s);
                self.idx = self.idx + 1;
                Ok(AstNode::LabelDeclaration(Label::Absolute(s)))
            },
            Token::RelativeLabel(s) => {
                let s = clone_string(s);
                self.idx = self.idx + 1;
                Ok(AstNode::LabelDeclaration(Label::Relative(s)))
            },
            Token::Directive(_) => self.parse_directive(),
            _ => {
                let t = clone_fat_token(&self.input[self.idx]);
                self.idx = self.idx + 1;
                Err(Error::UnexpectedToken(t))
            },
        }
    }

    /// Builds the next node, or `None` when every token has been read.
    /// Errors are elements of the stream too: building continues behind
    /// them.
    pub fn next(&mut self) -> (r: Option<Result<AstNode, Error>>)
        requires
            old(self).wf(),
        ensures
            final(self).wf(),
            final(self).toks() == old(self).toks(),
            old(self).at() >= old(self).toks().len() ==> r is None && *final(self) == *old(self),
            old(self).at() < old(self).toks().len() ==> match r {
                Some(res) => res_model(res) == spec_parse_step(old(self).toks(), old(self).at()).0
                    && final(self).at() == spec_parse_step(old(self).toks(), old(self).at()).1,
                None => false,
            },
    {
        if self.idx >= self.input.len() {
            None
        } else {
            Some(self.next_node())
        }
    }
}

} // verus!

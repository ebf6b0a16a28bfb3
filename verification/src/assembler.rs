//! The assembler frontend: the tokenizer, the syntax-tree builder and the
//! tree node types they share.

use vstd::prelude::*;

pub mod ast;
pub mod lexer;
pub mod parser;

verus! {

/// Builds the tokenizer over the source characters.  The lexer is itself
/// the token stream: each call to [`lexer::Lexer::next`] produces one
/// result.
pub fn parse(code: Vec<char>) -> (l: lexer::Lexer)
    ensures
        l.wf(),
        l.st() == lexer::spec_init(code@),
{
    lexer::Lexer::new(code)
}

} // verus!

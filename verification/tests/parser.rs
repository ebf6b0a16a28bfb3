use empu::assembler::ast::{AstNode, Directive as AstDirective, Label};
use empu::assembler::lexer::{Directive, FatToken, Instruction, Position, Token};
use empu::assembler::parser::{parse, Error, Parser};

fn ft(token: Token) -> FatToken {
    FatToken {
        token,
        pos: Position { line: 0, col: 0 },
    }
}

fn collect_nodes(p: &mut Parser) -> Vec<Result<AstNode, Error>> {
    let mut out = Vec::new();
    while let Some(r) = p.next() {
        out.push(r);
    }
    out
}

#[test]
fn empty_token_stream_gives_no_parser() {
    assert!(parse(Vec::new()).is_none());
}

#[test]
fn labels_become_declarations() {
    let mut p = parse(vec![
        ft(Token::AbsoluteLabel(String::from("main"))),
        ft(Token::RelativeLabel(String::from("loop_top"))),
    ])
    .unwrap();
    let nodes = collect_nodes(&mut p);
    assert_eq!(nodes.len(), 2);
    assert_eq!(
        *nodes[0].as_ref().unwrap(),
        AstNode::LabelDeclaration(Label::Absolute(String::from("main")))
    );
    assert_eq!(
        *nodes[1].as_ref().unwrap(),
        AstNode::LabelDeclaration(Label::Relative(String::from("loop_top")))
    );
}

#[test]
fn db_takes_a_count_and_an_optional_fill() {
    let mut p = parse(vec![
        ft(Token::Directive(Directive::Db)),
        ft(Token::IntLiteral(4)),
        ft(Token::IntLiteral(7)),
    ])
    .unwrap();
    let nodes = collect_nodes(&mut p);
    assert_eq!(nodes.len(), 1);
    assert_eq!(
        *nodes[0].as_ref().unwrap(),
        AstNode::Directive(AstDirective::DeclareBytes(4, Some(7)))
    );
}

#[test]
fn db_fill_out_of_byte_range_is_dropped() {
    let mut p = parse(vec![
        ft(Token::Directive(Directive::Db)),
        ft(Token::IntLiteral(4)),
        ft(Token::IntLiteral(300)),
    ])
    .unwrap();
    let nodes = collect_nodes(&mut p);
    assert_eq!(nodes.len(), 1);
    assert_eq!(
        *nodes[0].as_ref().unwrap(),
        AstNode::Directive(AstDirective::DeclareBytes(4, None))
    );
}

#[test]
fn db_needs_an_integer_count() {
    let mut p = parse(vec![
        ft(Token::Directive(Directive::Db)),
        ft(Token::StringLiteral(String::from("four"))),
    ])
    .unwrap();
    let nodes = collect_nodes(&mut p);
    assert_eq!(nodes.len(), 1);
    assert_eq!(
        *nodes[0].as_ref().unwrap_err(),
        Error::ExpectedIntLiteral(ft(Token::StringLiteral(String::from("four"))))
    );
}

#[test]
fn db_rejects_a_negative_count() {
    let mut p = parse(vec![
        ft(Token::Directive(Directive::Db)),
        ft(Token::IntLiteral(-1)),
    ])
    .unwrap();
    let nodes = collect_nodes(&mut p);
    assert_eq!(nodes.len(), 1);
    assert_eq!(
        *nodes[0].as_ref().unwrap_err(),
        Error::NegativeInteger(ft(Token::IntLiteral(-1)))
    );
}

#[test]
fn db_without_operand_reports_end_of_input() {
    let mut p = parse(vec![ft(Token::Directive(Directive::Db))]).unwrap();
    let nodes = collect_nodes(&mut p);
    assert_eq!(nodes.len(), 1);
    assert_eq!(
        *nodes[0].as_ref().unwrap_err(),
        Error::UnexpectedEof(Position { line: 0, col: 0 })
    );
}

#[test]
fn ds_takes_a_string() {
    let mut p = parse(vec![
        ft(Token::Directive(Directive::Ds)),
        ft(Token::StringLiteral(String::from("Hello world"))),
    ])
    .unwrap();
    let nodes = collect_nodes(&mut p);
    assert_eq!(nodes.len(), 1);
    assert_eq!(
        *nodes[0].as_ref().unwrap(),
        AstNode::Directive(AstDirective::DeclareString(String::from("Hello world")))
    );
}

#[test]
fn ds_without_a_string_is_an_error() {
    let mut p = parse(vec![
        ft(Token::Directive(Directive::Ds)),
        ft(Token::IntLiteral(3)),
    ])
    .unwrap();
    let nodes = collect_nodes(&mut p);
    assert_eq!(nodes.len(), 1);
    assert_eq!(
        *nodes[0].as_ref().unwrap_err(),
        Error::ExpectedStringLiteral(ft(Token::IntLiteral(3)))
    );
}

#[test]
fn instruction_tokens_are_unexpected() {
    // The builder handles labels and directives only; everything else is
    // reported and the stream goes on.
    let mut p = parse(vec![
        ft(Token::Instruction(Instruction::Mov)),
        ft(Token::AbsoluteLabel(String::from("after"))),
    ])
    .unwrap();
    let nodes = collect_nodes(&mut p);
    assert_eq!(nodes.len(), 2);
    assert_eq!(
        *nodes[0].as_ref().unwrap_err(),
        Error::UnexpectedToken(ft(Token::Instruction(Instruction::Mov)))
    );
    assert_eq!(
        *nodes[1].as_ref().unwrap(),
        AstNode::LabelDeclaration(Label::Absolute(String::from("after")))
    );
}

use empu::assembler::lexer::{
    Directive, Error, FatError, FatToken, Instruction, Lexer, LexResult, Position, Token, Unit,
};

fn lex_all(src: &str) -> Vec<LexResult> {
    let mut l = Lexer::new(src.chars().collect());
    let mut out = Vec::new();
    while let Some(r) = l.next() {
        out.push(r);
    }
    out
}

fn tok(line: usize, col: usize, token: Token) -> LexResult {
    LexResult::Success(FatToken {
        token,
        pos: Position { line, col },
    })
}

fn err(line: usize, col: usize, error: Error) -> LexResult {
    LexResult::Error(FatError {
        error,
        pos: Position { line, col },
    })
}

#[test]
fn recovery_after_a_bad_line() {
    // The bad characters poison only their own line; the next line lexes
    // as a full Mov sequence.
    let out = lex_all("asdf $$$ \n mov byte 1, 2");
    assert_eq!(
        out,
        vec![
            tok(0, 0, Token::LabelReference(String::from("asdf"))),
            err(0, 5, Error::InvalidCharacter),
            tok(1, 2, Token::Instruction(Instruction::Mov)),
            tok(1, 6, Token::Unit(Unit::Byte)),
            tok(1, 11, Token::IntLiteral(1)),
            tok(1, 12, Token::Comma),
            tok(1, 14, Token::IntLiteral(2)),
        ]
    );
}

#[test]
fn integer_literal_radices() {
    assert_eq!(lex_all("0x0A"), vec![tok(0, 0, Token::IntLiteral(10))]);
    assert_eq!(lex_all("-0x0A"), vec![tok(0, 0, Token::IntLiteral(-10))]);
    assert_eq!(
        lex_all("0b11111111"),
        vec![tok(0, 0, Token::IntLiteral(255))]
    );
    assert_eq!(lex_all("0o377"), vec![tok(0, 0, Token::IntLiteral(255))]);
    assert_eq!(lex_all("+0o001"), vec![tok(0, 0, Token::IntLiteral(1))]);
}

#[test]
fn integer_literal_decimal() {
    assert_eq!(lex_all("0"), vec![tok(0, 0, Token::IntLiteral(0))]);
    assert_eq!(lex_all("7"), vec![tok(0, 0, Token::IntLiteral(7))]);
    assert_eq!(lex_all("012"), vec![tok(0, 0, Token::IntLiteral(12))]);
    assert_eq!(lex_all("65535"), vec![tok(0, 0, Token::IntLiteral(65535))]);
    assert_eq!(lex_all("-42"), vec![tok(0, 0, Token::IntLiteral(-42))]);
    assert_eq!(
        lex_all("1, 2"),
        vec![
            tok(0, 0, Token::IntLiteral(1)),
            tok(0, 1, Token::Comma),
            tok(0, 3, Token::IntLiteral(2)),
        ]
    );
    assert_eq!(
        lex_all("9223372036854775807"),
        vec![tok(0, 0, Token::IntLiteral(i64::MAX))]
    );
    // The accumulation wraps at 64 bits, so the most negative value is
    // reachable.
    assert_eq!(
        lex_all("-9223372036854775808"),
        vec![tok(0, 0, Token::IntLiteral(i64::MIN))]
    );
}

#[test]
fn integer_literal_errors() {
    // A non-zero digit cannot start a radix prefix.
    assert_eq!(
        lex_all("1x44"),
        vec![err(0, 1, Error::WrongCharacter('1', '0'))]
    );
    // A bare sign at the end of input.
    assert_eq!(lex_all("-"), vec![err(0, 0, Error::UnexpectedEof)]);
    // A sign followed by something that is no digit.
    assert_eq!(lex_all("-a"), vec![err(0, 0, Error::NotADigit)]);
}

#[test]
fn unterminated_string_fails_at_the_newline() {
    let out = lex_all("ds \"unterminated\n");
    assert_eq!(
        out,
        vec![
            tok(0, 0, Token::Directive(Directive::Ds)),
            err(1, 0, Error::UnexpectedNewline),
        ]
    );
}

#[test]
fn string_missing_quote_at_end_of_input() {
    let out = lex_all("ds \"open");
    assert_eq!(
        out,
        vec![
            tok(0, 0, Token::Directive(Directive::Ds)),
            err(0, 7, Error::MissingCharacter('"')),
        ]
    );
}

#[test]
fn string_literal_round() {
    assert_eq!(
        lex_all("ds \"Hello world\""),
        vec![
            tok(0, 0, Token::Directive(Directive::Ds)),
            tok(0, 3, Token::StringLiteral(String::from("Hello world"))),
        ]
    );
}

#[test]
fn mnemonics_are_case_insensitive() {
    assert_eq!(
        lex_all("MOV"),
        vec![tok(0, 0, Token::Instruction(Instruction::Mov))]
    );
    assert_eq!(
        lex_all("Mov"),
        vec![tok(0, 0, Token::Instruction(Instruction::Mov))]
    );
    assert_eq!(
        lex_all("mov"),
        vec![tok(0, 0, Token::Instruction(Instruction::Mov))]
    );
    assert_eq!(
        lex_all("DWORD"),
        vec![tok(0, 0, Token::Unit(Unit::Dword))]
    );
    assert_eq!(
        lex_all("Db"),
        vec![tok(0, 0, Token::Directive(Directive::Db))]
    );
    assert_eq!(
        lex_all("IRET"),
        vec![tok(0, 0, Token::Instruction(Instruction::Iret))]
    );
}

#[test]
fn all_mnemonics_lex() {
    let cases = [
        ("mov", Instruction::Mov),
        ("add", Instruction::Add),
        ("sub", Instruction::Sub),
        ("mul", Instruction::Mul),
        ("div", Instruction::Div),
        ("cmp", Instruction::Cmp),
        ("jg", Instruction::Jg),
        ("je", Instruction::Je),
        ("jl", Instruction::Jl),
        ("jmp", Instruction::Jmp),
        ("int", Instruction::Int),
        ("iret", Instruction::Iret),
        ("and", Instruction::And),
        ("or", Instruction::Or),
        ("xor", Instruction::Xor),
        ("not", Instruction::Not),
        ("shl", Instruction::Shl),
        ("shr", Instruction::Shr),
    ];
    for (src, ins) in cases {
        assert_eq!(lex_all(src), vec![tok(0, 0, Token::Instruction(ins))]);
    }
}

#[test]
fn labels_and_markers() {
    assert_eq!(
        lex_all("main:"),
        vec![tok(0, 0, Token::AbsoluteLabel(String::from("main")))]
    );
    assert_eq!(
        lex_all(".sub_label:"),
        vec![tok(0, 0, Token::RelativeLabel(String::from("sub_label")))]
    );
    assert_eq!(
        lex_all("jmp main"),
        vec![
            tok(0, 0, Token::Instruction(Instruction::Jmp)),
            tok(0, 4, Token::LabelReference(String::from("main"))),
        ]
    );
    assert_eq!(
        lex_all("@ ,"),
        vec![tok(0, 0, Token::At), tok(0, 2, Token::Comma)]
    );
    // A relative label missing its colon.
    assert_eq!(
        lex_all(".bad"),
        vec![err(0, 3, Error::WrongCharacter('d', ':'))]
    );
}

#[test]
fn comments_are_skipped() {
    assert_eq!(
        lex_all("; Comment 1\nmov"),
        vec![tok(1, 1, Token::Instruction(Instruction::Mov))]
    );
    assert_eq!(
        lex_all("iret ; Comment 2\niret"),
        vec![
            tok(0, 0, Token::Instruction(Instruction::Iret)),
            tok(1, 1, Token::Instruction(Instruction::Iret)),
        ]
    );
    assert_eq!(lex_all("; only a comment"), vec![]);
}

#[test]
fn indirection_markers_in_context() {
    assert_eq!(
        lex_all("mov @0o333, @400"),
        vec![
            tok(0, 0, Token::Instruction(Instruction::Mov)),
            tok(0, 4, Token::At),
            tok(0, 5, Token::IntLiteral(219)),
            tok(0, 10, Token::Comma),
            tok(0, 12, Token::At),
            tok(0, 13, Token::IntLiteral(400)),
        ]
    );
}

use c1_parser::lexer::{text_chars, tokenize, C1Lexer};
use c1_parser::token::C1Token;

fn kinds(text: &str) -> Vec<C1Token> {
    let chars = text_chars(text);
    tokenize(&chars).iter().map(|t| t.token).collect()
}

#[test]
fn lexes_keywords_identifiers_and_constants() {
    assert_eq!(
        kinds("int foo2 ( ) { return 42 ; }"),
        vec![
            C1Token::KwInt,
            C1Token::Identifier,
            C1Token::LeftParenthesis,
            C1Token::RightParenthesis,
            C1Token::LeftBrace,
            C1Token::KwReturn,
            C1Token::ConstInt,
            C1Token::Semicolon,
            C1Token::RightBrace,
        ]
    );
    assert_eq!(kinds("true false truex"), vec![C1Token::ConstBoolean, C1Token::ConstBoolean, C1Token::Identifier]);
    assert_eq!(kinds("iff if"), vec![C1Token::Identifier, C1Token::KwIf]);
}

#[test]
fn lexes_numbers() {
    assert_eq!(kinds("1.2"), vec![C1Token::ConstFloat]);
    assert_eq!(kinds(".5"), vec![C1Token::ConstFloat]);
    assert_eq!(kinds(".5e-3"), vec![C1Token::ConstFloat]);
    assert_eq!(kinds("3E+10"), vec![C1Token::ConstFloat]);
    assert_eq!(kinds("12"), vec![C1Token::ConstInt]);
    assert_eq!(kinds("1."), vec![C1Token::ConstInt, C1Token::Error]);
    assert_eq!(kinds("1.5e3"), vec![C1Token::ConstFloat, C1Token::Identifier]);
}

#[test]
fn lexes_operators() {
    assert_eq!(
        kinds("== != <= >= < > = && || + - * / ,"),
        vec![
            C1Token::Equal,
            C1Token::NotEqual,
            C1Token::LessEqual,
            C1Token::GreaterEqual,
            C1Token::Less,
            C1Token::Greater,
            C1Token::Assign,
            C1Token::And,
            C1Token::Or,
            C1Token::Plus,
            C1Token::Minus,
            C1Token::Asterisk,
            C1Token::Slash,
            C1Token::Comma,
        ]
    );
    assert_eq!(kinds("& | _ ä"), vec![C1Token::Error, C1Token::Error, C1Token::Error, C1Token::Error]);
}

#[test]
fn lexes_strings_and_comments() {
    assert_eq!(kinds("\"hi there\""), vec![C1Token::ConstString]);
    assert_eq!(kinds("\"open"), vec![C1Token::Error, C1Token::Identifier]);
    assert_eq!(kinds("a // b c\nd"), vec![C1Token::Identifier, C1Token::Identifier]);
    assert_eq!(kinds("a /* b * c\n */ d"), vec![C1Token::Identifier, C1Token::Identifier]);
    assert_eq!(kinds("a /* b"), vec![C1Token::Identifier, C1Token::Slash, C1Token::Asterisk, C1Token::Identifier]);
    assert_eq!(kinds(" \t\r\n  "), vec![]);
}

#[test]
fn tokens_carry_ranges_and_lines() {
    let chars = text_chars("x\n\n  y1 /* \n */ z");
    let ts = tokenize(&chars);
    assert_eq!(ts.len(), 3);
    assert_eq!((ts[0].start, ts[0].end, ts[0].line), (0, 1, 1));
    assert_eq!((ts[1].start, ts[1].end, ts[1].line), (5, 7, 3));
    assert_eq!((ts[2].start, ts[2].end, ts[2].line), (16, 17, 4));
    for w in ts.windows(2) {
        assert!(w[0].end <= w[1].start && w[0].line <= w[1].line);
    }
}

#[test]
fn lexer_walks_the_tokens() {
    let mut lx = C1Lexer::new("foo(\n 7");
    assert_eq!(lx.current_token(), Some(C1Token::Identifier));
    assert_eq!(lx.peek_token(), Some(C1Token::LeftParenthesis));
    assert_eq!(lx.current_text(), Some(String::from("foo")));
    assert_eq!(lx.current_line_number(), Some(1));
    lx.eat();
    lx.eat();
    assert_eq!(lx.current_token(), Some(C1Token::ConstInt));
    assert_eq!(lx.peek_token(), None);
    assert_eq!(lx.current_line_number(), Some(2));
    lx.eat();
    assert_eq!(lx.current_token(), None);
    assert_eq!(lx.current_text(), None);
    lx.eat();
    assert_eq!(lx.current_token(), None);
}

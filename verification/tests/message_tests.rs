use c1_parser::parser::C1Parser;
use c1_parser::token::C1Token;
use c1_parser::ParseResult;

fn run<F>(method: F, text: &str) -> ParseResult
where
    F: Fn(&mut C1Parser) -> ParseResult,
{
    let mut parser = C1Parser::initialize_parser(text);
    method(&mut parser)
}

#[test]
fn plain_messages_of_checks() {
    assert_eq!(C1Parser::parse("  bool  "), Err(String::from("RightBrace fehlt")));
    assert_eq!(run(C1Parser::function_call, "foo)"), Err(String::from("Leftparenthesis fehlt")));
    assert_eq!(run(C1Parser::printf, "printf(1"), Err(String::from("Rightparenthesis fehlt")));
    assert_eq!(run(C1Parser::if_statement, "while"), Err(String::from("KWif fehlt")));
    assert_eq!(run(C1Parser::statement, "return 1"), Err(String::from("Semicolon fehlt")));
    assert_eq!(run(C1Parser::stat_assignment, "x y"), Err(String::from("Assign fehlt")));
}

#[test]
fn messages_at_a_token_name_line_and_text() {
    assert_eq!(
        C1Parser::parse("// A valid comment\nInvalid line."),
        Err(String::from("Fehler at line 2 with text: 'Invalid'"))
    );
    assert_eq!(
        run(C1Parser::statement_list, "x = 1;\n\n\n\n\n\n\n\n\n\n\nfoo;"),
        Err(String::from("fehler at line 12 with text: 'foo'"))
    );
    assert_eq!(run(C1Parser::factor, "if"), Err(String::from("Fehlt at line 1 with text: 'if'")));
    assert_eq!(
        run(C1Parser::factor, "(4 ;"),
        Err(String::from("assignment in factor wasn't properly closed. Expected ) at line 1 with text: ';'"))
    );
}

#[test]
fn messages_at_the_end_of_input() {
    assert_eq!(run(C1Parser::factor, ""), Err(String::from("Fehlt. Reached EOF")));
    assert_eq!(
        run(C1Parser::factor, "(4"),
        Err(String::from("assignment in factor wasn't properly closed. Expected ). Reached EOF"))
    );
    assert_eq!(run(C1Parser::return_type, "   "), Err(String::from("Fehler. Reached EOF")));
}

#[test]
fn error_message_current_reports_the_current_token() {
    let p = C1Parser::initialize_parser("\n\n  abc");
    assert_eq!(p.error_message_current("why"), String::from("why at line 3 with text: 'abc'"));
    let p = C1Parser::initialize_parser("");
    assert_eq!(p.error_message_current("why"), String::from("why. Reached EOF"));
}

#[test]
fn check_and_eat_token_eats_only_a_match() {
    let mut p = C1Parser::initialize_parser("x ;");
    assert!(p.current_matches(&C1Token::Identifier));
    assert!(p.next_matches(&C1Token::Semicolon));
    assert_eq!(p.check_and_eat_token(&C1Token::Semicolon, "no"), Err(String::from("no")));
    assert!(p.current_matches(&C1Token::Identifier));
    assert_eq!(p.check_and_eat_token(&C1Token::Identifier, "no"), Ok(()));
    assert!(p.current_matches(&C1Token::Semicolon));
    assert!(!p.next_matches(&C1Token::Semicolon));
}

#[test]
fn lenient_function_header() {
    assert_eq!(C1Parser::parse("int {}"), Ok(()));
    assert_eq!(C1Parser::parse("void f {}"), Ok(()));
    assert!(C1Parser::parse("void f() {").is_err());
}

#[test]
fn programs_concatenate() {
    let a = "void main() { hello(); }";
    let b = "int f() { if (x < 2) { return -x * 3 || y; } printf(x = y = 1); }";
    assert!(C1Parser::parse(a).is_ok());
    assert!(C1Parser::parse(b).is_ok());
    assert!(C1Parser::parse(&format!("{}\n{}", a, b)).is_ok());
    assert!(C1Parser::parse(&format!("{}{}", b, a)).is_ok());
}

#[test]
fn only_token_kinds_matter() {
    assert_eq!(C1Parser::parse("int f(){x=1;}"), C1Parser::parse("int  g ( ) { /* c */ yy = 22 ; }"));
    assert_eq!(C1Parser::parse("int f(){x=;}").is_err(), C1Parser::parse("int g(){z = ;}").is_err());
}

#[test]
fn blank_texts_are_empty_programs() {
    assert_eq!(C1Parser::parse(" /* a */ // b\n\t"), Ok(()));
}

use grass::args::eat_call_args;
use grass::args::eat_func_args;
use grass::args::FuncArg;
use grass::args::FuncArgs;
use grass::error::SassError;
use grass::error::SyntaxError;
use grass::token::Pos;
use grass::token::Token;
use grass::token::TokenCursor;

fn lex(text: &str) -> Vec<Token> {
    let mut out = Vec::new();
    let mut column = 0;
    for c in text.chars() {
        out.push(Token::new(Pos { line: 0, column }, c));
        column += 1;
    }
    out
}

fn span(text: &str, from: usize, to: usize) -> Vec<Token> {
    lex(text)[from..to].to_vec()
}

#[test]
fn declared_list_with_default_and_rest() {
    let text = "$a, $b: 2, $rest...) {";
    let mut toks = TokenCursor::new(lex(text));
    let args = eat_func_args(&mut toks).unwrap();
    assert_eq!(
        args,
        FuncArgs(vec![
            FuncArg { name: "a".to_string(), default: None, is_variadic: false },
            FuncArg { name: "b".to_string(), default: Some(span(text, 8, 9)), is_variadic: false },
            FuncArg { name: "rest".to_string(), default: Some(vec![]), is_variadic: true },
        ])
    );
    assert_eq!(toks.pos(), text.len());
    assert_eq!(toks.peek(), None);
}

#[test]
fn declared_list_may_be_empty() {
    let mut toks = TokenCursor::new(lex("  ) { x"));
    assert_eq!(eat_func_args(&mut toks), Ok(FuncArgs::new()));
    assert_eq!(toks.pos(), 5);
}

#[test]
fn declared_names_are_canonical() {
    let mut toks = TokenCursor::new(lex("$font_size: 1_0){"));
    let args = eat_func_args(&mut toks).unwrap();
    assert_eq!(args.0.len(), 1);
    assert_eq!(args.0[0].name, "font-size");
    assert_eq!(args.0[0].default, Some(span("$font_size: 1_0){", 12, 15)));
}

#[test]
fn default_keeps_nested_commas_together() {
    let text = "$a: f(1, 2) \"x,)\" [3, 4], $b){";
    let mut toks = TokenCursor::new(lex(text));
    let args = eat_func_args(&mut toks).unwrap();
    assert_eq!(args.0.len(), 2);
    assert_eq!(args.0[0].default, Some(span(text, 4, 24)));
    assert_eq!(args.0[1].name, "b");
    assert_eq!(args.0[1].default, None);
}

#[test]
fn variadic_must_come_last() {
    let mut toks = TokenCursor::new(lex("$a..., $b) {"));
    assert_eq!(
        eat_func_args(&mut toks),
        Err(SassError::Syntax(SyntaxError::ExpectedCloseParen))
    );
    assert_eq!(toks.pos(), 0);
}

#[test]
fn declared_list_failures() {
    let cases = [
        ("$a, $b", SyntaxError::UnexpectedEof),
        ("$a, $b: 1", SyntaxError::UnexpectedEof),
        ("a) {", SyntaxError::ExpectedParameter),
        ("$) {", SyntaxError::ExpectedIdentifier),
        ("$a.. ) {", SyntaxError::ExpectedDot),
        ("$a. ) {", SyntaxError::ExpectedDot),
        ("$a b) {", SyntaxError::UnexpectedToken),
        ("$a) ;", SyntaxError::ExpectedOpenBrace),
        ("$a)", SyntaxError::ExpectedOpenBrace),
        ("", SyntaxError::UnexpectedEof),
    ];
    for (text, want) in cases {
        let mut toks = TokenCursor::new(lex(text));
        assert_eq!(eat_func_args(&mut toks), Err(SassError::Syntax(want)), "{}", text);
    }
}

#[test]
fn call_counts_arguments() {
    let mut toks = TokenCursor::new(lex("1, $b: 5) rest"));
    let args = eat_call_args(&mut toks).unwrap();
    assert_eq!(args.len(), 2);
    assert!(!args.is_empty());
    assert_eq!(toks.pos(), 9);
}

#[test]
fn call_may_be_empty() {
    let mut toks = TokenCursor::new(lex(" )"));
    let args = eat_call_args(&mut toks).unwrap();
    assert_eq!(args.len(), 0);
    assert!(args.is_empty());
}

#[test]
fn call_tolerates_trailing_comma() {
    let mut toks = TokenCursor::new(lex("1, 2, )"));
    let args = eat_call_args(&mut toks).unwrap();
    assert_eq!(args.len(), 2);
}

#[test]
fn call_rejects_repeated_name() {
    let mut toks = TokenCursor::new(lex("$a: 1, $a: 2)"));
    let got = eat_call_args(&mut toks);
    assert!(matches!(got, Err(SassError::DuplicateArgument(ref n)) if n == "a"));
    assert_eq!(toks.pos(), 0);
}

#[test]
fn call_names_are_canonical() {
    let mut toks = TokenCursor::new(lex("$a_b: 1, $a-b: 2)"));
    let got = eat_call_args(&mut toks);
    assert!(matches!(got, Err(SassError::DuplicateArgument(ref n)) if n == "a-b"));
}

#[test]
fn call_must_be_closed() {
    for text in ["1, 2", "", "$a: (1, 2", "\"abc)"] {
        let mut toks = TokenCursor::new(lex(text));
        let got = eat_call_args(&mut toks);
        assert!(
            matches!(got, Err(SassError::Syntax(SyntaxError::UnexpectedEof))),
            "{}",
            text
        );
    }
}

#[test]
fn cursor_reads_in_order() {
    let mut toks = TokenCursor::new(lex("ab"));
    assert_eq!(toks.pos(), 0);
    assert_eq!(toks.as_vec().len(), 2);
    assert_eq!(toks.peek().map(|t| t.kind), Some('a'));
    assert_eq!(toks.next().map(|t| t.kind), Some('a'));
    assert_eq!(toks.pos(), 1);
    assert_eq!(toks.next().map(|t| t.kind), Some('b'));
    assert_eq!(toks.peek(), None);
    assert_eq!(toks.next(), None);
    assert_eq!(toks.pos(), 2);
    toks.seek(1);
    assert_eq!(toks.peek().map(|t| t.kind), Some('b'));
    toks.seek(2);
    assert_eq!(toks.next(), None);
}

use grass::error::SassError;
use grass::error::SyntaxError;
use grass::render_value;
use grass::token::lex;
use grass::token::Pos;
use grass::token::Token;
use grass::unit::Unit;

#[test]
fn one_value_is_rendered() {
    assert_eq!(render_value("1px + 1in"), Ok("97px".to_string()));
    assert_eq!(render_value("  a   b ,c \n"), Ok("a b, c".to_string()));
    assert_eq!(render_value("(1 + 2) 4"), Ok("3 4".to_string()));
    assert_eq!(render_value("\"x\""), Ok("\"x\"".to_string()));
}

#[test]
fn nothing_may_follow_the_value() {
    assert_eq!(
        render_value("1px; 2px"),
        Err(SassError::Syntax(SyntaxError::UnexpectedToken))
    );
    assert_eq!(
        render_value("1px)"),
        Err(SassError::Syntax(SyntaxError::UnexpectedToken))
    );
    assert_eq!(
        render_value(""),
        Err(SassError::Syntax(SyntaxError::ExpectedExpression))
    );
    assert_eq!(
        render_value("1px + 1deg"),
        Err(SassError::IncompatibleUnits(Unit::Px, Unit::Deg))
    );
    assert_eq!(render_value("$a"), Err(SassError::UndefinedVariable("a".to_string())));
}

#[test]
fn a_style_sheet_is_no_value() {
    assert_eq!(
        render_value("a { b { color: &; } }"),
        Err(SassError::Syntax(SyntaxError::UnexpectedToken))
    );
    assert_eq!(
        render_value("@media print { a { b: c; } }"),
        Err(SassError::Syntax(SyntaxError::ExpectedExpression))
    );
}

#[test]
fn tokens_know_their_place() {
    let toks = lex("ab\nc\n\nd");
    let want = [
        ('a', 0, 0),
        ('b', 0, 1),
        ('\n', 0, 2),
        ('c', 1, 0),
        ('\n', 1, 1),
        ('\n', 2, 0),
        ('d', 3, 0),
    ];
    assert_eq!(toks.len(), want.len());
    for (tok, (kind, line, column)) in toks.iter().zip(want) {
        assert_eq!(*tok, Token::new(Pos { line, column }, kind));
    }
    assert!(lex("").is_empty());
}

#[test]
fn failures_have_messages() {
    let cases = [
        (SassError::Syntax(SyntaxError::UnexpectedEof), "expected \")\"."),
        (SassError::Syntax(SyntaxError::ExpectedParameter), "expected \"$\"."),
        (SassError::Syntax(SyntaxError::ExpectedIdentifier), "Expected identifier."),
        (SassError::Syntax(SyntaxError::ExpectedDot), "expected \".\"."),
        (SassError::Syntax(SyntaxError::ExpectedCloseParen), "expected \")\"."),
        (SassError::Syntax(SyntaxError::ExpectedOpenBrace), "expected \"{\"."),
        (SassError::Syntax(SyntaxError::UnexpectedToken), "expected \",\"."),
        (SassError::Syntax(SyntaxError::ExpectedExpression), "Expected expression."),
        (SassError::Syntax(SyntaxError::UnknownUnit), "Unknown unit."),
        (SassError::DuplicateArgument("a".to_string()), "Duplicate argument $a."),
        (SassError::NamedRestArgument("b".to_string()), "No parameter takes the argument $b."),
        (SassError::UndefinedVariable("c".to_string()), "Undefined variable $c."),
        (SassError::MissingArgument("d".to_string()), "Missing argument $d."),
        (SassError::UnknownArgument("e".to_string()), "No parameter named $e."),
        (SassError::TooManyArguments, "Too many arguments were passed."),
        (
            SassError::NotANumber { param: "number".to_string(), found: "red".to_string() },
            "$number: red is not a number.",
        ),
        (
            SassError::NotUnitless { param: "number".to_string(), found: "1px".to_string() },
            "$number: Expected 1px to have no units.",
        ),
        (SassError::InvalidOperand, "Undefined operation."),
        (SassError::IncompatibleUnits(Unit::Px, Unit::Deg), "Incompatible units px and deg."),
    ];
    for (error, want) in cases {
        assert_eq!(error.message(), want);
    }
}

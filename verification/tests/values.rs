use grass::color::Color;
use grass::common::ListSeparator;
use grass::common::Op;
use grass::common::QuoteKind;
use grass::error::SassError;
use grass::error::SyntaxError;
use grass::number::Number;
use grass::scope::Scope;
use grass::selector::Selector;
use grass::token::Pos;
use grass::token::Token;
use grass::token::TokenCursor;
use grass::unit::Unit;
use grass::value::Value;

fn lex(text: &str) -> Vec<Token> {
    text.chars().map(|c| Token::new(Pos::new(), c)).collect()
}

fn parse_in(text: &str, scope: &Scope) -> Result<Value, SassError> {
    let mut toks = TokenCursor::new(lex(text));
    Value::from_tokens(&mut toks, scope, &Selector::new())
}

fn parse(text: &str) -> Value {
    parse_in(text, &Scope::new()).unwrap()
}

fn text_of(v: &Value) -> String {
    v.to_css_string().unwrap()
}

fn dim(n: i64, unit: Unit) -> Value {
    Value::Dimension(Number::from_integer(n), unit)
}

#[test]
fn whole_numbers_parse() {
    assert!(parse("0").equals(&dim(0, Unit::Unitless)));
    assert!(parse("7").equals(&dim(7, Unit::Unitless)));
    assert!(parse("120").equals(&dim(120, Unit::Unitless)));
    assert!(parse("-3").equals(&dim(-3, Unit::Unitless)));
    assert!(!parse("7").equals(&dim(8, Unit::Unitless)));
    assert!(!parse("-3").equals(&dim(3, Unit::Unitless)));
}

#[test]
fn large_numbers_stay_exact() {
    let v = parse("9999999999999999999999999999999999999999999999999");
    assert_eq!(text_of(&v), "9999999999999999999999999999999999999999999999999");
    let sum = parse("9999999999999999999999999999999999999999999999999 + 1").eval().unwrap();
    assert_eq!(text_of(&sum), "10000000000000000000000000000000000000000000000000");
}

#[test]
fn fractions_parse_exactly() {
    assert_eq!(text_of(&parse("0.5")), "1/2");
    assert_eq!(text_of(&parse(".25")), "1/4");
    assert_eq!(text_of(&parse("1.125")), "9/8");
    assert_eq!(text_of(&parse("-4.5")), "-9/2");
    assert_eq!(text_of(&parse("2.50")), "5/2");
    assert_eq!(text_of(&parse("3.0")), "3");
    assert_eq!(text_of(&parse("0.1 + 0.2")), "3/10");
}

#[test]
fn units_parse() {
    assert!(parse("1px").equals(&dim(1, Unit::Px)));
    assert!(parse("2in").equals(&dim(2, Unit::In)));
    assert!(parse("3cm").equals(&dim(3, Unit::Cm)));
    assert!(parse("4mm").equals(&dim(4, Unit::Mm)));
    assert!(parse("5q").equals(&dim(5, Unit::Q)));
    assert!(parse("6pt").equals(&dim(6, Unit::Pt)));
    assert!(parse("7pc").equals(&dim(7, Unit::Pc)));
    assert!(parse("8deg").equals(&dim(8, Unit::Deg)));
    assert!(parse("9grad").equals(&dim(9, Unit::Grad)));
    assert!(parse("10turn").equals(&dim(10, Unit::Turn)));
    assert!(parse("50%").equals(&dim(50, Unit::Percent)));
    assert!(!parse("1px").equals(&dim(1, Unit::Pt)));
}

#[test]
fn unknown_unit_is_refused() {
    assert_eq!(
        parse_in("1furlong", &Scope::new()).unwrap_err(),
        SassError::Syntax(SyntaxError::UnknownUnit)
    );
}

#[test]
fn words_parse() {
    assert!(parse("true").equals(&Value::True));
    assert!(parse("false").equals(&Value::False));
    assert!(parse("null").equals(&Value::Null));
    assert!(parse("!important").equals(&Value::Important));
    assert!(parse("red").equals(&Value::Ident("red".to_string(), QuoteKind::Unquoted)));
    assert!(parse("sans-serif").equals(&Value::Ident("sans-serif".to_string(), QuoteKind::Unquoted)));
    assert!(!parse("red").equals(&Value::Ident("blue".to_string(), QuoteKind::Unquoted)));
}

#[test]
fn quoted_strings_parse() {
    let v = parse("\"a b, c\"");
    assert!(matches!(&v, Value::Ident(s, QuoteKind::Double) if s == "a b, c"));
    let w = parse("'it'");
    assert!(matches!(&w, Value::Ident(s, QuoteKind::Single) if s == "it"));
    let escaped = parse("\"a\\\"b\"");
    assert!(matches!(&escaped, Value::Ident(s, QuoteKind::Double) if s == "a\\\"b"));
    assert_eq!(
        parse_in("\"abc", &Scope::new()).unwrap_err(),
        SassError::Syntax(SyntaxError::UnexpectedEof)
    );
}

#[test]
fn quoting_does_not_matter_for_equality() {
    let a = Value::Ident("x".to_string(), QuoteKind::Double);
    let b = Value::Ident("x".to_string(), QuoteKind::Single);
    let c = Value::Ident("x".to_string(), QuoteKind::Unquoted);
    assert!(a.equals(&b));
    assert!(b.equals(&c));
    assert!(!a.equals(&Value::Ident("y".to_string(), QuoteKind::Double)));
}

#[test]
fn variables_are_read_from_the_scope() {
    let mut scope = Scope::new();
    scope.insert_var("a-b".to_string(), dim(4, Unit::Px));
    assert!(parse_in("$a-b", &scope).unwrap().equals(&dim(4, Unit::Px)));
    assert!(parse_in("$a_b", &scope).unwrap().equals(&dim(4, Unit::Px)));
    scope.insert_var("a-b".to_string(), Value::Null);
    assert!(parse_in("$a-b", &scope).unwrap().equals(&Value::Null));
    assert!(scope.get_var(&"zz".to_string()).is_none());
    assert_eq!(
        parse_in("$zz", &scope).unwrap_err(),
        SassError::UndefinedVariable("zz".to_string())
    );
    assert_eq!(
        parse_in("$", &scope).unwrap_err(),
        SassError::Syntax(SyntaxError::ExpectedIdentifier)
    );
}

#[test]
fn ampersand_is_the_selector() {
    let mut toks = TokenCursor::new(lex("&"));
    let sel = Selector { text: "a b".to_string() };
    let v = Value::from_tokens(&mut toks, &Scope::new(), &sel).unwrap();
    assert!(matches!(&v, Value::Ident(s, QuoteKind::Unquoted) if s == "a b"));
}

#[test]
fn lists_parse() {
    let space = parse("1px solid red");
    assert!(space.equals(&Value::List(
        vec![dim(1, Unit::Px), parse("solid"), parse("red")],
        ListSeparator::Space
    )));
    let comma = parse("1, 2, 3");
    assert!(comma.equals(&Value::List(
        vec![dim(1, Unit::Unitless), dim(2, Unit::Unitless), dim(3, Unit::Unitless)],
        ListSeparator::Comma
    )));
    let nested = parse("a b, c d");
    assert!(nested.equals(&Value::List(vec![parse("a b"), parse("c d")], ListSeparator::Comma)));
    let trailing = parse("1,");
    assert!(trailing.equals(&Value::List(vec![dim(1, Unit::Unitless)], ListSeparator::Comma)));
    let signed = parse("1 -2");
    assert!(signed.equals(&Value::List(
        vec![dim(1, Unit::Unitless), dim(-2, Unit::Unitless)],
        ListSeparator::Space
    )));
}

#[test]
fn operators_parse_to_the_right() {
    let v = parse("1 + 2 - 3");
    let want = Value::BinaryOp(
        Box::new(dim(1, Unit::Unitless)),
        Op::Plus,
        Box::new(Value::BinaryOp(
            Box::new(dim(2, Unit::Unitless)),
            Op::Minus,
            Box::new(dim(3, Unit::Unitless)),
        )),
    );
    assert!(v.equals(&want));
    assert!(parse("1==2").equals(&Value::BinaryOp(
        Box::new(dim(1, Unit::Unitless)),
        Op::Equal,
        Box::new(dim(2, Unit::Unitless))
    )));
    assert!(parse("1 != 2").equals(&Value::BinaryOp(
        Box::new(dim(1, Unit::Unitless)),
        Op::NotEqual,
        Box::new(dim(2, Unit::Unitless))
    )));
    assert!(parse("1 <= 2").equals(&Value::BinaryOp(
        Box::new(dim(1, Unit::Unitless)),
        Op::LessThanEqual,
        Box::new(dim(2, Unit::Unitless))
    )));
    assert!(parse("1-2").equals(&Value::BinaryOp(
        Box::new(dim(1, Unit::Unitless)),
        Op::Minus,
        Box::new(dim(2, Unit::Unitless))
    )));
}

#[test]
fn parentheses_parse() {
    let v = parse("( 1 + 2 )");
    assert!(matches!(&v, Value::Paren(inner) if inner.equals(&parse("1 + 2"))));
    assert_eq!(
        parse_in("(1 + 2", &Scope::new()).unwrap_err(),
        SassError::Syntax(SyntaxError::ExpectedCloseParen)
    );
    assert_eq!(
        parse_in("", &Scope::new()).unwrap_err(),
        SassError::Syntax(SyntaxError::ExpectedExpression)
    );
    assert_eq!(
        parse_in("1 + ", &Scope::new()).unwrap_err(),
        SassError::Syntax(SyntaxError::ExpectedExpression)
    );
}

#[test]
fn cursor_stops_behind_the_value() {
    let mut toks = TokenCursor::new(lex("  1px ; rest"));
    let v = Value::from_tokens(&mut toks, &Scope::new(), &Selector::new()).unwrap();
    assert!(v.equals(&dim(1, Unit::Px)));
    assert_eq!(toks.pos(), 5);
    let mut bad = TokenCursor::new(lex(" ?"));
    assert!(Value::from_tokens(&mut bad, &Scope::new(), &Selector::new()).is_err());
    assert_eq!(bad.pos(), 0);
}

#[test]
fn addition_and_subtraction() {
    assert!(parse("1 + 2").eval().unwrap().equals(&dim(3, Unit::Unitless)));
    assert!(parse("5 - 7").eval().unwrap().equals(&dim(-2, Unit::Unitless)));
    assert!(parse("1px + 2px").eval().unwrap().equals(&dim(3, Unit::Px)));
    assert!(parse("1 + 2 + 3").eval().unwrap().equals(&dim(6, Unit::Unitless)));
    assert!(parse("(1 + 2) + 3").eval().unwrap().equals(&dim(6, Unit::Unitless)));
    assert!(parse("10 - (2 + 3)").eval().unwrap().equals(&dim(5, Unit::Unitless)));
}

#[test]
fn plus_zero_changes_nothing() {
    for text in ["7px + 0px", "0.5in + 0in", "-3 + 0", "12% + 0%", "9grad + 0grad"] {
        let v = parse(text);
        let left = match &v {
            Value::BinaryOp(l, _, _) => (**l).clone(),
            _ => panic!("no operator in {}", text),
        };
        assert!(v.eval().unwrap().equals(&left), "{}", text);
    }
}

#[test]
fn units_are_converted_to_the_left_one() {
    assert!(parse("1px + 1in").eval().unwrap().equals(&dim(97, Unit::Px)));
    assert!(parse("1in + 96px").eval().unwrap().equals(&dim(2, Unit::In)));
    assert!(parse("1in - 2.54cm").eval().unwrap().equals(&dim(0, Unit::In)));
    assert!(parse("1cm + 10mm").eval().unwrap().equals(&dim(2, Unit::Cm)));
    assert!(parse("1mm + 4q").eval().unwrap().equals(&dim(2, Unit::Mm)));
    assert!(parse("1in + 72pt").eval().unwrap().equals(&dim(2, Unit::In)));
    assert!(parse("1in + 6pc").eval().unwrap().equals(&dim(2, Unit::In)));
    assert!(parse("1turn + 360deg").eval().unwrap().equals(&dim(2, Unit::Turn)));
    assert!(parse("90deg + 100grad").eval().unwrap().equals(&dim(180, Unit::Deg)));
    assert_eq!(text_of(&parse("1cm + 1in").eval().unwrap()), "177/50cm");
}

#[test]
fn a_plain_number_takes_the_other_unit() {
    assert!(parse("1 + 2px").eval().unwrap().equals(&dim(3, Unit::Px)));
    assert!(parse("2px + 1").eval().unwrap().equals(&dim(3, Unit::Px)));
    assert!(parse("10% - 4").eval().unwrap().equals(&dim(6, Unit::Percent)));
}

#[test]
fn incomparable_units_fail() {
    assert_eq!(
        parse("1px + 1deg").eval().unwrap_err(),
        SassError::IncompatibleUnits(Unit::Px, Unit::Deg)
    );
    assert_eq!(
        parse("1% - 1px").eval().unwrap_err(),
        SassError::IncompatibleUnits(Unit::Percent, Unit::Px)
    );
    assert_eq!(parse("1 + red").eval().unwrap_err(), SassError::InvalidOperand);
    assert_eq!(parse("true - 1").eval().unwrap_err(), SassError::InvalidOperand);
    assert_eq!(parse("1 + (2 == 2)").eval().unwrap_err(), SassError::InvalidOperand);
    assert_eq!(parse("1 + 2 * 3").eval().unwrap_err(), SassError::InvalidOperand);
}

#[test]
fn equality_compares_trees() {
    assert!(parse("1 == 1").eval().unwrap().equals(&Value::True));
    assert!(parse("1 == 2").eval().unwrap().equals(&Value::False));
    assert!(parse("1 != 2").eval().unwrap().equals(&Value::True));
    assert!(parse("a != a").eval().unwrap().equals(&Value::False));
    assert!(parse("\"a\" == a").eval().unwrap().equals(&Value::True));
    assert!(parse("1px == 1").eval().unwrap().equals(&Value::False));
    assert!(parse("(1 + 1) == 2").eval().unwrap().equals(&Value::False));
    assert!(parse("(1 + 1) == (1 + 1)").eval().unwrap().equals(&Value::True));
}

#[test]
fn other_operators_stay() {
    let v = parse("2 * 3");
    assert!(v.eval().unwrap().equals(&v));
    let w = parse("2 < 3");
    assert!(w.eval().unwrap().equals(&w));
    assert!(dim(1, Unit::Px).eval().unwrap().equals(&dim(1, Unit::Px)));
}

#[test]
fn truth() {
    assert_eq!(Value::Null.is_true(), Ok(false));
    assert_eq!(Value::False.is_true(), Ok(false));
    assert_eq!(Value::True.is_true(), Ok(true));
    assert_eq!(dim(0, Unit::Unitless).is_true(), Ok(true));
    assert_eq!(Value::List(vec![], ListSeparator::Space).is_true(), Ok(true));
    assert_eq!(Value::Ident(String::new(), QuoteKind::Unquoted).is_true(), Ok(true));
    assert_eq!(Value::Important.is_true(), Ok(true));
    assert_eq!(parse("1 == 2").is_true(), Ok(false));
    assert_eq!(parse("1 == 1").is_true(), Ok(true));
    assert_eq!(parse("0 + 0").is_true(), Ok(true));
    assert_eq!(parse("2 * 3").is_true(), Ok(true));
    assert_eq!(
        parse("1px + 1deg").is_true(),
        Err(SassError::IncompatibleUnits(Unit::Px, Unit::Deg))
    );
}

#[test]
fn kinds() {
    assert_eq!(Value::Color(Color { red: 1, green: 2, blue: 3 }).kind(), Ok("color"));
    assert_eq!(parse("abc").kind(), Ok("string"));
    assert_eq!(parse("'abc'").kind(), Ok("string"));
    assert_eq!(parse("1px").kind(), Ok("number"));
    assert_eq!(parse("1 2").kind(), Ok("list"));
    assert_eq!(Value::True.kind(), Ok("bool"));
    assert_eq!(Value::False.kind(), Ok("bool"));
    assert_eq!(Value::Null.kind(), Ok("null"));
    assert_eq!(Value::Important.kind(), Ok("unknown"));
    assert_eq!(parse("(1)").kind(), Ok("unknown"));
    assert_eq!(parse("1 + 2").kind(), Ok("number"));
    assert_eq!(parse("1 == 2").kind(), Ok("bool"));
    assert_eq!(parse("1 * 2").kind(), Ok("unknown"));
    assert_eq!(parse("1 + a").kind(), Err(SassError::InvalidOperand));
}

#[test]
fn null_and_bool() {
    assert!(Value::Null.is_null());
    assert!(!Value::False.is_null());
    assert!(!parse("null == null").is_null());
    assert!(Value::bool(true).equals(&Value::True));
    assert!(Value::bool(false).equals(&Value::False));
}

#[test]
fn unquote_drops_the_quotes() {
    let v = Value::Ident("a b".to_string(), QuoteKind::Double).unquote();
    assert!(matches!(&v, Value::Ident(s, QuoteKind::Unquoted) if s == "a b"));
    assert_eq!(text_of(&v), "a b");
    let w = Value::Ident("x".to_string(), QuoteKind::Unquoted).unquote();
    assert!(matches!(&w, Value::Ident(s, QuoteKind::Unquoted) if s == "x"));
}

#[test]
fn values_as_text() {
    assert_eq!(text_of(&Value::Important), "!important");
    assert_eq!(text_of(&Value::True), "true");
    assert_eq!(text_of(&Value::False), "false");
    assert_eq!(text_of(&Value::Null), "null");
    assert_eq!(text_of(&parse("12px")), "12px");
    assert_eq!(text_of(&parse("-7")), "-7");
    assert_eq!(text_of(&parse("50%")), "50%");
    assert_eq!(text_of(&parse("1.5turn")), "3/2turn");
    assert_eq!(text_of(&parse("\"a b\"")), "\"a b\"");
    assert_eq!(text_of(&parse("'a b'")), "'a b'");
    assert_eq!(text_of(&parse("a-b")), "a-b");
    assert_eq!(text_of(&parse("1px   solid    red")), "1px solid red");
    assert_eq!(text_of(&parse("1 ,2,3")), "1, 2, 3");
    assert_eq!(text_of(&parse("a b, c d")), "a b, c d");
    assert_eq!(text_of(&parse("(1 2)")), "1 2");
    assert_eq!(text_of(&parse("1 + 2")), "3");
    assert_eq!(text_of(&parse("1 == 2")), "false");
    assert_eq!(text_of(&parse("2*3")), "2 * 3");
    assert_eq!(text_of(&parse("a (1in + 1in) b")), "a 2in b");
    assert_eq!(text_of(&Value::List(vec![], ListSeparator::Comma)), "");
    assert_eq!(text_of(&Value::Color(Color { red: 0, green: 128, blue: 255 })), "#0080ff");
    assert_eq!(text_of(&Value::Color(Color { red: 171, green: 205, blue: 239 })), "#abcdef");
    assert_eq!(text_of(&Value::Color(Color { red: 18, green: 52, blue: 86 })), "#123456");
    assert_eq!(text_of(&Value::Color(Color { red: 9, green: 159, blue: 250 })), "#099ffa");
    assert_eq!(
        parse("1 (1px + 1deg)").to_css_string(),
        Err(SassError::IncompatibleUnits(Unit::Px, Unit::Deg))
    );
}

#[test]
fn copies_are_equal() {
    for text in ["1px", "a b, c", "(1 + 2)", "\"q\"", "!important", "1 == 2"] {
        let v = parse(text);
        assert!(v.clone().equals(&v), "{}", text);
    }
    let c = Value::Color(Color { red: 1, green: 2, blue: 3 });
    assert!(c.clone().equals(&c));
    assert!(!c.equals(&Value::Color(Color { red: 1, green: 2, blue: 4 })));
    let n = Number::from_integer(-12);
    assert!(n.clone().equals(&n));
    assert_eq!(n.to_text(), "-12");
}

#[test]
fn small_integers() {
    assert_eq!(parse("0").to_u16(), Ok(0));
    assert_eq!(parse("17").to_u16(), Ok(17));
    assert_eq!(parse("17.9").to_u16(), Ok(17));
    assert_eq!(parse("254.5").to_u16(), Ok(254));
    assert_eq!(parse("255").to_u16(), Ok(255));
    assert_eq!(parse("70000").to_u16(), Ok(255));
    assert_eq!(parse("-0.5").to_u16(), Ok(0));
    assert_eq!(parse("100 + 28").to_u16(), Ok(128));
    assert_eq!(
        parse("1px").to_u16(),
        Err(SassError::NotUnitless { param: "val".to_string(), found: "1px".to_string() })
    );
    assert_eq!(
        parse("red").to_u16(),
        Err(SassError::NotANumber { param: "val".to_string(), found: "red".to_string() })
    );
    assert_eq!(parse("1 + red").to_u16(), Err(SassError::InvalidOperand));
}

#[test]
fn numbers_compare() {
    let a = Number::from_integer(-2);
    let b = Number::from_integer(3);
    assert!(a.less_than(&b));
    assert!(!b.less_than(&a));
    assert!(!a.less_than(&a));
    assert!(a.equals(&Number::from_integer(-2)));
    assert!(!a.equals(&b));
}

#[test]
fn values_compare_with_operators() {
    assert_eq!(parse("1px"), dim(1, Unit::Px));
    assert_ne!(parse("1px"), dim(1, Unit::Pt));
    assert_ne!(parse("1px"), dim(2, Unit::Px));
    assert_eq!(parse("\"a\""), parse("a"));
    assert_eq!(parse("1 + 2").eval(), Ok(dim(3, Unit::Unitless)));
    assert_eq!(parse("a b"), Value::List(vec![parse("a"), parse("b")], ListSeparator::Space));
    assert_ne!(parse("a b"), Value::List(vec![parse("a"), parse("b")], ListSeparator::Comma));
    assert_eq!(Number::from_integer(4), Number::from_integer(4));
    assert_ne!(Number::from_integer(4), Number::from_integer(-4));
}

use grass::args::eat_call_args;
use grass::args::CallArgs;
use grass::builtin::math::comparable;
use grass::builtin::math::percentage;
use grass::builtin::math::register;
use grass::builtin::math::transform;
use grass::builtin::math::Transform;
use grass::builtin::take_argument;
use grass::builtin::Builtin;
use grass::builtin::FunctionTable;
use grass::error::SassError;
use grass::number::Number;
use grass::scope::Scope;
use grass::selector::Selector;
use grass::token::Pos;
use grass::token::Token;
use grass::token::TokenCursor;
use grass::unit::Unit;
use grass::value::Value;

fn lex(text: &str) -> Vec<Token> {
    text.chars().map(|c| Token::new(Pos::new(), c)).collect()
}

fn call(text: &str) -> CallArgs {
    let mut toks = TokenCursor::new(lex(text));
    eat_call_args(&mut toks).unwrap()
}

fn table() -> FunctionTable {
    let mut t = FunctionTable::new();
    register(&mut t);
    t
}

fn run(name: &str, args: &str) -> Result<Value, SassError> {
    let f = table().dispatch(name).unwrap();
    f.call(call(args), &Scope::new(), &Selector::new()).map(|v| v.unwrap())
}

fn text(name: &str, args: &str) -> String {
    run(name, args).unwrap().to_css_string().unwrap()
}

fn dim(n: i64, unit: Unit) -> Value {
    Value::Dimension(Number::from_integer(n), unit)
}

#[test]
fn names_are_registered() {
    let t = table();
    assert_eq!(t.dispatch("percentage"), Some(Builtin::Percentage));
    assert_eq!(t.dispatch("round"), Some(Builtin::Round));
    assert_eq!(t.dispatch("ceil"), Some(Builtin::Ceil));
    assert_eq!(t.dispatch("floor"), Some(Builtin::Floor));
    assert_eq!(t.dispatch("abs"), Some(Builtin::Abs));
    assert_eq!(t.dispatch("comparable"), Some(Builtin::Comparable));
    assert_eq!(t.dispatch("sqrt"), None);
    assert_eq!(t.dispatch(""), None);
    assert_eq!(FunctionTable::new().dispatch("round"), None);
}

#[test]
fn later_names_replace_earlier_ones() {
    let mut t = table();
    t.insert("round", Builtin::Floor);
    assert_eq!(t.dispatch("round"), Some(Builtin::Floor));
    assert_eq!(t.dispatch("floor"), Some(Builtin::Floor));
}

#[test]
fn percentage_of_a_plain_number() {
    assert!(run("percentage", "0.5)").unwrap().equals(&dim(50, Unit::Percent)));
    assert_eq!(text("percentage", "0.5)"), "50%");
    assert_eq!(text("percentage", "1)"), "100%");
    assert_eq!(text("percentage", "-0.25)"), "-25%");
    assert_eq!(text("percentage", "$number: 0.125)"), "25/2%");
    assert_eq!(text("percentage", "0.2 + 0.3)"), "50%");
}

#[test]
fn percentage_refuses_units() {
    assert_eq!(
        run("percentage", "50%)").unwrap_err(),
        SassError::NotUnitless { param: "number".to_string(), found: "50%".to_string() }
    );
    assert_eq!(
        run("percentage", "1px)").unwrap_err(),
        SassError::NotUnitless { param: "number".to_string(), found: "1px".to_string() }
    );
    assert_eq!(
        run("percentage", "red)").unwrap_err(),
        SassError::NotANumber { param: "number".to_string(), found: "red".to_string() }
    );
}

#[test]
fn rounding_keeps_the_unit() {
    assert!(run("round", "4.5px)").unwrap().equals(&dim(5, Unit::Px)));
    assert!(run("abs", "-3cm)").unwrap().equals(&dim(3, Unit::Cm)));
    assert_eq!(text("round", "4.5px)"), "5px");
    assert_eq!(text("round", "4.4px)"), "4px");
    assert_eq!(text("round", "-4.5)"), "-5");
    assert_eq!(text("round", "-4.4)"), "-4");
    assert_eq!(text("round", "0.5)"), "1");
    assert_eq!(text("round", "7)"), "7");
    assert_eq!(text("ceil", "4.1deg)"), "5deg");
    assert_eq!(text("ceil", "-4.9)"), "-4");
    assert_eq!(text("ceil", "3)"), "3");
    assert_eq!(text("floor", "4.9%)"), "4%");
    assert_eq!(text("floor", "-4.1)"), "-5");
    assert_eq!(text("floor", "-2)"), "-2");
    assert_eq!(text("abs", "-3cm)"), "3cm");
    assert_eq!(text("abs", "3.5in)"), "7/2in");
    assert_eq!(text("abs", "0)"), "0");
}

#[test]
fn rounding_needs_a_number() {
    for name in ["round", "ceil", "floor", "abs"] {
        assert_eq!(
            run(name, "\"x\")").unwrap_err(),
            SassError::NotANumber { param: "number".to_string(), found: "\"x\"".to_string() }
        );
        assert_eq!(run(name, ")").unwrap_err(), SassError::MissingArgument("number".to_string()));
    }
}

#[test]
fn comparable_units() {
    assert!(run("comparable", "1px, 1in)").unwrap().equals(&Value::True));
    assert!(run("comparable", "1px, 1deg)").unwrap().equals(&Value::False));
    assert!(run("comparable", "1deg, 1px)").unwrap().equals(&Value::False));
    assert!(run("comparable", "1, 1px)").unwrap().equals(&Value::True));
    assert!(run("comparable", "1px, 1)").unwrap().equals(&Value::True));
    assert!(run("comparable", "1%, 1px)").unwrap().equals(&Value::False));
    assert!(run("comparable", "1%, 2%)").unwrap().equals(&Value::True));
    assert!(run("comparable", "1turn, 1grad)").unwrap().equals(&Value::True));
    assert!(run("comparable", "$number2: 1cm, $number1: 1q)").unwrap().equals(&Value::True));
    assert!(run("comparable", "$number2: 1cm, 1deg)").unwrap().equals(&Value::False));
}

#[test]
fn comparability_is_symmetric() {
    let units = [
        Unit::Unitless,
        Unit::Percent,
        Unit::Px,
        Unit::In,
        Unit::Cm,
        Unit::Mm,
        Unit::Q,
        Unit::Pt,
        Unit::Pc,
        Unit::Deg,
        Unit::Grad,
        Unit::Turn,
    ];
    for a in units {
        for b in units {
            assert_eq!(a.comparable(&b), b.comparable(&a));
        }
        assert!(a.comparable(&a));
    }
}

#[test]
fn comparable_needs_two_numbers() {
    assert_eq!(
        run("comparable", "a, 1px)").unwrap_err(),
        SassError::NotANumber { param: "number1".to_string(), found: "a".to_string() }
    );
    assert_eq!(
        run("comparable", "1px, b)").unwrap_err(),
        SassError::NotANumber { param: "number2".to_string(), found: "b".to_string() }
    );
    assert_eq!(
        run("comparable", "1px)").unwrap_err(),
        SassError::MissingArgument("number2".to_string())
    );
    assert_eq!(
        run("comparable", "a, $zz)").unwrap_err(),
        SassError::NotANumber { param: "number1".to_string(), found: "a".to_string() }
    );
}

#[test]
fn functions_on_values() {
    assert!(percentage(&dim(2, Unit::Unitless)).unwrap().equals(&dim(200, Unit::Percent)));
    assert!(transform(Transform::Floor, &dim(2, Unit::Pt)).unwrap().equals(&dim(2, Unit::Pt)));
    assert!(transform(Transform::Abs, &dim(-2, Unit::Pt)).unwrap().equals(&dim(2, Unit::Pt)));
    assert_eq!(
        transform(Transform::Round, &dim(-7, Unit::Deg)).unwrap().to_css_string().unwrap(),
        "-7deg"
    );
    assert!(transform(Transform::Ceil, &dim(3, Unit::Q)).unwrap().equals(&dim(3, Unit::Q)));
    assert_eq!(
        transform(Transform::Abs, &Value::True).unwrap_err(),
        SassError::NotANumber { param: "number".to_string(), found: "true".to_string() }
    );
    assert!(comparable(&dim(1, Unit::Mm), &dim(1, Unit::Pc)).unwrap().equals(&Value::True));
    assert_eq!(
        percentage(&Value::Null).unwrap_err(),
        SassError::NotANumber { param: "number".to_string(), found: "null".to_string() }
    );
}

#[test]
fn arguments_are_taken_by_name_first() {
    let scope = Scope::new();
    let sel = Selector::new();
    let mut args = call("1, 2, $number: 3)");
    let v = take_argument(&mut args, 0, "number", &scope, &sel).unwrap();
    assert!(v.equals(&dim(3, Unit::Unitless)));
    assert_eq!(args.len(), 2);
    let w = take_argument(&mut args, 0, "number", &scope, &sel).unwrap();
    assert!(w.equals(&dim(1, Unit::Unitless)));
    assert_eq!(
        take_argument(&mut args, 0, "number", &scope, &sel).unwrap_err(),
        SassError::MissingArgument("number".to_string())
    );
    assert_eq!(args.len(), 1);
    let mut sums = call("1 + 2)");
    let s = take_argument(&mut sums, 0, "n", &scope, &sel).unwrap();
    assert!(s.equals(&dim(3, Unit::Unitless)));
}

use grass::args::eat_call_args;
use grass::args::eat_func_args;
use grass::args::CallArg;
use grass::args::CallArgs;
use grass::args::FuncArgs;
use grass::bind::bind;
use grass::error::SassError;
use grass::error::SyntaxError;
use grass::number::Number;
use grass::scope::Scope;
use grass::selector::Selector;
use grass::token::Pos;
use grass::token::Token;
use grass::token::TokenCursor;
use grass::unit::Unit;
use grass::utils::name_comes_first;
use grass::value::Value;

fn lex(text: &str) -> Vec<Token> {
    text.chars().map(|c| Token::new(Pos::new(), c)).collect()
}

fn call(text: &str) -> CallArgs {
    let mut toks = TokenCursor::new(lex(text));
    eat_call_args(&mut toks).unwrap()
}

fn dim(n: i64, unit: Unit) -> Value {
    Value::Dimension(Number::from_integer(n), unit)
}

fn texts(values: &[Value]) -> Vec<String> {
    values.iter().map(|v| v.to_css_string().unwrap()).collect()
}

#[test]
fn lookup_by_place() {
    let scope = Scope::new();
    let sel = Selector::new();
    let mut args = call("1px, 2, a b)");
    assert_eq!(args.len(), 3);
    let second = args.get_positional(1, &scope, &sel).unwrap().unwrap();
    assert!(second.equals(&dim(2, Unit::Unitless)));
    assert_eq!(args.len(), 2);
    let first = args.get_positional(0, &scope, &sel).unwrap().unwrap();
    assert!(first.equals(&dim(1, Unit::Px)));
    let third = args.get_positional(2, &scope, &sel).unwrap().unwrap();
    assert_eq!(third.to_css_string().unwrap(), "a b");
    assert!(args.is_empty());
    assert!(args.get_positional(3, &scope, &sel).is_none());
}

#[test]
fn lookup_by_name() {
    let scope = Scope::new();
    let sel = Selector::new();
    let mut args = call("$b: 5, 1, $font_size : 2px)");
    assert_eq!(args.len(), 3);
    let b = args.get_named("b".to_string(), &scope, &sel).unwrap().unwrap();
    assert!(b.equals(&dim(5, Unit::Unitless)));
    let size = args.get_named("font-size".to_string(), &scope, &sel).unwrap().unwrap();
    assert!(size.equals(&dim(2, Unit::Px)));
    assert!(args.get_named("font_size".to_string(), &scope, &sel).is_none());
    assert!(args.get_named("c".to_string(), &scope, &sel).is_none());
    assert_eq!(args.len(), 1);
}

#[test]
fn a_lookup_finds_its_argument_once() {
    let scope = Scope::new();
    let sel = Selector::new();
    let mut args = call("1, $b: 5)");
    assert!(args.get_named("b".to_string(), &scope, &sel).is_some());
    assert!(args.get_named("b".to_string(), &scope, &sel).is_none());
    assert!(args.get_positional(0, &scope, &sel).is_some());
    assert!(args.get_positional(0, &scope, &sel).is_none());
    assert_eq!(args.len(), 0);
}

#[test]
fn names_take_no_place() {
    let scope = Scope::new();
    let sel = Selector::new();
    let mut args = call("10, $x: 1, 20, $y: 2, 30)");
    assert_eq!(args.len(), 5);
    for (place, want) in [(0, 10), (1, 20), (2, 30)] {
        let v = args.get_positional(place, &scope, &sel).unwrap().unwrap();
        assert!(v.equals(&dim(want, Unit::Unitless)));
    }
    assert!(args.get_positional(3, &scope, &sel).is_none());
    assert!(args.get_positional(4, &scope, &sel).is_none());
    assert_eq!(args.len(), 2);
}

#[test]
fn arguments_are_evaluated_only_when_taken() {
    let mut scope = Scope::new();
    let sel = Selector::new();
    let mut args = call("$missing, $known, ?)");
    assert_eq!(args.len(), 3);
    assert_eq!(
        args.get_positional(0, &scope, &sel).unwrap().unwrap_err(),
        SassError::UndefinedVariable("missing".to_string())
    );
    scope.insert_var("known".to_string(), dim(3, Unit::Cm));
    let v = args.get_positional(1, &scope, &sel).unwrap().unwrap();
    assert!(v.equals(&dim(3, Unit::Cm)));
    assert_eq!(
        args.get_positional(2, &scope, &sel).unwrap().unwrap_err(),
        SassError::Syntax(SyntaxError::ExpectedExpression)
    );
    assert!(args.is_empty());
}

#[test]
fn values_keep_nested_commas() {
    let scope = Scope::new();
    let sel = Selector::new();
    let mut args = call("(1, 2), \"a,b)\", [x, y])");
    assert_eq!(args.len(), 3);
    let first = args.get_positional(0, &scope, &sel).unwrap().unwrap();
    assert_eq!(first.to_css_string().unwrap(), "1, 2");
    let second = args.get_positional(1, &scope, &sel).unwrap().unwrap();
    assert_eq!(second.to_css_string().unwrap(), "\"a,b)\"");
}

#[test]
fn rest_arguments_come_in_order() {
    let scope = Scope::new();
    let sel = Selector::new();
    let mut args = call("a, b, c, d, e)");
    args.get_positional(1, &scope, &sel).unwrap().unwrap();
    args.get_positional(3, &scope, &sel).unwrap().unwrap();
    let rest = args.get_variadic(&scope, &sel).unwrap();
    assert_eq!(texts(&rest), vec!["a", "c", "e"]);
}

#[test]
fn rest_arguments_may_be_none() {
    let scope = Scope::new();
    let sel = Selector::new();
    assert!(call(")").get_variadic(&scope, &sel).unwrap().is_empty());
    assert!(CallArgs::new().get_variadic(&scope, &sel).unwrap().is_empty());
}

#[test]
fn rest_arguments_must_be_positional() {
    let scope = Scope::new();
    let sel = Selector::new();
    let args = call("1, $b: ?, 3)");
    assert_eq!(
        args.get_variadic(&scope, &sel).unwrap_err(),
        SassError::NamedRestArgument("b".to_string())
    );
}

#[test]
fn rest_arguments_fail_with_the_first_failure() {
    let scope = Scope::new();
    let sel = Selector::new();
    let args = call("1, $x, 3, ?)");
    assert_eq!(
        args.get_variadic(&scope, &sel).unwrap_err(),
        SassError::UndefinedVariable("x".to_string())
    );
}

#[test]
fn places_move_down() {
    let scope = Scope::new();
    let sel = Selector::new();
    let mut args = call("a, b, $n: c, d)");
    args.get_positional(0, &scope, &sel).unwrap().unwrap();
    let mut moved = args.decrement();
    assert_eq!(moved.len(), 3);
    assert!(moved.get_positional(2, &scope, &sel).is_none());
    let first = moved.get_positional(0, &scope, &sel).unwrap().unwrap();
    assert_eq!(first.to_css_string().unwrap(), "b");
    let second = moved.get_positional(1, &scope, &sel).unwrap().unwrap();
    assert_eq!(second.to_css_string().unwrap(), "d");
    let named = moved.get_named("n".to_string(), &scope, &sel).unwrap().unwrap();
    assert_eq!(named.to_css_string().unwrap(), "c");
}

#[test]
fn keys_move_down() {
    assert_eq!(CallArg::Positional(3).decrement(), CallArg::Positional(2));
    assert_eq!(CallArg::Positional(1).decrement(), CallArg::Positional(0));
    assert_eq!(CallArg::Named("a".to_string()).decrement(), CallArg::Named("a".to_string()));
    assert_eq!(CallArg::Positional(7).position(), Ok(7));
    assert_eq!(
        CallArg::Named("a".to_string()).position(),
        Err(SassError::NamedRestArgument("a".to_string()))
    );
}

fn declare(text: &str) -> FuncArgs {
    let mut toks = TokenCursor::new(lex(text));
    eat_func_args(&mut toks).unwrap()
}

fn var(scope: &Scope, name: &str) -> String {
    scope.get_var(&name.to_string()).unwrap().eval().unwrap().to_css_string().unwrap()
}

#[test]
fn declared_list_binds_call() {
    let params = declare("$a, $b: 2, $rest...) {");
    let scope = bind(&params, call("1, $b: 5)"), &Scope::new(), &Scope::new(), &Selector::new())
        .unwrap();
    assert!(scope.get_var(&"a".to_string()).unwrap().equals(&dim(1, Unit::Unitless)));
    assert!(scope.get_var(&"b".to_string()).unwrap().equals(&dim(5, Unit::Unitless)));
    let rest = scope.get_var(&"rest".to_string()).unwrap();
    assert!(matches!(&rest, Value::List(items, grass::common::ListSeparator::Comma) if items.is_empty()));
    assert!(scope.get_var(&"c".to_string()).is_none());
}

#[test]
fn defaults_fill_in() {
    let params = declare("$a, $b: 2, $rest...) {");
    let sel = Selector::new();
    let scope = bind(&params, call("1)"), &Scope::new(), &Scope::new(), &sel).unwrap();
    assert_eq!(var(&scope, "a"), "1");
    assert_eq!(var(&scope, "b"), "2");
    assert_eq!(var(&scope, "rest"), "");
    let by_place = bind(&params, call("1, 7)"), &Scope::new(), &Scope::new(), &sel).unwrap();
    assert_eq!(var(&by_place, "b"), "7");
    let by_name = bind(&params, call("$b: 8, $a: 9)"), &Scope::new(), &Scope::new(), &sel).unwrap();
    assert_eq!(var(&by_name, "a"), "9");
    assert_eq!(var(&by_name, "b"), "8");
}

#[test]
fn rest_takes_what_is_left() {
    let params = declare("$a, $b: 2, $rest...) {");
    let sel = Selector::new();
    let scope = bind(&params, call("1, 2, 3px, x y, 5)"), &Scope::new(), &Scope::new(), &sel)
        .unwrap();
    assert_eq!(var(&scope, "rest"), "3px, x y, 5");
    let named_first = bind(&params, call("$a: 1, 2, 3)"), &Scope::new(), &Scope::new(), &sel);
    assert_eq!(var(&named_first.unwrap(), "rest"), "2");
}

#[test]
fn defaults_see_the_callee() {
    let params = declare("$a, $b: $a + $base, $c: $b) {");
    let sel = Selector::new();
    let mut caller = Scope::new();
    caller.insert_var("base".to_string(), dim(100, Unit::Unitless));
    caller.insert_var("x".to_string(), dim(1, Unit::Px));
    let mut callee = Scope::new();
    callee.insert_var("base".to_string(), dim(10, Unit::Px));
    let scope = bind(&params, call("$x)"), &caller, &callee, &sel).unwrap();
    assert_eq!(var(&scope, "a"), "1px");
    assert_eq!(var(&scope, "b"), "11px");
    assert_eq!(var(&scope, "c"), "11px");
    assert_eq!(var(&scope, "base"), "10px");
    assert_eq!(var(&callee, "base"), "10px");
    assert!(callee.get_var(&"a".to_string()).is_none());
    assert_eq!(
        bind(&params, call("$base)"), &callee, &Scope::new(), &sel).unwrap_err(),
        SassError::UndefinedVariable("base".to_string())
    );
}

#[test]
fn binding_failures() {
    let sel = Selector::new();
    let none = Scope::new();
    let one = declare("$a) {");
    assert_eq!(
        bind(&one, call(")"), &none, &none, &sel).unwrap_err(),
        SassError::MissingArgument("a".to_string())
    );
    assert_eq!(
        bind(&one, call("1, $zz: 3)"), &none, &none, &sel).unwrap_err(),
        SassError::UnknownArgument("zz".to_string())
    );
    assert_eq!(
        bind(&one, call("1, 2)"), &none, &none, &sel).unwrap_err(),
        SassError::TooManyArguments
    );
    assert_eq!(
        bind(&one, call("?)"), &none, &none, &sel).unwrap_err(),
        SassError::Syntax(SyntaxError::ExpectedExpression)
    );
    let rest = declare("$a, $rest...) {");
    assert_eq!(
        bind(&rest, call("1, $q: 2)"), &none, &none, &sel).unwrap_err(),
        SassError::NamedRestArgument("q".to_string())
    );
    assert!(bind(&FuncArgs::new(), call(")"), &none, &none, &sel).is_ok());
    assert_eq!(
        bind(&FuncArgs::new(), call("1)"), &none, &none, &sel).unwrap_err(),
        SassError::TooManyArguments
    );
}

#[test]
fn the_first_name_of_what_is_left() {
    assert_eq!(call("1, 2)").least_name(), None);
    assert_eq!(call("1, $b: 2)").least_name(), Some("b".to_string()));
    assert_eq!(call("$b: 1, $a: 2, $c: 3)").least_name(), Some("a".to_string()));
    assert_eq!(call("$ab: 1, $a: 2, $abc: 3)").least_name(), Some("a".to_string()));
    assert_eq!(call("$b-a: 1, $b_: 2)").least_name(), Some("b-".to_string()));
    assert_eq!(CallArgs::new().least_name(), None);
}

#[test]
fn failures_name_the_first_name() {
    let scope = Scope::new();
    let sel = Selector::new();
    assert_eq!(
        call("1, $q: 2, $p: 3, $r: 4)").get_variadic(&scope, &sel).unwrap_err(),
        SassError::NamedRestArgument("p".to_string())
    );
    let one = declare("$a) {");
    assert_eq!(
        bind(&one, call("1, $zz: 3, $yy: 4)"), &scope, &scope, &sel).unwrap_err(),
        SassError::UnknownArgument("yy".to_string())
    );
    assert_eq!(
        bind(&one, call("1, 2, $zz: 3)"), &scope, &scope, &sel).unwrap_err(),
        SassError::UnknownArgument("zz".to_string())
    );
}

#[test]
fn names_in_the_order_of_the_dictionary() {
    assert!(name_comes_first("", ""));
    assert!(name_comes_first("", "a"));
    assert!(!name_comes_first("a", ""));
    assert!(name_comes_first("a", "a"));
    assert!(name_comes_first("a", "b"));
    assert!(!name_comes_first("b", "a"));
    assert!(name_comes_first("ab", "abc"));
    assert!(!name_comes_first("abc", "ab"));
    assert!(name_comes_first("abc", "abd"));
    assert!(name_comes_first("Z", "a"));
    assert!(!name_comes_first("b", "abc"));
}

#[test]
fn copies_hold_the_same_arguments() {
    let scope = Scope::new();
    let sel = Selector::new();
    let mut args = call("1, $b: 2)");
    let mut copy = args.clone();
    assert_eq!(copy.len(), 2);
    args.get_positional(0, &scope, &sel).unwrap().unwrap();
    assert_eq!(args.len(), 1);
    assert_eq!(copy.len(), 2);
    assert!(copy.get_positional(0, &scope, &sel).unwrap().unwrap().equals(&dim(1, Unit::Unitless)));
    assert!(copy.get_named("b".to_string(), &scope, &sel).unwrap().unwrap().equals(&dim(2, Unit::Unitless)));
    let mut vars = Scope::new();
    vars.insert_var("x".to_string(), dim(1, Unit::Px));
    let mut more = vars.clone();
    more.insert_var("y".to_string(), dim(2, Unit::Px));
    assert!(vars.get_var(&"y".to_string()).is_none());
    assert!(more.get_var(&"x".to_string()).unwrap().equals(&dim(1, Unit::Px)));
}

//! The functions on numbers.

use vstd::prelude::*;
use crate::args::CallArgView;
use crate::args::CallArgs;
use crate::builtin::Builtin;
use crate::builtin::FunctionTable;
use crate::builtin::argument_value;
use crate::builtin::take_argument;
use crate::builtin::without_argument;
use crate::error::Failure;
use crate::error::SassError;
use crate::number::abs_of;
use crate::number::ceil_of;
use crate::number::floor_of;
use crate::number::ratio_abs;
use crate::number::ratio_ceil;
use crate::number::ratio_floor;
use crate::number::ratio_from_integer;
use crate::number::ratio_mul;
use crate::number::ratio_round;
use crate::number::round_of;
use crate::scope::Scope;
use crate::selector::Selector;
use crate::token::Token;
use crate::unit::Unit;
use crate::value::Value;
use crate::value::ValueView;
use crate::value::bool_view;
use crate::value::text::css_text;
use crate::value::yields;

verus! {

/// The failure for a value `v` given for the parameter `param` that is no
/// number: it names the parameter and quotes the value.
pub open spec fn not_a_number(param: Seq<char>, v: ValueView) -> Failure {
    match css_text(v) {
        Ok(t) => Failure::NotANumber { param, found: t },
        Err(f) => f,
    }
}

/// The failure for a value `v` given for the parameter `param` that has a
/// unit where none is allowed: it names the parameter and quotes the value.
pub open spec fn not_unitless(param: Seq<char>, v: ValueView) -> Failure {
    match css_text(v) {
        Ok(t) => Failure::NotUnitless { param, found: t },
        Err(f) => f,
    }
}

/// `percentage($number)`: a hundred times a number without unit, as per
/// cent.
pub open spec fn percentage_of(v: ValueView) -> Result<ValueView, Failure> {
    match v {
        ValueView::Dimension(n, u) => if u == Unit::Unitless {
            Ok(ValueView::Dimension(n * (100 as real), Unit::Percent))
        } else {
            Err(not_unitless("number"@, v))
        },
        _ => Err(not_a_number("number"@, v)),
    }
}

/// What `round`, `ceil`, `floor` and `abs` do to the magnitude of a number.
#[derive(Debug, Clone, Copy, PartialEq, Eq, Structural)]
pub enum Transform {
    /// To the nearest whole number, a half away from zero.
    Round,
    /// To the next whole number upwards.
    Ceil,
    /// To the next whole number downwards.
    Floor,
    /// Without the sign.
    Abs,
}

impl Transform {
    /// The magnitude `n` after the transform.
    pub open spec fn of(self, n: real) -> real {
        match self {
            Transform::Round => round_of(n) as real,
            Transform::Ceil => ceil_of(n) as real,
            Transform::Floor => floor_of(n) as real,
            Transform::Abs => abs_of(n),
        }
    }
}

/// `round`, `ceil`, `floor` and `abs` of `$number`: the magnitude of the
/// number transformed, with its unit unchanged.
pub open spec fn transformed(t: Transform, v: ValueView) -> Result<ValueView, Failure> {
    match v {
        ValueView::Dimension(n, u) => Ok(ValueView::Dimension(t.of(n), u)),
        _ => Err(not_a_number("number"@, v)),
    }
}

/// `comparable($number1, $number2)`: whether the units of two numbers are
/// comparable.
pub open spec fn comparable_of(a: ValueView, b: ValueView) -> Result<ValueView, Failure> {
    match a {
        ValueView::Dimension(_, u1) => match b {
            ValueView::Dimension(_, u2) => Ok(bool_view(u1.comparable_with(u2))),
            _ => Err(not_a_number("number2"@, b)),
        },
        _ => Err(not_a_number("number1"@, a)),
    }
}

/// What a call of the function `f` with the arguments `m` gives.
pub open spec fn call_result(
    f: Builtin,
    m: Map<CallArgView, Seq<Token>>,
    scope: Map<Seq<char>, ValueView>,
    selector: Seq<char>,
) -> Result<ValueView, Failure> {
    match f {
        Builtin::Comparable => match argument_value(m, 0, "number1"@, scope, selector) {
            Err(e) => Err(e),
            Ok(a) => if !(a is Dimension) {
                Err(not_a_number("number1"@, a))
            } else {
                match argument_value(
                    without_argument(m, 0, "number1"@),
                    1,
                    "number2"@,
                    scope,
                    selector,
                ) {
                    Err(e) => Err(e),
                    Ok(b) => comparable_of(a, b),
                }
            },
        },
        Builtin::Percentage => match argument_value(m, 0, "number"@, scope, selector) {
            Err(e) => Err(e),
            Ok(v) => percentage_of(v),
        },
        Builtin::Round => match argument_value(m, 0, "number"@, scope, selector) {
            Err(e) => Err(e),
            Ok(v) => transformed(Transform::Round, v),
        },
        Builtin::Ceil => match argument_value(m, 0, "number"@, scope, selector) {
            Err(e) => Err(e),
            Ok(v) => transformed(Transform::Ceil, v),
        },
        Builtin::Floor => match argument_value(m, 0, "number"@, scope, selector) {
            Err(e) => Err(e),
            Ok(v) => transformed(Transform::Floor, v),
        },
        Builtin::Abs => match argument_value(m, 0, "number"@, scope, selector) {
            Err(e) => Err(e),
            Ok(v) => transformed(Transform::Abs, v),
        },
    }
}

/// The failure for a value that is no number.
fn fail_not_a_number(param: &str, v: &Value) -> (e: SassError)
    ensures
        e@ == not_a_number(param@, v@),
{
    match v.to_css_string() {
        Ok(found) => SassError::NotANumber { param: param.to_owned(), found },
        Err(e) => e,
    }
}

/// `percentage($number)`.
pub fn percentage(v: &Value) -> (r: Result<Value, SassError>)
    ensures
        yields(r, percentage_of(v@)),
{
    match v {
        Value::Dimension(n, Unit::Unitless) => Ok(
            Value::Dimension(ratio_mul(n, &ratio_from_integer(100)), Unit::Percent),
        ),
        Value::Dimension(_, _) => match v.to_css_string() {
            Ok(found) => Err(SassError::NotUnitless { param: "number".to_owned(), found }),
            Err(e) => Err(e),
        },
        _ => Err(fail_not_a_number("number", v)),
    }
}

/// `round($number)`, `ceil($number)`, `floor($number)` or `abs($number)`,
/// as `t` says.
pub fn transform(t: Transform, v: &Value) -> (r: Result<Value, SassError>)
    ensures
        yields(r, transformed(t, v@)),
{
    match v {
        Value::Dimension(n, u) => {
            let m = match t {
                Transform::Round => ratio_round(n),
                Transform::Ceil => ratio_ceil(n),
                Transform::Floor => ratio_floor(n),
                Transform::Abs => ratio_abs(n),
            };
            Ok(Value::Dimension(m, *u))
        },
        _ => Err(fail_not_a_number("number", v)),
    }
}

/// `comparable($number1, $number2)`.
pub fn comparable(a: &Value, b: &Value) -> (r: Result<Value, SassError>)
    ensures
        yields(r, comparable_of(a@, b@)),
{
    match a {
        Value::Dimension(_, u1) => match b {
            Value::Dimension(_, u2) => Ok(Value::bool(u1.comparable(u2))),
            _ => Err(fail_not_a_number("number2", b)),
        },
        _ => Err(fail_not_a_number("number1", a)),
    }
}

/// Takes the argument for `$number` out of `args` and transforms it.
fn transform_argument(
    t: Transform,
    args: &mut CallArgs,
    scope: &Scope,
    super_selector: &Selector,
) -> (r: Result<Value, SassError>)
    ensures
        yields(
            r,
            match argument_value(old(args)@, 0, "number"@, scope@, super_selector.text@) {
                Err(e) => Err(e),
                Ok(v) => transformed(t, v),
            },
        ),
{
    match take_argument(args, 0, "number", scope, super_selector) {
        Ok(v) => transform(t, &v),
        Err(e) => Err(e),
    }
}

impl Builtin {
    /// Calls the function with the arguments `args`, which it takes by
    /// name or by place. Arguments that the function does not declare are
    /// not looked at.
    pub fn call(self, args: CallArgs, scope: &Scope, super_selector: &Selector) -> (r: Result<
        Option<Value>,
        SassError,
    >)
        ensures
            match call_result(self, args@, scope@, super_selector.text@) {
                Ok(v) => r matches Ok(Some(x)) && x@ == v,
                Err(f) => r matches Err(e) && e@ == f,
            },
    {
        let mut args = args;
        let result = match self {
            Builtin::Comparable => {
                let a = match take_argument(&mut args, 0, "number1", scope, super_selector) {
                    Ok(v) => v,
                    Err(e) => {
                        return Err(e);
                    },
                };
                match a {
                    Value::Dimension(_, _) => {},
                    _ => {
                        return Err(fail_not_a_number("number1", &a));
                    },
                }
                let b = match take_argument(&mut args, 1, "number2", scope, super_selector) {
                    Ok(v) => v,
                    Err(e) => {
                        return Err(e);
                    },
                };
                comparable(&a, &b)
            },
            Builtin::Percentage => {
                match take_argument(&mut args, 0, "number", scope, super_selector) {
                    Ok(v) => percentage(&v),
                    Err(e) => Err(e),
                }
            },
            Builtin::Round => transform_argument(Transform::Round, &mut args, scope, super_selector),
            Builtin::Ceil => transform_argument(Transform::Ceil, &mut args, scope, super_selector),
            Builtin::Floor => transform_argument(Transform::Floor, &mut args, scope, super_selector),
            Builtin::Abs => transform_argument(Transform::Abs, &mut args, scope, super_selector),
        };
        match result {
            Ok(v) => Ok(Some(v)),
            Err(e) => Err(e),
        }
    }
}

/// Puts the functions on numbers into the table, each under its name.
pub fn register(f: &mut FunctionTable)
    ensures
        final(f)@ == old(f)@.insert("percentage"@, Builtin::Percentage).insert(
            "round"@,
            Builtin::Round,
        ).insert("ceil"@, Builtin::Ceil).insert("floor"@, Builtin::Floor).insert(
            "abs"@,
            Builtin::Abs,
        ).insert("comparable"@, Builtin::Comparable),
{
    f.insert("percentage", Builtin::Percentage);
    f.insert("round", Builtin::Round);
    f.insert("ceil", Builtin::Ceil);
    f.insert("floor", Builtin::Floor);
    f.insert("abs", Builtin::Abs);
    f.insert("comparable", Builtin::Comparable);
}

} // verus!

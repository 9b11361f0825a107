//! Values and their evaluation.

use vstd::prelude::*;
use crate::color::Color;
use crate::common::ListSeparator;
use crate::common::Op;
use crate::common::QuoteKind;
use crate::error::Failure;
use crate::error::SassError;
use crate::number::Number;
use crate::number::ratio_add;
use crate::number::ratio_eq;
use crate::number::ratio_sub;
use crate::unit::Unit;
use crate::unit::convert;
use crate::unit::converted;

pub mod convert;
pub mod parse;
pub mod text;

verus! {

/// A value of the style-sheet language.
#[derive(Debug)]
pub enum Value {
    /// `!important`
    Important,
    True,
    False,
    Null,
    /// A number with its unit.
    Dimension(Number, Unit),
    /// Values in their order, and what separates them.
    List(Vec<Value>, ListSeparator),
    Color(Color),
    /// An operator with its two operands, not yet evaluated.
    BinaryOp(Box<Value>, Op, Box<Value>),
    /// A value in parentheses.
    Paren(Box<Value>),
    /// A string, with the way it was quoted.
    Ident(String, QuoteKind),
}

/// A `Value` as contracts speak of it: numbers are real numbers and
/// texts are sequences of characters.
pub enum ValueView {
    Important,
    True,
    False,
    Null,
    Dimension(real, Unit),
    List(Seq<ValueView>, ListSeparator),
    Color(Color),
    BinaryOp(Box<ValueView>, Op, Box<ValueView>),
    Paren(Box<ValueView>),
    Ident(Seq<char>, QuoteKind),
}

/// The views of the values in `items`, in their order.
pub open spec fn views(items: Seq<Value>) -> Seq<ValueView>
    decreases items,
{
    Seq::new(
        items.len(),
        |i: int|
            if 0 <= i < items.len() {
                view_of(items[i])
            } else {
                ValueView::Null
            },
    )
}

/// The view of the value `v`.
pub open spec fn view_of(v: Value) -> ValueView
    decreases v,
{
    match v {
        Value::Important => ValueView::Important,
        Value::True => ValueView::True,
        Value::False => ValueView::False,
        Value::Null => ValueView::Null,
        Value::Dimension(n, u) => ValueView::Dimension(n@, u),
        Value::List(items, sep) => ValueView::List(views(items@), sep),
        Value::Color(c) => ValueView::Color(c),
        Value::BinaryOp(l, op, r) => ValueView::BinaryOp(
            Box::new(view_of(*l)),
            op,
            Box::new(view_of(*r)),
        ),
        Value::Paren(inner) => ValueView::Paren(Box::new(view_of(*inner))),
        Value::Ident(s, q) => ValueView::Ident(s@, q),
    }
}

impl View for Value {
    type V = ValueView;

    open spec fn view(&self) -> ValueView {
        view_of(*self)
    }
}

/// Whether `got` is the result `want`: the value with that view, or the
/// failure with that view.
pub open spec fn yields(got: Result<Value, SassError>, want: Result<ValueView, Failure>) -> bool {
    match want {
        Ok(v) => got matches Ok(x) && x@ == v,
        Err(f) => got matches Err(e) && e@ == f,
    }
}

/// `True` or `False`.
pub open spec fn bool_view(b: bool) -> ValueView {
    if b {
        ValueView::True
    } else {
        ValueView::False
    }
}

/// Whether two values are the same tree. Nothing is evaluated: an
/// operator node equals only a node with the same operator and the same
/// operands. Numbers are the same when both number and unit are; strings
/// when their texts are, however they were quoted.
pub open spec fn same_value(a: ValueView, b: ValueView) -> bool
    decreases a,
{
    match a {
        ValueView::Important => b is Important,
        ValueView::True => b is True,
        ValueView::False => b is False,
        ValueView::Null => b is Null,
        ValueView::Dimension(n, u) => b matches ValueView::Dimension(m, w) && n == m && u == w,
        ValueView::List(xs, sx) => b matches ValueView::List(ys, sy) && sx == sy && xs.len()
            == ys.len() && forall|i: int| 0 <= i < xs.len() ==> same_value(xs[i], ys[i]),
        ValueView::Color(c) => b matches ValueView::Color(d) && c == d,
        ValueView::BinaryOp(l, op, r) => b matches ValueView::BinaryOp(l2, op2, r2) && op == op2
            && same_value(*l, *l2) && same_value(*r, *r2),
        ValueView::Paren(x) => b matches ValueView::Paren(y) && same_value(*x, *y),
        ValueView::Ident(s, _) => b matches ValueView::Ident(t, _) && s == t,
    }
}

/// The sum (for `Op::Plus`) or difference of two numbers with units.
///
/// The units must be comparable. The result has the unit of the left
/// number, into which the right number is converted first; where the left
/// number has no unit, the result has the unit of the right one.
pub open spec fn combined(op: Op, a: real, ua: Unit, b: real, ub: Unit) -> Result<
    ValueView,
    Failure,
> {
    let unit = if ua == Unit::Unitless {
        ub
    } else {
        ua
    };
    let rhs = if ua == Unit::Unitless || ub == Unit::Unitless {
        b
    } else {
        converted(b, ub, ua)
    };
    if !ua.comparable_with(ub) {
        Err(Failure::IncompatibleUnits(ua, ub))
    } else if op == Op::Plus {
        Ok(ValueView::Dimension(a + rhs, unit))
    } else {
        Ok(ValueView::Dimension(a - rhs, unit))
    }
}

/// The number that stands as an operand of `+` or `-`: a number itself, a
/// number in parentheses, or what an operator node evaluates to, if that is
/// a number.
pub open spec fn operand_of(v: ValueView) -> Result<(real, Unit), Failure>
    decreases v, 1int,
{
    match v {
        ValueView::Dimension(n, u) => Ok((n, u)),
        ValueView::Paren(inner) => operand_of(*inner),
        ValueView::BinaryOp(_, _, _) => match evaluated(v) {
            Ok(ValueView::Dimension(n, u)) => Ok((n, u)),
            Ok(_) => Err(Failure::InvalidOperand),
            Err(e) => Err(e),
        },
        _ => Err(Failure::InvalidOperand),
    }
}

/// What a value evaluates to.
///
/// Only an operator node changes. `+` and `-` give the sum and the
/// difference of their operands. `==` and `!=` compare their operands as
/// trees, without evaluating them. A node with any other operator stays as
/// it is.
pub open spec fn evaluated(v: ValueView) -> Result<ValueView, Failure>
    decreases v, 0int,
{
    match v {
        ValueView::BinaryOp(l, op, r) => {
            if op == Op::Plus || op == Op::Minus {
                match operand_of(*l) {
                    Err(e) => Err(e),
                    Ok((a, ua)) => match operand_of(*r) {
                        Err(e) => Err(e),
                        Ok((b, ub)) => combined(op, a, ua, b, ub),
                    },
                }
            } else if op == Op::Equal {
                Ok(bool_view(same_value(*l, *r)))
            } else if op == Op::NotEqual {
                Ok(bool_view(!same_value(*l, *r)))
            } else {
                Ok(v)
            }
        },
        _ => Ok(v),
    }
}

/// Whether a value counts as true: every value but `null` and `false`
/// does, after evaluation.
pub open spec fn truth_of(v: ValueView) -> Result<bool, Failure> {
    match evaluated(v) {
        Err(e) => Err(e),
        Ok(w) => Ok(!(w is Null || w is False)),
    }
}

/// The name of the type of a value, after evaluation: `color`, `string`,
/// `number`, `list`, `bool` or `null`, and `unknown` for `!important`, a
/// value in parentheses and an operator node that evaluates no further.
pub open spec fn kind_of(v: ValueView) -> Result<Seq<char>, Failure> {
    match evaluated(v) {
        Err(e) => Err(e),
        Ok(w) => Ok(
            match w {
                ValueView::Color(_) => "color"@,
                ValueView::Ident(_, _) => "string"@,
                ValueView::Dimension(_, _) => "number"@,
                ValueView::List(_, _) => "list"@,
                ValueView::True | ValueView::False => "bool"@,
                ValueView::Null => "null"@,
                _ => "unknown"@,
            },
        ),
    }
}

impl Clone for Value {
    fn clone(&self) -> (r: Value)
        ensures
            r@ == self@,
        decreases self,
    {
        match self {
            Value::Important => Value::Important,
            Value::True => Value::True,
            Value::False => Value::False,
            Value::Null => Value::Null,
            Value::Dimension(n, u) => Value::Dimension(n.clone(), *u),
            Value::List(items, sep) => {
                let mut copy: Vec<Value> = Vec::new();
                let mut i: usize = 0;
                while i < items.len()
                    invariant
                        i <= items.len(),
                        copy.len() == i,
                        forall|k: int| 0 <= k < i ==> (#[trigger] copy[k])@ == items[k]@,
                        decreases_to!(self => items),
                    decreases items.len() - i,
                {
                    copy.push(items[i].clone());
                    i = i + 1;
                }
                assert(views(copy@) =~= views(items@));
                Value::List(copy, *sep)
            },
            Value::Color(c) => Value::Color(*c),
            Value::BinaryOp(l, op, r) => Value::BinaryOp(
                Box::new((**l).clone()),
                *op,
                Box::new((**r).clone()),
            ),
            Value::Paren(inner) => Value::Paren(Box::new((**inner).clone())),
            Value::Ident(s, q) => Value::Ident(s.clone(), *q),
        }
    }
}

impl PartialEq for Value {
    fn eq(&self, other: &Value) -> (r: bool) {
        self.equals(other)
    }
}

impl vstd::std_specs::cmp::PartialEqSpecImpl for Value {
    open spec fn obeys_eq_spec() -> bool {
        true
    }

    open spec fn eq_spec(&self, other: &Value) -> bool {
        same_value(self@, other@)
    }
}

impl Eq for Value {

}

impl Value {
    /// `True` for `true`, `False` for `false`.
    pub fn bool(b: bool) -> (r: Value)
        ensures
            r@ == bool_view(b),
    {
        if b {
            Value::True
        } else {
            Value::False
        }
    }

    /// Whether the value is `null` itself.
    pub fn is_null(&self) -> (b: bool)
        ensures
            b == (self@ is Null),
    {
        match self {
            Value::Null => true,
            _ => false,
        }
    }

    /// The string without its quotes.
    pub fn unquote(self) -> (r: Value)
        requires
            self is Ident,
        ensures
            r@ == ValueView::Ident(self->Ident_0@, QuoteKind::Unquoted),
    {
        match self {
            Value::Ident(s, _) => Value::Ident(s, QuoteKind::Unquoted),
            other => other,
        }
    }

    /// Whether the two values are the same tree.
    pub fn equals(&self, other: &Value) -> (b: bool)
        ensures
            b == same_value(self@, other@),
        decreases self,
    {
        match self {
            Value::Important => match other {
                Value::Important => true,
                _ => false,
            },
            Value::True => match other {
                Value::True => true,
                _ => false,
            },
            Value::False => match other {
                Value::False => true,
                _ => false,
            },
            Value::Null => match other {
                Value::Null => true,
                _ => false,
            },
            Value::Dimension(n, u) => match other {
                Value::Dimension(m, w) => ratio_eq(n, m) && *u == *w,
                _ => false,
            },
            Value::List(xs, sx) => match other {
                Value::List(ys, sy) => {
                    assert(views(xs@).len() == xs.len() && views(ys@).len() == ys.len());
                    if *sx != *sy || xs.len() != ys.len() {
                        return false;
                    }
                    let mut i: usize = 0;
                    while i < xs.len()
                        invariant
                            i <= xs.len(),
                            xs.len() == ys.len(),
                            self@ == ValueView::List(views(xs@), *sx),
                            other@ == ValueView::List(views(ys@), *sy),
                            forall|k: int|
                                0 <= k < i ==> same_value(#[trigger] xs[k]@, ys[k]@),
                            decreases_to!(self => xs),
                        decreases xs.len() - i,
                    {
                        if !xs[i].equals(&ys[i]) {
                            assert(!same_value(views(xs@)[i as int], views(ys@)[i as int]));
                            return false;
                        }
                        i = i + 1;
                    }
                    assert forall|k: int| 0 <= k < views(xs@).len() implies same_value(
                        views(xs@)[k],
                        views(ys@)[k],
                    ) by {
                        assert(same_value(xs[k]@, ys[k]@));
                    }
                    true
                },
                _ => false,
            },
            Value::Color(c) => match other {
                Value::Color(d) => c.red == d.red && c.green == d.green && c.blue == d.blue,
                _ => false,
            },
            Value::BinaryOp(l, op, r) => match other {
                Value::BinaryOp(l2, op2, r2) => *op == *op2 && l.equals(l2) && r.equals(r2),
                _ => false,
            },
            Value::Paren(x) => match other {
                Value::Paren(y) => x.equals(y),
                _ => false,
            },
            Value::Ident(s, _) => match other {
                Value::Ident(t, _) => *s == *t,
                _ => false,
            },
        }
    }

    /// The number that stands as an operand of `+` or `-`.
    fn operand(&self) -> (r: Result<(Number, Unit), SassError>)
        ensures
            match operand_of(self@) {
                Ok((n, u)) => r matches Ok((m, w)) && m@ == n && w == u,
                Err(f) => r matches Err(e) && e@ == f,
            },
        decreases self, 1int,
    {
        match self {
            Value::Dimension(n, u) => Ok((n.clone(), *u)),
            Value::Paren(inner) => inner.operand(),
            Value::BinaryOp(_, _, _) => match self.eval() {
                Ok(Value::Dimension(n, u)) => Ok((n, u)),
                Ok(_) => Err(SassError::InvalidOperand),
                Err(e) => Err(e),
            },
            _ => Err(SassError::InvalidOperand),
        }
    }

    /// Evaluates the value. An operator node is reduced; every other value
    /// is returned as it is.
    pub fn eval(&self) -> (r: Result<Value, SassError>)
        ensures
            match evaluated(self@) {
                Ok(v) => r matches Ok(x) && x@ == v,
                Err(f) => r matches Err(e) && e@ == f,
            },
        decreases self, 0int,
    {
        match self {
            Value::BinaryOp(lhs, op, rhs) => match op {
                Op::Plus | Op::Minus => {
                    let (a, ua) = match lhs.operand() {
                        Ok(x) => x,
                        Err(e) => {
                            return Err(e);
                        },
                    };
                    let (b, ub) = match rhs.operand() {
                        Ok(x) => x,
                        Err(e) => {
                            return Err(e);
                        },
                    };
                    combine(*op, &a, ua, &b, ub)
                },
                Op::Equal => Ok(Value::bool(lhs.equals(rhs))),
                Op::NotEqual => Ok(Value::bool(!lhs.equals(rhs))),
                _ => Ok(self.clone()),
            },
            _ => Ok(self.clone()),
        }
    }

    /// Whether the value counts as true.
    pub fn is_true(&self) -> (r: Result<bool, SassError>)
        ensures
            match truth_of(self@) {
                Ok(b) => r == Ok::<bool, SassError>(b),
                Err(f) => r matches Err(e) && e@ == f,
            },
    {
        match self {
            Value::Null | Value::False => Ok(false),
            Value::BinaryOp(_, _, _) => match self.eval() {
                Err(e) => Err(e),
                Ok(Value::Null) | Ok(Value::False) => Ok(false),
                Ok(_) => Ok(true),
            },
            _ => Ok(true),
        }
    }

    /// The name of the type of the value.
    pub fn kind(&self) -> (r: Result<&'static str, SassError>)
        ensures
            match kind_of(self@) {
                Ok(s) => r matches Ok(t) && t@ == s,
                Err(f) => r matches Err(e) && e@ == f,
            },
    {
        match self {
            Value::BinaryOp(_, _, _) => match self.eval() {
                Err(e) => Err(e),
                Ok(v) => Ok(v.plain_kind()),
            },
            _ => Ok(self.plain_kind()),
        }
    }

    /// The name of the type of the value as it stands.
    fn plain_kind(&self) -> (s: &'static str)
        ensures
            s@ == match self@ {
                ValueView::Color(_) => "color"@,
                ValueView::Ident(_, _) => "string"@,
                ValueView::Dimension(_, _) => "number"@,
                ValueView::List(_, _) => "list"@,
                ValueView::True | ValueView::False => "bool"@,
                ValueView::Null => "null"@,
                _ => "unknown"@,
            },
    {
        match self {
            Value::Color(_) => "color",
            Value::Ident(_, _) => "string",
            Value::Dimension(_, _) => "number",
            Value::List(_, _) => "list",
            Value::True | Value::False => "bool",
            Value::Null => "null",
            _ => "unknown",
        }
    }
}

/// Adds or subtracts two numbers with units.
pub fn combine(op: Op, a: &Number, ua: Unit, b: &Number, ub: Unit) -> (r: Result<Value, SassError>)
    ensures
        match combined(op, a@, ua, b@, ub) {
            Ok(v) => r matches Ok(x) && x@ == v,
            Err(f) => r matches Err(e) && e@ == f,
        },
{
    if !ua.comparable(&ub) {
        return Err(SassError::IncompatibleUnits(ua, ub));
    }
    let unit = if ua == Unit::Unitless {
        ub
    } else {
        ua
    };
    let rhs = if ua == Unit::Unitless || ub == Unit::Unitless {
        b.clone()
    } else {
        convert(b, ub, ua)
    };
    if op == Op::Plus {
        Ok(Value::Dimension(ratio_add(a, &rhs), unit))
    } else {
        Ok(Value::Dimension(ratio_sub(a, &rhs), unit))
    }
}

/// Adding nothing changes nothing: a number plus zero of the same unit
/// evaluates to the number itself.
pub proof fn lemma_plus_zero(x: real, u: Unit)
    ensures
        evaluated(
            ValueView::BinaryOp(
                Box::new(ValueView::Dimension(x, u)),
                Op::Plus,
                Box::new(ValueView::Dimension(0 as real, u)),
            ),
        ) == Ok::<ValueView, Failure>(ValueView::Dimension(x, u)),
{
}

} // verus!

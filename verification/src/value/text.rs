//! Values as text.

use vstd::prelude::*;
use crate::common::ListSeparator;
use crate::error::Failure;
use crate::error::SassError;
use crate::number::number_text;
use crate::number::ratio_to_text;
use crate::utils::push_str;
use crate::utils::string_from_chars;
use crate::value::Value;
use crate::value::ValueView;
use crate::value::evaluated;
use crate::value::views;

verus! {

/// The text of the first `n` members of a list, with the separator
/// between them.
pub open spec fn list_text(items: Seq<ValueView>, sep: ListSeparator, n: nat) -> Result<
    Seq<char>,
    Failure,
>
    decreases items, n,
{
    if n == 0 || n > items.len() {
        Ok(Seq::empty())
    } else {
        match list_text(items, sep, (n - 1) as nat) {
            Err(f) => Err(f),
            Ok(front) => match css_text(items[n - 1]) {
                Err(f) => Err(f),
                Ok(t) => Ok(
                    if n == 1 {
                        t
                    } else {
                        front + sep.text() + t
                    },
                ),
            },
        }
    }
}

/// The text of a value that holds no other value.
pub open spec fn plain_text(v: ValueView) -> Seq<char> {
    match v {
        ValueView::Important => "!important"@,
        ValueView::True => "true"@,
        ValueView::False => "false"@,
        ValueView::Null => "null"@,
        ValueView::Dimension(n, u) => number_text(n) + u.suffix(),
        ValueView::Color(c) => c.text(),
        ValueView::Ident(s, q) => q.mark() + s + q.mark(),
        _ => Seq::empty(),
    }
}

/// A value as it is written in a style sheet.
///
/// A number is followed by its unit. The members of a list are joined by
/// its separator. A quoted string stands between its quotes. A value in
/// parentheses is written without them. An operator node is written as
/// what it evaluates to; one that does not evaluate further is written as
/// its operands with the operator between them.
pub open spec fn css_text(v: ValueView) -> Result<Seq<char>, Failure>
    decreases v, 0nat,
{
    match v {
        ValueView::List(items, sep) => list_text(items, sep, items.len()),
        ValueView::Paren(inner) => css_text(*inner),
        ValueView::BinaryOp(l, op, r) => match evaluated(v) {
            Err(f) => Err(f),
            Ok(ValueView::BinaryOp(_, _, _)) => match css_text(*l) {
                Err(f) => Err(f),
                Ok(a) => match css_text(*r) {
                    Err(f) => Err(f),
                    Ok(b) => Ok(a + seq![' '] + op.text() + seq![' '] + b),
                },
            },
            Ok(w) => Ok(plain_text(w)),
        },
        _ => Ok(plain_text(v)),
    }
}

/// A failure among the first members of a list is the failure of the
/// whole list.
pub proof fn lemma_list_text_failure(items: Seq<ValueView>, sep: ListSeparator, k: nat, n: nat)
    requires
        k <= n <= items.len(),
        list_text(items, sep, k) is Err,
    ensures
        list_text(items, sep, n) == list_text(items, sep, k),
    decreases n,
{
    if k < n {
        lemma_list_text_failure(items, sep, k, (n - 1) as nat);
    }
}

impl Value {
    /// The value as it is written in a style sheet.
    pub fn to_css_string(&self) -> (r: Result<String, SassError>)
        ensures
            match css_text(self@) {
                Ok(t) => r matches Ok(s) && s@ == t,
                Err(f) => r matches Err(e) && e@ == f,
            },
    {
        let mut out: Vec<char> = Vec::new();
        match self.write_css(&mut out) {
            Ok(()) => Ok(string_from_chars(&out)),
            Err(e) => Err(e),
        }
    }

    /// Writes a value that holds no other value behind what `out` holds.
    fn write_plain(&self, out: &mut Vec<char>)
        ensures
            final(out)@ == old(out)@ + plain_text(self@),
    {
        match self {
            Value::Important => push_str(out, "!important"),
            Value::True => push_str(out, "true"),
            Value::False => push_str(out, "false"),
            Value::Null => push_str(out, "null"),
            Value::Dimension(n, u) => {
                let text = ratio_to_text(n);
                push_str(out, text.as_str());
                push_str(out, u.as_str());
                assert(out@ =~= old(out)@ + (number_text(n@) + u.suffix()));
            },
            Value::Color(c) => c.write(out),
            Value::Ident(s, q) => {
                push_str(out, q.as_str());
                push_str(out, s.as_str());
                push_str(out, q.as_str());
                assert(out@ =~= old(out)@ + (q.mark() + s@ + q.mark()));
            },
            _ => {
                assert(out@ =~= old(out)@ + Seq::<char>::empty());
            },
        }
    }

    /// Writes the value behind what `out` holds. On failure `out` may hold
    /// a part of the text.
    fn write_css(&self, out: &mut Vec<char>) -> (r: Result<(), SassError>)
        ensures
            match css_text(self@) {
                Ok(t) => r is Ok && final(out)@ == old(out)@ + t,
                Err(f) => r matches Err(e) && e@ == f,
            },
        decreases self,
    {
        match self {
            Value::List(items, sep) => {
                let ghost start = out@;
                let mut i: usize = 0;
                assert(out@ =~= start + Seq::<char>::empty());
                while i < items.len()
                    invariant
                        i <= items.len(),
                        views(items@).len() == items.len(),
                        self@ == ValueView::List(views(items@), *sep),
                        decreases_to!(self => items),
                        list_text(views(items@), *sep, i as nat) matches Ok(t) && out@ == start
                            + t,
                    decreases items.len() - i,
                {
                    let ghost front = list_text(views(items@), *sep, i as nat)->Ok_0;
                    if i > 0 {
                        push_str(out, sep.as_str());
                    }
                    assert(views(items@)[i as int] == items[i as int]@);
                    match items[i].write_css(out) {
                        Err(e) => {
                            proof {
                                lemma_list_text_failure(
                                    views(items@),
                                    *sep,
                                    (i + 1) as nat,
                                    items.len() as nat,
                                );
                            }
                            return Err(e);
                        },
                        Ok(()) => {
                            proof {
                                let t = css_text(items[i as int]@)->Ok_0;
                                if i > 0 {
                                    assert(out@ =~= start + (front + sep.text() + t));
                                } else {
                                    assert(front =~= Seq::<char>::empty());
                                    assert(out@ =~= start + t);
                                }
                            }
                        },
                    }
                    i = i + 1;
                }
                Ok(())
            },
            Value::Paren(inner) => inner.write_css(out),
            Value::BinaryOp(l, op, r) => match self.eval() {
                Err(e) => Err(e),
                Ok(Value::BinaryOp(_, _, _)) => {
                    match l.write_css(out) {
                        Err(e) => {
                            return Err(e);
                        },
                        Ok(()) => {},
                    }
                    out.push(' ');
                    push_str(out, op.as_str());
                    out.push(' ');
                    let ghost middle = out@;
                    match r.write_css(out) {
                        Err(e) => {
                            return Err(e);
                        },
                        Ok(()) => {},
                    }
                    proof {
                        let a = css_text(l@)->Ok_0;
                        let b = css_text(r@)->Ok_0;
                        assert(middle =~= old(out)@ + a + seq![' '] + op.text() + seq![' ']);
                        assert(out@ =~= old(out)@ + (a + seq![' '] + op.text() + seq![' '] + b));
                    }
                    Ok(())
                },
                Ok(w) => {
                    w.write_plain(out);
                    Ok(())
                },
            },
            _ => {
                self.write_plain(out);
                Ok(())
            },
        }
    }
}

} // verus!

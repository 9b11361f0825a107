//! Binding the arguments of a call to the declared parameters.

use vstd::prelude::*;
use crate::args::CallArgView;
use crate::args::CallArgs;
use crate::args::FuncArg;
use crate::args::FuncArgView;
use crate::args::FuncArgs;
use crate::args::rest::has_named;
use crate::args::rest::least_name;
use crate::args::rest::rest_values;
use crate::common::ListSeparator;
use crate::error::Failure;
use crate::error::SassError;
use crate::scope::Scope;
use crate::selector::Selector;
use crate::token::Token;
use crate::token::TokenCursor;
use crate::utils::copy_span;
use crate::value::Value;
use crate::value::ValueView;
use crate::value::parse::value_of;

verus! {

/// What the binding of a parameter leaves: the scope of the callee with
/// the parameter in it, and the arguments that were not used.
pub struct Bound {
    pub scope: Map<Seq<char>, ValueView>,
    pub left: Map<CallArgView, Seq<Token>>,
}

/// Binds the parameter `p`, which stands at place `place` of its list.
///
/// A variadic parameter takes all arguments that are left, as a list with
/// commas. Any other takes the argument of its name, else the positional
/// argument at its place, both evaluated in the scope of the caller; else
/// its default, evaluated in the scope of the callee as the parameters
/// before it have left it. With none of these the binding fails.
pub open spec fn bind_one(
    p: FuncArgView,
    place: nat,
    m: Map<CallArgView, Seq<Token>>,
    caller: Map<Seq<char>, ValueView>,
    callee: Map<Seq<char>, ValueView>,
    selector: Seq<char>,
) -> Result<Bound, Failure> {
    if p.is_variadic {
        match rest_values(m, caller, selector) {
            Err(f) => Err(f),
            Ok(vs) => Ok(
                Bound {
                    scope: callee.insert(p.name, ValueView::List(vs, ListSeparator::Comma)),
                    left: Map::empty(),
                },
            ),
        }
    } else {
        let key = if m.contains_key(CallArgView::Named(p.name)) {
            CallArgView::Named(p.name)
        } else {
            CallArgView::Positional(place)
        };
        let given = if m.contains_key(key) {
            value_of(m[key], caller, selector)
        } else {
            match p.default {
                Some(d) => value_of(d, callee, selector),
                None => Err(Failure::MissingArgument(p.name)),
            }
        };
        match given {
            Err(f) => Err(f),
            Ok(v) => Ok(Bound { scope: callee.insert(p.name, v), left: m.remove(key) }),
        }
    }
}

/// Binds the parameters of `params` from place `i` on, in their order.
/// When all are bound, an argument that is left is a failure: one with a
/// name because no parameter has that name, a positional one because
/// there are too many.
pub open spec fn bind_from(
    params: Seq<FuncArgView>,
    i: nat,
    m: Map<CallArgView, Seq<Token>>,
    caller: Map<Seq<char>, ValueView>,
    callee: Map<Seq<char>, ValueView>,
    selector: Seq<char>,
) -> Result<Map<Seq<char>, ValueView>, Failure>
    decreases params.len() - i,
{
    if i >= params.len() {
        if has_named(m) {
            Err(Failure::UnknownArgument(least_name(m)))
        } else if m != Map::<CallArgView, Seq<Token>>::empty() {
            Err(Failure::TooManyArguments)
        } else {
            Ok(callee)
        }
    } else {
        match bind_one(params[i as int], i, m, caller, callee, selector) {
            Err(f) => Err(f),
            Ok(b) => bind_from(params, i + 1, b.left, caller, b.scope, selector),
        }
    }
}

/// Binds one parameter and puts it into `scope`.
fn bind_param(
    param: &FuncArg,
    place: usize,
    args: &mut CallArgs,
    caller: &Scope,
    scope: &mut Scope,
    super_selector: &Selector,
) -> (r: Result<(), SassError>)
    ensures
        match bind_one(
            param@,
            place as nat,
            old(args)@,
            caller@,
            old(scope)@,
            super_selector.text@,
        ) {
            Ok(b) => r is Ok && final(scope)@ == b.scope && final(args)@ == b.left,
            Err(f) => r matches Err(e) && e@ == f,
        },
{
    if param.is_variadic {
        let mut rest = CallArgs::new();
        core::mem::swap(args, &mut rest);
        match rest.get_variadic(caller, super_selector) {
            Err(e) => Err(e),
            Ok(values) => {
                scope.insert_var(param.name.clone(), Value::List(values, ListSeparator::Comma));
                Ok(())
            },
        }
    } else {
        let found = match args.get_named(param.name.clone(), caller, super_selector) {
            Some(v) => Some(v),
            None => {
                assert(args@ =~= old(args)@);
                args.get_positional(place, caller, super_selector)
            },
        };
        let given = match found {
            Some(v) => v,
            None => match &param.default {
                Some(d) => {
                    let tokens = copy_span(d, 0, d.len());
                    assert(tokens@ =~= d@);
                    let mut toks = TokenCursor::new(tokens);
                    Value::from_tokens(&mut toks, &*scope, super_selector)
                },
                None => Err(SassError::MissingArgument(param.name.clone())),
            },
        };
        match given {
            Err(e) => Err(e),
            Ok(v) => {
                scope.insert_var(param.name.clone(), v);
                Ok(())
            },
        }
    }
}

/// Binds the arguments `args` of a call to the parameters `params`, and
/// gives the scope of the callee with the parameters in it.
///
/// Arguments are evaluated in the scope `caller`, defaults in the scope
/// `callee` with the parameters before them. A failure about a named
/// argument names the first at fault in the order of the dictionary.
pub fn bind(
    params: &FuncArgs,
    args: CallArgs,
    caller: &Scope,
    callee: &Scope,
    super_selector: &Selector,
) -> (r: Result<Scope, SassError>)
    ensures
        match bind_from(params@, 0, args@, caller@, callee@, super_selector.text@) {
            Ok(s) => r matches Ok(x) && x@ == s,
            Err(f) => r matches Err(e) && e@ == f,
        },
{
    let ghost whole = bind_from(params@, 0, args@, caller@, callee@, super_selector.text@);
    let mut left = args;
    let mut scope = callee.clone();
    let mut i: usize = 0;
    while i < params.0.len()
        invariant
            i <= params.0.len(),
            params@.len() == params.0.len(),
            whole == bind_from(params@, 0, args@, caller@, callee@, super_selector.text@),
            bind_from(params@, i as nat, left@, caller@, scope@, super_selector.text@) == whole,
        decreases params.0.len() - i,
    {
        assert(params@[i as int] == params.0[i as int]@);
        match bind_param(&params.0[i], i, &mut left, caller, &mut scope, super_selector) {
            Err(e) => {
                return Err(e);
            },
            Ok(()) => {},
        }
        i = i + 1;
    }
    match left.least_name() {
        Some(n) => Err(SassError::UnknownArgument(n)),
        None => {
            if left.is_empty() {
                Ok(scope)
            } else {
                Err(SassError::TooManyArguments)
            }
        },
    }
}

} // verus!

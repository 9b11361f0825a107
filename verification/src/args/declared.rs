//! Reading a declared parameter list.

use vstd::prelude::*;
use crate::args::FuncArg;
use crate::args::FuncArgView;
use crate::args::FuncArgs;
use crate::error::Failure;
use crate::error::SassError;
use crate::error::SyntaxError;
use crate::token::Token;
use crate::token::TokenCursor;
use crate::utils::copy_span;
use crate::utils::ident_end;
use crate::utils::lemma_ident_end;
use crate::utils::lemma_value_end;
use crate::utils::lemma_whitespace_end;
use crate::utils::name_of;
use crate::utils::read_name;
use crate::utils::skip_ident;
use crate::utils::skip_value;
use crate::utils::skip_whitespace;
use crate::utils::value_end;
use crate::utils::whitespace_end;

verus! {

/// A parameter read from a list, with the index just past what ended it and
/// whether that was the closing parenthesis of the list.
pub struct ParsedParam {
    pub arg: FuncArgView,
    pub next: int,
    pub last: bool,
}

/// The parameter whose name starts at `i`, just past its `$`.
///
/// After the name comes one of: `:` and a default value that runs to the
/// next `,` or `)` outside every quoted string and group; `...` and the
/// closing `)`, which makes the parameter variadic; `)`; or `,`.
pub open spec fn param_at(s: Seq<Token>, i: int) -> Result<ParsedParam, SyntaxError> {
    let e = ident_end(s, i);
    let j = whitespace_end(s, e);
    if e == i {
        Err(SyntaxError::ExpectedIdentifier)
    } else if j >= s.len() {
        Err(SyntaxError::UnexpectedEof)
    } else if s[j].kind == ':' {
        let from = whitespace_end(s, j + 1);
        let to = value_end(s, from);
        if to >= s.len() {
            Err(SyntaxError::UnexpectedEof)
        } else {
            Ok(
                ParsedParam {
                    arg: FuncArgView {
                        name: name_of(s, i, e),
                        default: Some(s.subrange(from, to)),
                        is_variadic: false,
                    },
                    next: to + 1,
                    last: s[to].kind == ')',
                },
            )
        }
    } else if s[j].kind == '.' {
        let k = whitespace_end(s, j + 3);
        if !(j + 2 < s.len() && s[j + 1].kind == '.' && s[j + 2].kind == '.') {
            Err(SyntaxError::ExpectedDot)
        } else if !(k < s.len() && s[k].kind == ')') {
            Err(SyntaxError::ExpectedCloseParen)
        } else {
            Ok(
                ParsedParam {
                    arg: FuncArgView {
                        name: name_of(s, i, e),
                        default: Some(Seq::empty()),
                        is_variadic: true,
                    },
                    next: k + 1,
                    last: true,
                },
            )
        }
    } else if s[j].kind == ')' || s[j].kind == ',' {
        Ok(
            ParsedParam {
                arg: FuncArgView { name: name_of(s, i, e), default: None, is_variadic: false },
                next: j + 1,
                last: s[j].kind == ')',
            },
        )
    } else {
        Err(SyntaxError::UnexpectedToken)
    }
}

/// A parameter takes at least one token and ends within the tokens; a
/// variadic one ends the list.
pub proof fn lemma_param_at(s: Seq<Token>, i: int)
    requires
        0 <= i <= s.len(),
    ensures
        param_at(s, i) matches Ok(p) ==> i < p.next <= s.len() && (p.arg.is_variadic ==> p.last),
{
    lemma_ident_end(s, i);
    let e = ident_end(s, i);
    lemma_whitespace_end(s, e);
    let j = whitespace_end(s, e);
    if j < s.len() {
        lemma_whitespace_end(s, j + 1);
        lemma_value_end(s, whitespace_end(s, j + 1));
        if j + 3 <= s.len() {
            lemma_whitespace_end(s, j + 3);
        }
    }
}

/// The parameters from index `i` on, where a parameter or the closing `)`
/// of the list must start, with the index just past that `)`.
pub open spec fn params_from(s: Seq<Token>, i: int) -> Result<(Seq<FuncArgView>, int), SyntaxError>
    decreases s.len() - i,
{
    if i < 0 || i >= s.len() {
        Err(SyntaxError::UnexpectedEof)
    } else if s[i].kind == ')' {
        Ok((Seq::empty(), i + 1))
    } else if s[i].kind != '$' {
        Err(SyntaxError::ExpectedParameter)
    } else {
        match param_at(s, i + 1) {
            Err(e) => Err(e),
            Ok(p) => {
                if p.last {
                    Ok((seq![p.arg], p.next))
                } else {
                    proof {
                        lemma_param_at(s, i + 1);
                        lemma_whitespace_end(s, p.next);
                    }
                    match params_from(s, whitespace_end(s, p.next)) {
                        Err(e) => Err(e),
                        Ok((rest, end)) => Ok((seq![p.arg] + rest, end)),
                    }
                }
            },
        }
    }
}

/// A declared parameter list. `i` is the index just past its opening `(`;
/// after its closing `)` a `{` must follow. Gives the parameters and the
/// index just past that `{`.
pub open spec fn func_args_at(s: Seq<Token>, i: int) -> Result<(Seq<FuncArgView>, int), SyntaxError> {
    match params_from(s, whitespace_end(s, i)) {
        Err(e) => Err(e),
        Ok((args, end)) => {
            let k = whitespace_end(s, end);
            if k < s.len() && s[k].kind == '{' {
                Ok((args, k + 1))
            } else {
                Err(SyntaxError::ExpectedOpenBrace)
            }
        },
    }
}

/// In every parameter list that parses, only the last parameter can be
/// variadic: a list with `...` anywhere else does not parse.
pub proof fn lemma_variadic_is_last(s: Seq<Token>, i: int)
    requires
        0 <= i <= s.len(),
    ensures
        params_from(s, i) matches Ok((args, end)) ==> {
            &&& i < end <= s.len()
            &&& forall|k: int| 0 <= k < args.len() - 1 ==> !(#[trigger] args[k]).is_variadic
        },
    decreases s.len() - i,
{
    if i < s.len() && s[i].kind == '$' {
        lemma_param_at(s, i + 1);
        if let Ok(p) = param_at(s, i + 1) {
            if !p.last {
                lemma_whitespace_end(s, p.next);
                lemma_variadic_is_last(s, whitespace_end(s, p.next));
            }
        }
    }
}

/// In every declaration that parses, only the last parameter can be
/// variadic, and the declaration ends within the tokens.
pub proof fn lemma_func_args_variadic_is_last(s: Seq<Token>, i: int)
    requires
        0 <= i <= s.len(),
    ensures
        func_args_at(s, i) matches Ok((args, end)) ==> {
            &&& i < end <= s.len()
            &&& forall|k: int| 0 <= k < args.len() - 1 ==> !(#[trigger] args[k]).is_variadic
        },
{
    lemma_whitespace_end(s, i);
    lemma_variadic_is_last(s, whitespace_end(s, i));
    if let Ok((args, end)) = params_from(s, whitespace_end(s, i)) {
        lemma_whitespace_end(s, end);
    }
}

/// What `parse_param` gives: the parameter, the index just past what ended
/// it, and whether that was the closing parenthesis.
struct Param {
    arg: FuncArg,
    next: usize,
    last: bool,
}

fn parse_param(toks: &Vec<Token>, i: usize) -> (r: Result<Param, SyntaxError>)
    requires
        i <= toks.len(),
    ensures
        match param_at(toks@, i as int) {
            Ok(p) => r matches Ok(q) && q.arg@ == p.arg && q.next == p.next && q.last == p.last,
            Err(e) => r == Err::<Param, SyntaxError>(e),
        },
{
    let e = skip_ident(toks, i);
    if e == i {
        return Err(SyntaxError::ExpectedIdentifier);
    }
    let j = skip_whitespace(toks, e);
    if j >= toks.len() {
        return Err(SyntaxError::UnexpectedEof);
    }
    let c = toks[j].kind;
    if c == ':' {
        let from = skip_whitespace(toks, j + 1);
        let to = skip_value(toks, from);
        if to >= toks.len() {
            return Err(SyntaxError::UnexpectedEof);
        }
        Ok(
            Param {
                arg: FuncArg {
                    name: read_name(toks, i, e),
                    default: Some(copy_span(toks, from, to)),
                    is_variadic: false,
                },
                next: to + 1,
                last: toks[to].kind == ')',
            },
        )
    } else if c == '.' {
        if !(toks.len() - j > 2 && toks[j + 1].kind == '.' && toks[j + 2].kind == '.') {
            return Err(SyntaxError::ExpectedDot);
        }
        let k = skip_whitespace(toks, j + 3);
        if !(k < toks.len() && toks[k].kind == ')') {
            return Err(SyntaxError::ExpectedCloseParen);
        }
        Ok(
            Param {
                arg: FuncArg {
                    name: read_name(toks, i, e),
                    default: Some(Vec::new()),
                    is_variadic: true,
                },
                next: k + 1,
                last: true,
            },
        )
    } else if c == ')' || c == ',' {
        Ok(
            Param {
                arg: FuncArg { name: read_name(toks, i, e), default: None, is_variadic: false },
                next: j + 1,
                last: c == ')',
            },
        )
    } else {
        Err(SyntaxError::UnexpectedToken)
    }
}

/// `params_from(s, i)` with the parameters `done` put in front of the list.
spec fn params_after(done: Seq<FuncArgView>, s: Seq<Token>, i: int) -> Result<
    (Seq<FuncArgView>, int),
    SyntaxError,
> {
    match params_from(s, i) {
        Err(e) => Err(e),
        Ok((rest, end)) => Ok((done + rest, end)),
    }
}

fn parse_params(toks: &Vec<Token>, start: usize) -> (r: Result<(FuncArgs, usize), SyntaxError>)
    requires
        start <= toks.len(),
    ensures
        match params_from(toks@, start as int) {
            Ok((args, end)) => r matches Ok((a, e)) && a@ == args && e == end && e <= toks.len(),
            Err(e) => r == Err::<(FuncArgs, usize), SyntaxError>(e),
        },
{
    let mut args: Vec<FuncArg> = Vec::new();
    let mut i = start;
    let ghost whole = params_from(toks@, start as int);
    assert(params_after(args@.map_values(|a: FuncArg| a@), toks@, i as int) == whole) by {
        assert(args@.map_values(|a: FuncArg| a@) =~= Seq::<FuncArgView>::empty());
        if let Ok((rest, end)) = params_from(toks@, i as int) {
            assert(Seq::<FuncArgView>::empty() + rest =~= rest);
        }
    }
    loop
        invariant
            i <= toks.len(),
            whole == params_from(toks@, start as int),
            params_after(args@.map_values(|a: FuncArg| a@), toks@, i as int) == whole,
        decreases toks.len() - i,
    {
        let ghost done = args@.map_values(|a: FuncArg| a@);
        if i >= toks.len() {
            return Err(SyntaxError::UnexpectedEof);
        }
        let c = toks[i].kind;
        if c == ')' {
            assert(done + Seq::<FuncArgView>::empty() =~= done);
            return Ok((FuncArgs(args), i + 1));
        }
        if c != '$' {
            return Err(SyntaxError::ExpectedParameter);
        }
        match parse_param(toks, i + 1) {
            Err(e) => {
                return Err(e);
            },
            Ok(p) => {
                proof {
                    lemma_param_at(toks@, i + 1);
                }
                let ghost pv = p.arg@;
                args.push(p.arg);
                assert(args@.map_values(|a: FuncArg| a@) =~= done + seq![pv]);
                if p.last {
                    return Ok((FuncArgs(args), p.next));
                }
                let next = skip_whitespace(toks, p.next);
                proof {
                    if let Ok((rest, end)) = params_from(toks@, next as int) {
                        assert((done + seq![pv]) + rest =~= done + (seq![pv] + rest));
                    }
                }
                i = next;
            },
        }
    }
}

/// Reads a declared parameter list. The cursor stands just past the opening
/// `(`; on success it is left just past the `{` that follows the list, on
/// failure where it stood.
pub fn eat_func_args(toks: &mut TokenCursor) -> (r: Result<FuncArgs, SassError>)
    ensures
        final(toks).tokens() == old(toks).tokens(),
        match func_args_at(old(toks).tokens(), old(toks).position()) {
            Ok((args, end)) => r matches Ok(a) && a@ == args && final(toks).position() == end,
            Err(e) => r matches Err(f) && f@ == Failure::Syntax(e)
                && final(toks).position() == old(toks).position(),
        },
{
    let start = toks.pos();
    let first = skip_whitespace(toks.as_vec(), start);
    match parse_params(toks.as_vec(), first) {
        Err(e) => Err(SassError::Syntax(e)),
        Ok((args, end)) => {
            let k = skip_whitespace(toks.as_vec(), end);
            if k < toks.as_vec().len() && toks.as_vec()[k].kind == '{' {
                toks.seek(k + 1);
                Ok(args)
            } else {
                Err(SassError::Syntax(SyntaxError::ExpectedOpenBrace))
            }
        },
    }
}

} // verus!

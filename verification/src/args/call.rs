//! Reading the arguments of a call.

use vstd::prelude::*;
use crate::args::CallArg;
use crate::args::CallArgView;
use crate::args::CallArgs;
use crate::error::Failure;
use crate::error::SassError;
use crate::error::SyntaxError;
use crate::token::Token;
use crate::token::TokenCursor;
use crate::utils::copy_span;
use crate::utils::ident_end;
use crate::utils::lemma_ident_end;
use crate::utils::lemma_value_end;
use crate::utils::lemma_whitespace_end;
use crate::utils::name_of;
use crate::utils::read_name;
use crate::utils::skip_ident;
use crate::utils::skip_value;
use crate::utils::skip_whitespace;
use crate::utils::value_end;
use crate::utils::whitespace_end;

verus! {

/// One argument read from a call: its name where it has one, and the span
/// of the tokens of its value.
pub struct ParsedArg {
    pub name: Option<Seq<char>>,
    pub from: int,
    pub to: int,
}

/// The argument that starts at `i`. `$name:` in front makes it a named
/// argument; anything else is the start of a positional one. Its value
/// runs up to the next `,` or `)` outside every quoted string and group.
pub open spec fn arg_at(s: Seq<Token>, i: int) -> ParsedArg {
    let e = ident_end(s, i + 1);
    let j = whitespace_end(s, e);
    if 0 <= i < s.len() && s[i].kind == '$' && e > i + 1 && j < s.len() && s[j].kind == ':' {
        let from = whitespace_end(s, j + 1);
        ParsedArg { name: Some(name_of(s, i + 1, e)), from, to: value_end(s, from) }
    } else {
        ParsedArg { name: None, from: i, to: value_end(s, i) }
    }
}

/// The value of an argument lies within the tokens, behind the start of
/// the argument, and ends at a `,` or `)` if it ends at all.
pub proof fn lemma_arg_at(s: Seq<Token>, i: int)
    requires
        0 <= i < s.len(),
    ensures
        i <= arg_at(s, i).from <= arg_at(s, i).to <= s.len(),
        arg_at(s, i).to < s.len() ==> s[arg_at(s, i).to].kind == ',' || s[arg_at(s, i).to].kind
            == ')',
{
    lemma_ident_end(s, i + 1);
    let e = ident_end(s, i + 1);
    lemma_whitespace_end(s, e);
    let j = whitespace_end(s, e);
    if j < s.len() {
        lemma_whitespace_end(s, j + 1);
        lemma_value_end(s, whitespace_end(s, j + 1));
    }
    lemma_value_end(s, i);
}

/// The arguments of a call, with the number of positional ones among them
/// and the index just past the closing `)`.
pub struct ParsedCall {
    pub args: Map<CallArgView, Seq<Token>>,
    pub positional: nat,
    pub end: int,
}

/// The rest of an argument list from index `i` on, where an argument or the
/// closing `)` must start, added to the arguments `acc` read so far, of
/// which `positional` had no name.
///
/// A positional argument gets the number of positional arguments before it
/// as its place. A name that occurs a second time is a failure, and so is
/// the end of the tokens before the closing `)`.
pub open spec fn call_args_from(
    s: Seq<Token>,
    i: int,
    acc: Map<CallArgView, Seq<Token>>,
    positional: nat,
) -> Result<ParsedCall, Failure>
    decreases s.len() - i,
{
    if i < 0 || i >= s.len() {
        Err(Failure::Syntax(SyntaxError::UnexpectedEof))
    } else if s[i].kind == ')' {
        Ok(ParsedCall { args: acc, positional, end: i + 1 })
    } else {
        let a = arg_at(s, i);
        if a.to >= s.len() {
            Err(Failure::Syntax(SyntaxError::UnexpectedEof))
        } else {
            let key = match a.name {
                Some(n) => CallArgView::Named(n),
                None => CallArgView::Positional(positional),
            };
            let count = match a.name {
                Some(_) => positional,
                None => positional + 1,
            };
            let args = acc.insert(key, s.subrange(a.from, a.to));
            if a.name is Some && acc.contains_key(key) {
                Err(Failure::DuplicateArgument(a.name.unwrap()))
            } else if s[a.to].kind == ')' {
                Ok(ParsedCall { args, positional: count, end: a.to + 1 })
            } else {
                proof {
                    lemma_arg_at(s, i);
                    lemma_whitespace_end(s, a.to + 1);
                }
                call_args_from(s, whitespace_end(s, a.to + 1), args, count)
            }
        }
    }
}

/// The argument list whose opening `(` lies just before `i`.
pub open spec fn call_args_at(s: Seq<Token>, i: int) -> Result<ParsedCall, Failure> {
    call_args_from(s, whitespace_end(s, i), Map::empty(), 0)
}


/// The positional arguments of a call take the places 0, 1, 2, ... without
/// a gap, up to their number; an argument with a name takes no place.
pub proof fn lemma_positions_from(
    s: Seq<Token>,
    i: int,
    acc: Map<CallArgView, Seq<Token>>,
    positional: nat,
)
    requires
        0 <= i <= s.len(),
        forall|p: nat| acc.contains_key(CallArgView::Positional(p)) <==> p < positional,
    ensures
        call_args_from(s, i, acc, positional) matches Ok(c) ==> {
            &&& i < c.end <= s.len()
            &&& forall|p: nat| c.args.contains_key(CallArgView::Positional(p)) <==> p < c.positional
        },
    decreases s.len() - i,
{
    if i < s.len() && s[i].kind != ')' {
        let a = arg_at(s, i);
        lemma_arg_at(s, i);
        if a.to < s.len() {
            let key = match a.name {
                Some(n) => CallArgView::Named(n),
                None => CallArgView::Positional(positional),
            };
            let count = match a.name {
                Some(_) => positional,
                None => positional + 1,
            };
            let args = acc.insert(key, s.subrange(a.from, a.to));
            assert forall|p: nat| args.contains_key(CallArgView::Positional(p)) <==> p
                < count by {}
            if !(a.name is Some && acc.contains_key(key)) && s[a.to].kind != ')' {
                lemma_whitespace_end(s, a.to + 1);
                lemma_positions_from(s, whitespace_end(s, a.to + 1), args, count);
            }
        }
    }
}

/// In every argument list that parses, the positional arguments take the
/// places 0, 1, 2, ... without a gap, up to their number, and those with a
/// name take none.
pub proof fn lemma_positions_have_no_gaps(s: Seq<Token>, i: int)
    requires
        0 <= i <= s.len(),
    ensures
        call_args_at(s, i) matches Ok(c) ==> {
            &&& i < c.end <= s.len()
            &&& forall|p: nat| c.args.contains_key(CallArgView::Positional(p)) <==> p < c.positional
        },
{
    lemma_whitespace_end(s, i);
    lemma_positions_from(s, whitespace_end(s, i), Map::empty(), 0);
}

/// What `parse_arg` gives: the canonical name where there is one, and the
/// span of the value.
struct Arg {
    name: Option<String>,
    from: usize,
    to: usize,
}

fn parse_arg(toks: &Vec<Token>, i: usize) -> (r: Arg)
    requires
        i < toks.len(),
    ensures
        r.from == arg_at(toks@, i as int).from,
        r.to == arg_at(toks@, i as int).to,
        i <= r.from <= r.to <= toks.len(),
        match arg_at(toks@, i as int).name {
            Some(n) => r.name matches Some(m) && m@ == n,
            None => r.name is None,
        },
{
    proof {
        lemma_arg_at(toks@, i as int);
    }
    if toks[i].kind == '$' {
        let e = skip_ident(toks, i + 1);
        let j = skip_whitespace(toks, e);
        if e > i + 1 && j < toks.len() && toks[j].kind == ':' {
            let from = skip_whitespace(toks, j + 1);
            let to = skip_value(toks, from);
            return Arg { name: Some(read_name(toks, i + 1, e)), from, to };
        }
    }
    Arg { name: None, from: i, to: skip_value(toks, i) }
}

fn parse_call_args(toks: &Vec<Token>, start: usize) -> (r: Result<(CallArgs, usize), SassError>)
    requires
        start <= toks.len(),
    ensures
        match call_args_from(toks@, start as int, Map::empty(), 0) {
            Ok(c) => r matches Ok((a, e)) && a@ == c.args && e == c.end && e <= toks.len(),
            Err(f) => r matches Err(e) && e@ == f,
        },
{
    let mut args = CallArgs::new();
    let mut positional: usize = 0;
    let mut i = start;
    let ghost whole = call_args_from(toks@, start as int, Map::empty(), 0);
    loop
        invariant
            i <= toks.len(),
            positional <= args.entries@.len(),
            forall|p: nat| args@.contains_key(CallArgView::Positional(p)) ==> p < positional,
            call_args_from(toks@, i as int, args@, positional as nat) == whole,
            whole == call_args_from(toks@, start as int, Map::empty(), 0),
        decreases toks.len() - i,
    {
        if i >= toks.len() {
            return Err(SassError::Syntax(SyntaxError::UnexpectedEof));
        }
        if toks[i].kind == ')' {
            return Ok((args, i + 1));
        }
        let a = parse_arg(toks, i);
        if a.to >= toks.len() {
            return Err(SassError::Syntax(SyntaxError::UnexpectedEof));
        }
        let is_last = toks[a.to].kind == ')';
        let value = copy_span(toks, a.from, a.to);
        match a.name {
            Some(name) => {
                let key = CallArg::Named(name.clone());
                if args.find(&key).is_some() {
                    return Err(SassError::DuplicateArgument(name));
                }
                args.put(key, value);
            },
            None => {
                args.put(CallArg::Positional(positional), value);
                assert(positional < args.entries.len());
                positional = positional + 1;
            },
        }
        if is_last {
            return Ok((args, a.to + 1));
        }
        i = skip_whitespace(toks, a.to + 1);
    }
}

/// Reads the arguments of a call. The cursor stands just past the opening
/// `(`; on success it is left just past the closing `)`, on failure where
/// it stood. The values stay unevaluated.
pub fn eat_call_args(toks: &mut TokenCursor) -> (r: Result<CallArgs, SassError>)
    ensures
        final(toks).tokens() == old(toks).tokens(),
        match call_args_at(old(toks).tokens(), old(toks).position()) {
            Ok(c) => r matches Ok(a) && a@ == c.args && final(toks).position() == c.end,
            Err(f) => r matches Err(e) && e@ == f && final(toks).position() == old(
                toks,
            ).position(),
        },
{
    let start = toks.pos();
    let first = skip_whitespace(toks.as_vec(), start);
    match parse_call_args(toks.as_vec(), first) {
        Err(e) => Err(e),
        Ok((args, end)) => {
            toks.seek(end);
            Ok(args)
        },
    }
}

} // verus!

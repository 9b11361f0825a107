//! The functions that the language itself provides, and the table that
//! finds them by name.

use vstd::prelude::*;
use crate::args::CallArgView;
use crate::args::CallArgs;
use crate::error::Failure;
use crate::error::SassError;
use crate::scope::Scope;
use crate::selector::Selector;
use crate::token::Token;
use crate::value::Value;
use crate::value::ValueView;
use crate::value::evaluated;
use crate::value::parse::value_of;
use crate::value::yields;

pub mod math;

verus! {

/// A function of the language.
#[derive(Debug, Clone, Copy, PartialEq, Eq, Structural)]
pub enum Builtin {
    Percentage,
    Round,
    Ceil,
    Floor,
    Abs,
    Comparable,
}

/// One name of the table.
#[derive(Debug)]
struct Named {
    name: String,
    function: Builtin,
}

spec fn table_map(es: Seq<Named>) -> Map<Seq<char>, Builtin>
    decreases es.len(),
{
    if es.len() == 0 {
        Map::empty()
    } else {
        table_map(es.drop_last()).insert(es.last().name@, es.last().function)
    }
}

/// The functions that can be called, each under its name.
#[derive(Debug)]
pub struct FunctionTable {
    entries: Vec<Named>,
}

impl View for FunctionTable {
    type V = Map<Seq<char>, Builtin>;

    closed spec fn view(&self) -> Map<Seq<char>, Builtin> {
        table_map(self.entries@)
    }
}

impl FunctionTable {
    /// A table without functions.
    pub fn new() -> (t: FunctionTable)
        ensures
            t@ == Map::<Seq<char>, Builtin>::empty(),
    {
        FunctionTable { entries: Vec::new() }
    }

    /// Puts `function` under `name`, in place of what was there.
    pub fn insert(&mut self, name: &str, function: Builtin)
        ensures
            final(self)@ == old(self)@.insert(name@, function),
    {
        let ghost before = self.entries@;
        self.entries.push(Named { name: name.to_owned(), function });
        assert(self.entries@.drop_last() =~= before);
    }

    /// The function with the name `name`, if there is one.
    pub fn dispatch(&self, name: &str) -> (r: Option<Builtin>)
        ensures
            r == if self@.contains_key(name@) {
                Some(self@[name@])
            } else {
                None
            },
    {
        let key = name.to_owned();
        let mut i = self.entries.len();
        assert(self.entries@.take(i as int) =~= self.entries@);
        while i > 0
            invariant
                i <= self.entries.len(),
                key@ == name@,
                table_map(self.entries@).contains_key(name@) == table_map(
                    self.entries@.take(i as int),
                ).contains_key(name@),
                table_map(self.entries@).contains_key(name@) ==> table_map(self.entries@)[name@]
                    == table_map(self.entries@.take(i as int))[name@],
            decreases i,
        {
            let ghost front = self.entries@.take(i as int);
            assert(front.drop_last() =~= self.entries@.take(i - 1));
            i = i - 1;
            if self.entries[i].name == key {
                return Some(self.entries[i].function);
            }
        }
        assert(self.entries@.take(0) =~= Seq::<Named>::empty());
        None
    }
}

/// The value of the tokens of an argument, evaluated.
pub open spec fn evaluated_tokens(
    tokens: Seq<Token>,
    scope: Map<Seq<char>, ValueView>,
    selector: Seq<char>,
) -> Result<ValueView, Failure> {
    match value_of(tokens, scope, selector) {
        Err(f) => Err(f),
        Ok(v) => evaluated(v),
    }
}

/// The evaluated argument for the parameter `name`, which is the one at
/// place `place` of the declaration: the argument of that name, else the
/// positional argument at that place.
pub open spec fn argument_value(
    m: Map<CallArgView, Seq<Token>>,
    place: nat,
    name: Seq<char>,
    scope: Map<Seq<char>, ValueView>,
    selector: Seq<char>,
) -> Result<ValueView, Failure> {
    if m.contains_key(CallArgView::Named(name)) {
        evaluated_tokens(m[CallArgView::Named(name)], scope, selector)
    } else if m.contains_key(CallArgView::Positional(place)) {
        evaluated_tokens(m[CallArgView::Positional(place)], scope, selector)
    } else {
        Err(Failure::MissingArgument(name))
    }
}

/// The arguments that are left when the one for the parameter `name` at
/// place `place` has been taken out.
pub open spec fn without_argument(m: Map<CallArgView, Seq<Token>>, place: nat, name: Seq<char>) -> Map<
    CallArgView,
    Seq<Token>,
> {
    if m.contains_key(CallArgView::Named(name)) {
        m.remove(CallArgView::Named(name))
    } else {
        m.remove(CallArgView::Positional(place))
    }
}

/// Takes the argument for the parameter `name` at place `place` out of
/// `args` and evaluates it.
pub fn take_argument(
    args: &mut CallArgs,
    place: usize,
    name: &str,
    scope: &Scope,
    super_selector: &Selector,
) -> (r: Result<Value, SassError>)
    ensures
        final(args)@ == without_argument(old(args)@, place as nat, name@),
        yields(r, argument_value(old(args)@, place as nat, name@, scope@, super_selector.text@)),
{
    let found = match args.get_named(name.to_owned(), scope, super_selector) {
        Some(v) => Some(v),
        None => {
            assert(args@ =~= old(args)@);
            args.get_positional(place, scope, super_selector)
        },
    };
    match found {
        Some(Ok(v)) => v.eval(),
        Some(Err(e)) => Err(e),
        None => Err(SassError::MissingArgument(name.to_owned())),
    }
}

} // verus!

//! Variables and the values they stand for.

use vstd::prelude::*;
use crate::value::Value;
use crate::value::ValueView;

verus! {

/// One variable of a scope.
#[derive(Debug)]
struct Binding {
    name: String,
    value: Value,
}

spec fn bindings_map(bs: Seq<Binding>) -> Map<Seq<char>, ValueView>
    decreases bs.len(),
{
    if bs.len() == 0 {
        Map::empty()
    } else {
        bindings_map(bs.drop_last()).insert(bs.last().name@, bs.last().value@)
    }
}

/// The variables that can be read at some place, each with its value.
#[derive(Debug)]
pub struct Scope {
    vars: Vec<Binding>,
}

impl View for Scope {
    type V = Map<Seq<char>, ValueView>;

    closed spec fn view(&self) -> Map<Seq<char>, ValueView> {
        bindings_map(self.vars@)
    }
}

impl Clone for Scope {
    fn clone(&self) -> (r: Scope)
        ensures
            r@ == self@,
    {
        let mut vars: Vec<Binding> = Vec::new();
        let mut i: usize = 0;
        while i < self.vars.len()
            invariant
                i <= self.vars.len(),
                vars.len() == i,
                bindings_map(vars@) == bindings_map(self.vars@.take(i as int)),
            decreases self.vars.len() - i,
        {
            let ghost before = vars@;
            vars.push(Binding { name: self.vars[i].name.clone(), value: self.vars[i].value.clone() });
            i = i + 1;
            assert(vars@.drop_last() =~= before);
            assert(self.vars@.take(i as int).drop_last() =~= self.vars@.take(i - 1));
        }
        assert(self.vars@.take(i as int) =~= self.vars@);
        Scope { vars }
    }
}

impl Scope {
    /// A scope without variables.
    pub fn new() -> (s: Scope)
        ensures
            s@ == Map::<Seq<char>, ValueView>::empty(),
    {
        Scope { vars: Vec::new() }
    }

    /// Gives the variable `name` the value `value`, whether or not it had
    /// one before.
    pub fn insert_var(&mut self, name: String, value: Value)
        ensures
            final(self)@ == old(self)@.insert(name@, value@),
    {
        let ghost before = self.vars@;
        self.vars.push(Binding { name, value });
        assert(self.vars@.drop_last() =~= before);
    }

    /// The value of the variable `name`, if it has one.
    pub fn get_var(&self, name: &String) -> (r: Option<Value>)
        ensures
            match r {
                Some(v) => self@.contains_key(name@) && v@ == self@[name@],
                None => !self@.contains_key(name@),
            },
    {
        let mut i = self.vars.len();
        assert(self.vars@.take(i as int) =~= self.vars@);
        while i > 0
            invariant
                i <= self.vars.len(),
                bindings_map(self.vars@).contains_key(name@) == bindings_map(
                    self.vars@.take(i as int),
                ).contains_key(name@),
                bindings_map(self.vars@).contains_key(name@) ==> bindings_map(self.vars@)[name@]
                    == bindings_map(self.vars@.take(i as int))[name@],
            decreases i,
        {
            let ghost front = self.vars@.take(i as int);
            assert(front.drop_last() =~= self.vars@.take(i - 1));
            i = i - 1;
            if self.vars[i].name == *name {
                return Some(self.vars[i].value.clone());
            }
        }
        assert(self.vars@.take(0) =~= Seq::<Binding>::empty());
        None
    }
}

} // verus!

//! Declared parameters and the arguments of a call.

use vstd::prelude::*;
use crate::args::rest::has_named;
use crate::args::rest::is_least_name;
use crate::args::rest::least_name;
use crate::error::Failure;
use crate::error::SassError;
use crate::scope::Scope;
use crate::selector::Selector;
use crate::token::Token;
use crate::token::TokenCursor;
use crate::utils::copy_span;
use crate::utils::lemma_name_le_antisymmetric;
use crate::utils::lemma_name_le_total;
use crate::utils::lemma_name_le_transitive;
use crate::utils::name_comes_first;
use crate::utils::name_le;
use crate::value::Value;
use crate::value::parse::value_of;
use crate::value::yields;

pub mod call;
pub mod declared;
pub mod rest;

pub use crate::args::call::eat_call_args;
pub use crate::args::declared::eat_func_args;

verus! {

/// One declared parameter.
#[derive(Debug, Clone, Eq, PartialEq)]
pub struct FuncArg {
    /// The canonical name.
    pub name: String,
    /// The default value, as the tokens it was written with.
    pub default: Option<Vec<Token>>,
    /// Whether the parameter takes all arguments that are left.
    pub is_variadic: bool,
}

/// A `FuncArg` as contracts speak of it.
pub struct FuncArgView {
    pub name: Seq<char>,
    pub default: Option<Seq<Token>>,
    pub is_variadic: bool,
}

impl View for FuncArg {
    type V = FuncArgView;

    open spec fn view(&self) -> FuncArgView {
        FuncArgView {
            name: self.name@,
            default: match self.default {
                Some(d) => Some(d@),
                None => None,
            },
            is_variadic: self.is_variadic,
        }
    }
}

/// The declared parameters of a mixin or function, in their order.
#[derive(Debug, Clone, Eq, PartialEq)]
pub struct FuncArgs(pub Vec<FuncArg>);

impl View for FuncArgs {
    type V = Seq<FuncArgView>;

    open spec fn view(&self) -> Seq<FuncArgView> {
        self.0@.map_values(|a: FuncArg| a@)
    }
}

impl FuncArgs {
    /// No parameters.
    pub fn new() -> (r: FuncArgs)
        ensures
            r@ == Seq::<FuncArgView>::empty(),
    {
        FuncArgs(Vec::new())
    }
}

/// The key of an argument at a call site: its canonical name, or its
/// place among the arguments that were given without a name.
#[derive(Debug, Clone, Hash, Eq, PartialEq)]
pub enum CallArg {
    Named(String),
    Positional(usize),
}

/// A `CallArg` as contracts speak of it.
pub enum CallArgView {
    Named(Seq<char>),
    Positional(nat),
}

impl CallArgView {
    /// The key one place further down; a name stays as it is.
    pub open spec fn shifted_down(self) -> CallArgView {
        match self {
            CallArgView::Named(n) => CallArgView::Named(n),
            CallArgView::Positional(p) => CallArgView::Positional((p - 1) as nat),
        }
    }

    /// The key one place further up; a name stays as it is.
    pub open spec fn shifted_up(self) -> CallArgView {
        match self {
            CallArgView::Named(n) => CallArgView::Named(n),
            CallArgView::Positional(p) => CallArgView::Positional(p + 1),
        }
    }
}

impl View for CallArg {
    type V = CallArgView;

    open spec fn view(&self) -> CallArgView {
        match self {
            CallArg::Named(n) => CallArgView::Named(n@),
            CallArg::Positional(p) => CallArgView::Positional(*p as nat),
        }
    }
}

impl CallArg {
    /// The place of a positional key. A name has no place.
    pub fn position(&self) -> (r: Result<usize, SassError>)
        ensures
            match self@ {
                CallArgView::Positional(p) => r matches Ok(q) && q == p,
                CallArgView::Named(n) => r matches Err(e) && e@
                    == Failure::NamedRestArgument(n),
            },
    {
        match self {
            CallArg::Named(n) => Err(SassError::NamedRestArgument(n.clone())),
            CallArg::Positional(p) => Ok(*p),
        }
    }

    /// The key one place further down; a name stays as it is.
    pub fn decrement(self) -> (r: CallArg)
        requires
            self@ != CallArgView::Positional(0),
        ensures
            r@ == self@.shifted_down(),
    {
        match self {
            CallArg::Named(n) => CallArg::Named(n),
            CallArg::Positional(p) => CallArg::Positional(p - 1),
        }
    }

    fn same(&self, other: &CallArg) -> (r: bool)
        ensures
            r == (self@ == other@),
    {
        match self {
            CallArg::Named(a) => match other {
                CallArg::Named(b) => *a == *b,
                CallArg::Positional(_) => false,
            },
            CallArg::Positional(p) => match other {
                CallArg::Named(_) => false,
                CallArg::Positional(q) => *p == *q,
            },
        }
    }
}

/// One argument of a call: its key and the tokens of its value.
#[derive(Debug, Clone)]
struct Entry {
    key: CallArg,
    tokens: Vec<Token>,
}

spec fn has_key(es: Seq<Entry>, k: CallArgView) -> bool {
    exists|i: int| 0 <= i < es.len() && (#[trigger] es[i]).key@ == k
}

spec fn index_of(es: Seq<Entry>, k: CallArgView) -> int {
    choose|i: int| 0 <= i < es.len() && (#[trigger] es[i]).key@ == k
}

spec fn distinct_keys(es: Seq<Entry>) -> bool {
    forall|i: int, j: int| 0 <= i < j < es.len() ==> (#[trigger] es[i]).key@ != (#[trigger] es[j]).key@
}

spec fn entries_map(es: Seq<Entry>) -> Map<CallArgView, Seq<Token>> {
    Map::new(|k: CallArgView| has_key(es, k), |k: CallArgView| es[index_of(es, k)].tokens@)
}

proof fn lemma_entries_at(es: Seq<Entry>, i: int)
    requires
        distinct_keys(es),
        0 <= i < es.len(),
    ensures
        has_key(es, es[i].key@),
        index_of(es, es[i].key@) == i,
        entries_map(es).contains_key(es[i].key@),
        entries_map(es)[es[i].key@] == es[i].tokens@,
{
    assert(has_key(es, es[i].key@));
    let j = index_of(es, es[i].key@);
    assert(0 <= j < es.len() && es[j].key@ == es[i].key@);
    if j < i {
        assert(es[j].key@ != es[i].key@);
    } else if i < j {
        assert(es[i].key@ != es[j].key@);
    }
}

proof fn lemma_entries_push(es: Seq<Entry>, e: Entry)
    requires
        distinct_keys(es),
        !has_key(es, e.key@),
    ensures
        distinct_keys(es.push(e)),
        entries_map(es.push(e)) == entries_map(es).insert(e.key@, e.tokens@),
{
    let es2 = es.push(e);
    assert forall|i: int, j: int| 0 <= i < j < es2.len() implies (#[trigger] es2[i]).key@ != (
    #[trigger] es2[j]).key@ by {
        if j == es.len() {
            assert(es[i].key@ != e.key@);
        } else {
            assert(es[i].key@ != es[j].key@);
        }
    }
    let m2 = entries_map(es2);
    let m1 = entries_map(es).insert(e.key@, e.tokens@);
    assert forall|k: CallArgView| m2.contains_key(k) <==> m1.contains_key(k) by {
        if has_key(es2, k) {
            let i = index_of(es2, k);
            if i < es.len() {
                assert(es[i].key@ == k);
            }
        }
        if has_key(es, k) {
            let i = index_of(es, k);
            assert(es2[i].key@ == k);
        }
        if k == e.key@ {
            assert(es2[es.len() as int].key@ == k);
        }
    }
    assert forall|k: CallArgView| m2.contains_key(k) implies m2[k] == m1[k] by {
        let i = index_of(es2, k);
        lemma_entries_at(es2, i);
        if i < es.len() {
            lemma_entries_at(es, i);
        }
    }
    assert(m2 =~= m1);
}

proof fn lemma_entries_remove(es: Seq<Entry>, i: int)
    requires
        distinct_keys(es),
        0 <= i < es.len(),
    ensures
        distinct_keys(es.remove(i)),
        entries_map(es.remove(i)) == entries_map(es).remove(es[i].key@),
{
    let es2 = es.remove(i);
    assert forall|a: int, b: int| 0 <= a < b < es2.len() implies (#[trigger] es2[a]).key@ != (
    #[trigger] es2[b]).key@ by {
        let a0 = if a < i { a } else { a + 1 };
        let b0 = if b < i { b } else { b + 1 };
        assert(es[a0].key@ != es[b0].key@);
    }
    let m2 = entries_map(es2);
    let m1 = entries_map(es).remove(es[i].key@);
    assert forall|k: CallArgView| m2.contains_key(k) <==> m1.contains_key(k) by {
        if has_key(es2, k) {
            let a = index_of(es2, k);
            let a0 = if a < i { a } else { a + 1 };
            assert(es[a0].key@ == k);
            if a0 < i {
                assert(es[a0].key@ != es[i].key@);
            } else {
                assert(es[i].key@ != es[a0].key@);
            }
        }
        if has_key(es, k) && k != es[i].key@ {
            let a0 = index_of(es, k);
            let a = if a0 < i { a0 } else { a0 - 1 };
            assert(es2[a].key@ == k);
        }
    }
    assert forall|k: CallArgView| m2.contains_key(k) implies m2[k] == m1[k] by {
        let a = index_of(es2, k);
        lemma_entries_at(es2, a);
        let a0 = if a < i { a } else { a + 1 };
        lemma_entries_at(es, a0);
    }
    assert(m2 =~= m1);
}

proof fn lemma_entries_len(es: Seq<Entry>)
    requires
        distinct_keys(es),
    ensures
        entries_map(es).dom().finite(),
        entries_map(es).dom().len() == es.len(),
    decreases es.len(),
{
    if es.len() == 0 {
        assert(entries_map(es).dom() =~= Set::<CallArgView>::empty());
    } else {
        let front = es.drop_last();
        let e = es.last();
        assert forall|i: int, j: int| 0 <= i < j < front.len() implies (#[trigger] front[i]).key@
            != (#[trigger] front[j]).key@ by {
            assert(es[i].key@ != es[j].key@);
        }
        lemma_entries_len(front);
        if has_key(front, e.key@) {
            let i = index_of(front, e.key@);
            assert(es[i].key@ != es[es.len() - 1].key@);
        }
        assert(front.push(e) =~= es);
        lemma_entries_push(front, e);
        assert(entries_map(es).dom() =~= entries_map(front).dom().insert(e.key@));
    }
}

proof fn lemma_entries_alike(a: Seq<Entry>, b: Seq<Entry>)
    requires
        distinct_keys(a),
        a.len() == b.len(),
        forall|i: int|
            0 <= i < a.len() ==> (#[trigger] a[i]).key@ == b[i].key@ && a[i].tokens@
                == b[i].tokens@,
    ensures
        distinct_keys(b),
        entries_map(b) == entries_map(a),
{
    assert forall|i: int, j: int| 0 <= i < j < b.len() implies (#[trigger] b[i]).key@ != (
    #[trigger] b[j]).key@ by {
        assert(a[i].key@ != a[j].key@);
    }
    let ma = entries_map(a);
    let mb = entries_map(b);
    assert forall|k: CallArgView| ma.contains_key(k) <==> mb.contains_key(k) by {
        if has_key(a, k) {
            let i = index_of(a, k);
            assert(b[i].key@ == k);
        }
        if has_key(b, k) {
            let i = index_of(b, k);
            assert(a[i].key@ == k);
        }
    }
    assert forall|k: CallArgView| ma.contains_key(k) implies ma[k] == mb[k] by {
        let i = index_of(a, k);
        lemma_entries_at(a, i);
        assert(b[i].key@ == k);
        lemma_entries_at(b, i);
    }
    assert(ma =~= mb);
}

/// The arguments of one call, each under its key. No key occurs twice.
/// Binding takes the arguments out one by one.
#[derive(Debug)]
pub struct CallArgs {
    entries: Vec<Entry>,
}

impl View for CallArgs {
    type V = Map<CallArgView, Seq<Token>>;

    closed spec fn view(&self) -> Map<CallArgView, Seq<Token>> {
        entries_map(self.entries@)
    }
}

impl Clone for CallArgs {
    fn clone(&self) -> (r: CallArgs)
        ensures
            r@ == self@,
    {
        proof {
            use_type_invariant(self);
        }
        let mut entries: Vec<Entry> = Vec::new();
        let mut i: usize = 0;
        while i < self.entries.len()
            invariant
                i <= self.entries.len(),
                entries.len() == i,
                forall|k: int|
                    0 <= k < i ==> (#[trigger] self.entries[k]).key@ == entries[k].key@
                        && self.entries[k].tokens@ == entries[k].tokens@,
            decreases self.entries.len() - i,
        {
            let e = &self.entries[i];
            let key = match &e.key {
                CallArg::Named(n) => CallArg::Named(n.clone()),
                CallArg::Positional(p) => CallArg::Positional(*p),
            };
            let tokens = copy_span(&e.tokens, 0, e.tokens.len());
            assert(tokens@ =~= e.tokens@);
            entries.push(Entry { key, tokens });
            i = i + 1;
        }
        proof {
            lemma_entries_alike(self.entries@, entries@);
        }
        CallArgs { entries }
    }
}

impl CallArgs {
    #[verifier::type_invariant]
    spec fn keys_occur_once(self) -> bool {
        distinct_keys(self.entries@)
    }

    /// No arguments.
    pub fn new() -> (r: CallArgs)
        ensures
            r@ == Map::<CallArgView, Seq<Token>>::empty(),
    {
        let r = CallArgs { entries: Vec::new() };
        assert(r@ =~= Map::<CallArgView, Seq<Token>>::empty());
        r
    }

    /// The number of arguments that are left.
    pub fn len(&self) -> (n: usize)
        ensures
            self@.dom().finite(),
            n == self@.len(),
    {
        proof {
            use_type_invariant(self);
            lemma_entries_len(self.entries@);
        }
        self.entries.len()
    }

    /// Whether no argument is left.
    pub fn is_empty(&self) -> (b: bool)
        ensures
            self@.dom().finite(),
            b == (self@.len() == 0),
            b == (self@ == Map::<CallArgView, Seq<Token>>::empty()),
    {
        proof {
            use_type_invariant(self);
            lemma_entries_len(self.entries@);
            if self.entries@.len() > 0 {
                lemma_entries_at(self.entries@, 0);
            } else {
                assert(self@ =~= Map::<CallArgView, Seq<Token>>::empty());
            }
        }
        self.entries.len() == 0
    }

    /// The first name in the order of the dictionary among the arguments
    /// that are left, if one of them has a name.
    pub fn least_name(&self) -> (r: Option<String>)
        ensures
            match r {
                Some(n) => has_named(self@) && n@ == least_name(self@),
                None => !has_named(self@),
            },
    {
        proof {
            use_type_invariant(self);
        }
        let mut best: Option<usize> = None;
        let mut i: usize = 0;
        while i < self.entries.len()
            invariant
                i <= self.entries.len(),
                match best {
                    Some(b) => b < i && self.entries[b as int].key@ is Named && forall|k: int|
                        0 <= k < i && (#[trigger] self.entries[k]).key@ is Named ==> name_le(
                            self.entries[b as int].key@->Named_0,
                            self.entries[k].key@->Named_0,
                        ),
                    None => forall|k: int|
                        0 <= k < i ==> (#[trigger] self.entries[k]).key@ is Positional,
                },
            decreases self.entries.len() - i,
        {
            match &self.entries[i].key {
                CallArg::Named(n) => {
                    let better = match best {
                        Some(b) => match &self.entries[b].key {
                            CallArg::Named(m) => !name_comes_first(m.as_str(), n.as_str()),
                            CallArg::Positional(_) => true,
                        },
                        None => true,
                    };
                    proof {
                        lemma_name_le_total(n@, n@);
                        if let Some(b) = best {
                            let m = self.entries[b as int].key@->Named_0;
                            lemma_name_le_total(m, n@);
                            if better {
                                assert forall|k: int|
                                    0 <= k < i && (#[trigger] self.entries[k]).key@
                                        is Named implies name_le(
                                    n@,
                                    self.entries[k].key@->Named_0,
                                ) by {
                                    lemma_name_le_transitive(
                                        n@,
                                        m,
                                        self.entries[k].key@->Named_0,
                                    );
                                }
                            }
                        }
                    }
                    if better {
                        best = Some(i);
                    }
                },
                CallArg::Positional(_) => {},
            }
            i = i + 1;
        }
        match best {
            None => {
                proof {
                    if has_named(self@) {
                        let n = choose|n: Seq<char>| self@.contains_key(CallArgView::Named(n));
                        let k = index_of(self.entries@, CallArgView::Named(n));
                        assert(self.entries@[k].key@ is Positional);
                    }
                }
                None
            },
            Some(b) => match &self.entries[b].key {
                CallArg::Named(n) => {
                    proof {
                        lemma_entries_at(self.entries@, b as int);
                        assert(self@.contains_key(CallArgView::Named(n@)));
                        assert forall|o: Seq<char>|
                            self@.contains_key(CallArgView::Named(o)) implies name_le(n@, o) by {
                            let k = index_of(self.entries@, CallArgView::Named(o));
                            assert(self.entries@[k].key@ == CallArgView::Named(o));
                        }
                        assert(is_least_name(self@, n@));
                        let l = least_name(self@);
                        assert(is_least_name(self@, l));
                        lemma_name_le_antisymmetric(n@, l);
                    }
                    Some(n.clone())
                },
                CallArg::Positional(_) => None,
            },
        }
    }

    /// The index of the entry under `key`, if there is one.
    fn find(&self, key: &CallArg) -> (r: Option<usize>)
        ensures
            match r {
                Some(i) => i < self.entries.len() && self.entries[i as int].key@ == key@,
                None => !has_key(self.entries@, key@),
            },
    {
        let mut i: usize = 0;
        while i < self.entries.len()
            invariant
                i <= self.entries.len(),
                forall|k: int| 0 <= k < i ==> (#[trigger] self.entries[k]).key@ != key@,
            decreases self.entries.len() - i,
        {
            if self.entries[i].key.same(key) {
                return Some(i);
            }
            i = i + 1;
        }
        None
    }

    /// Adds an argument under a key that is not yet there.
    fn put(&mut self, key: CallArg, tokens: Vec<Token>)
        requires
            !old(self)@.contains_key(key@),
        ensures
            final(self)@ == old(self)@.insert(key@, tokens@),
            final(self).entries@.len() == old(self).entries@.len() + 1,
    {
        proof {
            use_type_invariant(&*self);
            lemma_entries_push(self.entries@, Entry { key, tokens });
        }
        let mut entries = self.take_entries();
        entries.push(Entry { key, tokens });
        self.entries = entries;
    }

    /// Moves the entries out and leaves none behind.
    fn take_entries(&mut self) -> (entries: Vec<Entry>)
        ensures
            entries@ == old(self).entries@,
            final(self).entries@ == Seq::<Entry>::empty(),
    {
        let mut rest = CallArgs { entries: Vec::new() };
        core::mem::swap(self, &mut rest);
        rest.entries
    }
}

/// The arguments of `m` with every positional argument one place further
/// down.
pub open spec fn shifted_down(m: Map<CallArgView, Seq<Token>>) -> Map<CallArgView, Seq<Token>> {
    Map::new(
        |k: CallArgView| m.contains_key(k.shifted_up()),
        |k: CallArgView| m[k.shifted_up()],
    )
}

/// The arguments of `m` with every positional argument one place further
/// up.
pub open spec fn shifted_up(m: Map<CallArgView, Seq<Token>>) -> Map<CallArgView, Seq<Token>> {
    Map::new(
        |k: CallArgView| k != CallArgView::Positional(0) && m.contains_key(k.shifted_down()),
        |k: CallArgView| m[k.shifted_down()],
    )
}

/// Shifting a key down and up again gives the key back, and a name is
/// not changed by either shift.
pub proof fn lemma_shift_round_trip(k: CallArgView)
    requires
        k != CallArgView::Positional(0),
    ensures
        k.shifted_down().shifted_up() == k,
        k.shifted_up().shifted_down() == k,
        k is Named ==> k.shifted_down() == k && k.shifted_up() == k,
{
}

/// Shifting all arguments down and up again gives the arguments back,
/// each with its tokens.
pub proof fn lemma_shift_map_round_trip(m: Map<CallArgView, Seq<Token>>)
    requires
        !m.contains_key(CallArgView::Positional(0)),
    ensures
        shifted_up(shifted_down(m)) == m,
        forall|n: Seq<char>|
            m.contains_key(CallArgView::Named(n)) ==> shifted_down(m).contains_key(
                CallArgView::Named(n),
            ) && shifted_down(m)[CallArgView::Named(n)] == m[CallArgView::Named(n)],
{
    let back = shifted_up(shifted_down(m));
    assert forall|k: CallArgView| back.contains_key(k) <==> m.contains_key(k) by {
        if k != CallArgView::Positional(0) {
            lemma_shift_round_trip(k);
        }
    }
    assert forall|k: CallArgView| back.contains_key(k) implies back[k] == m[k] by {
        lemma_shift_round_trip(k);
    }
    assert(back =~= m);
    assert forall|n: Seq<char>| m.contains_key(CallArgView::Named(n)) implies shifted_down(
        m,
    ).contains_key(CallArgView::Named(n)) && shifted_down(m)[CallArgView::Named(n)]
        == m[CallArgView::Named(n)] by {
        assert(CallArgView::Named(n).shifted_up() == CallArgView::Named(n));
    }
}

/// An argument that was taken out is no longer there: the same lookup
/// finds nothing the second time.
pub proof fn lemma_taken_once(m: Map<CallArgView, Seq<Token>>, k: CallArgView)
    ensures
        !m.remove(k).contains_key(k),
        m.remove(k).remove(k) == m.remove(k),
{
    assert(m.remove(k).remove(k) =~= m.remove(k));
}

impl CallArgs {
    /// Takes out the entry at index `i`.
    fn take_at(&mut self, i: usize) -> (e: Entry)
        requires
            i < old(self).entries@.len(),
        ensures
            e == old(self).entries@[i as int],
            old(self)@.contains_key(e.key@),
            old(self)@[e.key@] == e.tokens@,
            final(self)@ == old(self)@.remove(e.key@),
    {
        proof {
            use_type_invariant(&*self);
            lemma_entries_at(self.entries@, i as int);
            lemma_entries_remove(self.entries@, i as int);
        }
        let mut entries = self.take_entries();
        let e = entries.remove(i);
        self.entries = entries;
        e
    }

    /// Takes out the argument under `key`, if there is one, and evaluates
    /// it.
    fn take(&mut self, key: &CallArg, scope: &Scope, super_selector: &Selector) -> (r: Option<
        Result<Value, SassError>,
    >)
        ensures
            final(self)@ == old(self)@.remove(key@),
            match r {
                Some(v) => old(self)@.contains_key(key@) && yields(
                    v,
                    value_of(old(self)@[key@], scope@, super_selector.text@),
                ),
                None => !old(self)@.contains_key(key@),
            },
    {
        match self.find(key) {
            Some(i) => {
                let e = self.take_at(i);
                let mut toks = TokenCursor::new(e.tokens);
                Some(Value::from_tokens(&mut toks, scope, super_selector))
            },
            None => {
                assert(self@.remove(key@) =~= self@);
                None
            },
        }
    }

    /// Takes out the argument with the name `val`, if there is one, and
    /// evaluates it.
    pub fn get_named(&mut self, val: String, scope: &Scope, super_selector: &Selector) -> (r:
        Option<Result<Value, SassError>>)
        ensures
            final(self)@ == old(self)@.remove(CallArgView::Named(val@)),
            match r {
                Some(v) => old(self)@.contains_key(CallArgView::Named(val@)) && yields(
                    v,
                    value_of(
                        old(self)@[CallArgView::Named(val@)],
                        scope@,
                        super_selector.text@,
                    ),
                ),
                None => !old(self)@.contains_key(CallArgView::Named(val@)),
            },
    {
        self.take(&CallArg::Named(val), scope, super_selector)
    }

    /// Takes out the positional argument at place `val`, counted from
    /// zero, if there is one, and evaluates it.
    pub fn get_positional(&mut self, val: usize, scope: &Scope, super_selector: &Selector) -> (r:
        Option<Result<Value, SassError>>)
        ensures
            final(self)@ == old(self)@.remove(CallArgView::Positional(val as nat)),
            match r {
                Some(v) => old(self)@.contains_key(CallArgView::Positional(val as nat)) && yields(
                    v,
                    value_of(
                        old(self)@[CallArgView::Positional(val as nat)],
                        scope@,
                        super_selector.text@,
                    ),
                ),
                None => !old(self)@.contains_key(CallArgView::Positional(val as nat)),
            },
    {
        self.take(&CallArg::Positional(val), scope, super_selector)
    }

    /// The arguments with every positional one moved one place down, for
    /// a caller that has used up the argument at place 0.
    pub fn decrement(self) -> (r: CallArgs)
        requires
            !self@.contains_key(CallArgView::Positional(0)),
        ensures
            r@ == shifted_down(self@),
    {
        proof {
            use_type_invariant(&self);
        }
        let ghost before = self.entries@;
        assert forall|k: int| 0 <= k < before.len() implies (#[trigger] before[k]).key@
            != CallArgView::Positional(0) by {
            lemma_entries_at(before, k);
        }
        let mut entries = self.entries;
        let mut moved: Vec<Entry> = Vec::new();
        let mut i: usize = 0;
        while i < entries.len()
            invariant
                i <= entries.len(),
                entries@.len() == before.len(),
                moved.len() == i,
                forall|k: int| i <= k < entries.len() ==> entries[k] == before[k],
                forall|k: int|
                    0 <= k < i ==> (#[trigger] moved[k]).key@ == before[k].key@.shifted_down()
                        && moved[k].tokens@ == before[k].tokens@,
                forall|k: int|
                    0 <= k < before.len() ==> (#[trigger] before[k]).key@
                        != CallArgView::Positional(0),
            decreases entries.len() - i,
        {
            let mut spare = Entry { key: CallArg::Positional(0), tokens: Vec::new() };
            entries.set_and_swap(i, &mut spare);
            assert(spare == before[i as int]);
            moved.push(Entry { key: spare.key.decrement(), tokens: spare.tokens });
            i = i + 1;
        }
        proof {
            let after = moved@;
            assert forall|a: int, b: int| 0 <= a < b < after.len() implies (#[trigger] after[a]).key@
                != (#[trigger] after[b]).key@ by {
                assert(before[a].key@ != before[b].key@);
                lemma_shift_round_trip(before[a].key@);
                lemma_shift_round_trip(before[b].key@);
            }
            let m2 = entries_map(after);
            let m1 = shifted_down(entries_map(before));
            assert forall|k: CallArgView| m2.contains_key(k) <==> m1.contains_key(k) by {
                if has_key(after, k) {
                    let a = index_of(after, k);
                    lemma_shift_round_trip(before[a].key@);
                    assert(before[a].key@ == k.shifted_up());
                }
                if has_key(before, k.shifted_up()) {
                    let a = index_of(before, k.shifted_up());
                    assert(after[a].key@ == k);
                }
            }
            assert forall|k: CallArgView| m2.contains_key(k) implies m2[k] == m1[k] by {
                let a = index_of(after, k);
                lemma_entries_at(after, a);
                lemma_shift_round_trip(before[a].key@);
                lemma_entries_at(before, a);
            }
            assert(m2 =~= m1);
        }
        CallArgs { entries: moved }
    }
}

} // verus!

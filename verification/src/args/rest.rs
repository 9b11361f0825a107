//! Collecting the arguments that are left for a variadic parameter.

use vstd::prelude::*;
use crate::args::CallArg;
use crate::args::CallArgView;
use crate::args::CallArgs;
use crate::args::Entry;
use crate::args::distinct_keys;
use crate::args::entries_map;
use crate::args::has_key;
use crate::args::index_of;
use crate::args::lemma_entries_at;
use crate::args::lemma_entries_remove;
use crate::error::Failure;
use crate::error::SassError;
use crate::scope::Scope;
use crate::selector::Selector;
use crate::token::Token;
use crate::token::TokenCursor;
use crate::value::Value;
use crate::value::ValueView;
use crate::value::parse::value_of;
use crate::utils::name_le;
use crate::value::views;

verus! {

/// The places below `n` at which `m` holds a positional argument, in
/// ascending order.
pub open spec fn positions_below(m: Map<CallArgView, Seq<Token>>, n: nat) -> Seq<nat>
    decreases n,
{
    if n == 0 {
        Seq::empty()
    } else if m.contains_key(CallArgView::Positional((n - 1) as nat)) {
        positions_below(m, (n - 1) as nat).push((n - 1) as nat)
    } else {
        positions_below(m, (n - 1) as nat)
    }
}

/// The values of the positional arguments of `m` at the places `ps`, in
/// the order of `ps`. The first argument that fails to evaluate gives the
/// failure of the whole.
pub open spec fn values_at(
    m: Map<CallArgView, Seq<Token>>,
    ps: Seq<nat>,
    scope: Map<Seq<char>, ValueView>,
    selector: Seq<char>,
) -> Result<Seq<ValueView>, Failure>
    decreases ps.len(),
{
    if ps.len() == 0 {
        Ok(Seq::empty())
    } else {
        match values_at(m, ps.drop_last(), scope, selector) {
            Err(f) => Err(f),
            Ok(front) => match value_of(m[CallArgView::Positional(ps.last())], scope, selector) {
                Err(f) => Err(f),
                Ok(v) => Ok(front.push(v)),
            },
        }
    }
}

/// Whether `m` holds an argument with a name.
pub open spec fn has_named(m: Map<CallArgView, Seq<Token>>) -> bool {
    exists|n: Seq<char>| m.contains_key(CallArgView::Named(n))
}

/// Whether `n` is the name of an argument of `m` and stands before the
/// names of all others in the order of the dictionary.
pub open spec fn is_least_name(m: Map<CallArgView, Seq<Token>>, n: Seq<char>) -> bool {
    &&& m.contains_key(CallArgView::Named(n))
    &&& forall|o: Seq<char>| m.contains_key(CallArgView::Named(o)) ==> name_le(n, o)
}

/// The first name in the order of the dictionary among the named
/// arguments of `m`.
pub open spec fn least_name(m: Map<CallArgView, Seq<Token>>) -> Seq<char> {
    choose|n: Seq<char>| is_least_name(m, n)
}

/// What the collecting of all arguments of `m` gives: with a named
/// argument among them the failure that names the first of those in the
/// order of the dictionary, else the values of the arguments in the order
/// of their places.
pub open spec fn rest_values(
    m: Map<CallArgView, Seq<Token>>,
    scope: Map<Seq<char>, ValueView>,
    selector: Seq<char>,
) -> Result<Seq<ValueView>, Failure> {
    if has_named(m) {
        Err(Failure::NamedRestArgument(least_name(m)))
    } else {
        values_at(m, positions_below(m, (usize::MAX + 1) as nat), scope, selector)
    }
}

/// The places of `positions_below` are exactly the places below `n` that
/// `m` holds, and each is greater than the one before it.
pub proof fn lemma_positions_ascend(m: Map<CallArgView, Seq<Token>>, n: nat)
    ensures
        forall|p: nat|
            positions_below(m, n).contains(p) <==> p < n && m.contains_key(
                CallArgView::Positional(p),
            ),
        forall|i: int, j: int|
            0 <= i < j < positions_below(m, n).len() ==> positions_below(m, n)[i]
                < positions_below(m, n)[j],
    decreases n,
{
    if n > 0 {
        let before = positions_below(m, (n - 1) as nat);
        let all = positions_below(m, n);
        lemma_positions_ascend(m, (n - 1) as nat);
        assert forall|p: nat| all.contains(p) <==> p < n && m.contains_key(
            CallArgView::Positional(p),
        ) by {
            if all.contains(p) {
                let i = choose|i: int| 0 <= i < all.len() && all[i] == p;
                if i < before.len() {
                    assert(before[i] == p);
                    assert(before.contains(p));
                }
            }
            if p < n && m.contains_key(CallArgView::Positional(p)) {
                if p == n - 1 {
                    assert(all[all.len() - 1] == p);
                } else {
                    assert(before.contains(p));
                    let i = choose|i: int| 0 <= i < before.len() && before[i] == p;
                    assert(all[i] == p);
                }
            }
        }
        assert forall|i: int, j: int| 0 <= i < j < all.len() implies all[i] < all[j] by {
            if j == before.len() {
                assert(before[i] == all[i]);
                assert(before.contains(all[i]));
            } else {
                assert(before[i] < before[j]);
            }
        }
    }
}

/// Where `m` holds no place from `a` up to `b`, the places below `b` are
/// those below `a`.
pub proof fn lemma_positions_skip(m: Map<CallArgView, Seq<Token>>, a: nat, b: nat)
    requires
        a <= b,
        forall|p: nat| a <= p < b ==> !m.contains_key(CallArgView::Positional(p)),
    ensures
        positions_below(m, b) == positions_below(m, a),
    decreases b,
{
    if a < b {
        lemma_positions_skip(m, a, (b - 1) as nat);
    }
}

/// The places below `a` come first among the places below `b`.
pub proof fn lemma_positions_prefix(m: Map<CallArgView, Seq<Token>>, a: nat, b: nat)
    requires
        a <= b,
    ensures
        positions_below(m, a).is_prefix_of(positions_below(m, b)),
    decreases b,
{
    if a < b {
        lemma_positions_prefix(m, a, (b - 1) as nat);
    }
}

/// A failure among the first arguments is the failure of every longer
/// run of arguments.
pub proof fn lemma_values_failure(
    m: Map<CallArgView, Seq<Token>>,
    ps: Seq<nat>,
    qs: Seq<nat>,
    scope: Map<Seq<char>, ValueView>,
    selector: Seq<char>,
)
    requires
        ps.is_prefix_of(qs),
        values_at(m, ps, scope, selector) is Err,
    ensures
        values_at(m, qs, scope, selector) == values_at(m, ps, scope, selector),
    decreases qs.len(),
{
    if qs.len() == ps.len() {
        assert(qs =~= ps);
    } else {
        assert(ps.is_prefix_of(qs.drop_last()));
        lemma_values_failure(m, ps, qs.drop_last(), scope, selector);
    }
}

/// The entries `rest` are what is left of the arguments `m` from place
/// `reached` on: positional ones, each with its tokens.
spec fn pending(m: Map<CallArgView, Seq<Token>>, rest: Seq<Entry>, reached: nat) -> bool {
    &&& distinct_keys(rest)
    &&& forall|k: int|
        0 <= k < rest.len() ==> (#[trigger] rest[k]).key@ is Positional && m.contains_key(
            rest[k].key@,
        ) && m[rest[k].key@] == rest[k].tokens@ && rest[k].key@->Positional_0 >= reached
    &&& forall|p: nat|
        p >= reached && m.contains_key(CallArgView::Positional(p)) ==> has_key(
            rest,
            CallArgView::Positional(p),
        )
}

proof fn lemma_pending_without_least(
    m: Map<CallArgView, Seq<Token>>,
    rest: Seq<Entry>,
    reached: nat,
    best: int,
)
    requires
        pending(m, rest, reached),
        0 <= best < rest.len(),
        forall|k: int|
            0 <= k < rest.len() ==> rest[best].key@->Positional_0 <= (
            #[trigger] rest[k]).key@->Positional_0,
    ensures
        pending(m, rest.remove(best), rest[best].key@->Positional_0 + 1),
        forall|q: nat|
            reached <= q < rest[best].key@->Positional_0 ==> !m.contains_key(
                CallArgView::Positional(q),
            ),
{
    let p = rest[best].key@->Positional_0;
    let after = rest.remove(best);
    lemma_entries_remove(rest, best);
    assert forall|q: nat| reached <= q < p implies !m.contains_key(
        CallArgView::Positional(q),
    ) by {
        if m.contains_key(CallArgView::Positional(q)) {
            assert(has_key(rest, CallArgView::Positional(q)));
            let k = index_of(rest, CallArgView::Positional(q));
            assert(rest[k].key@->Positional_0 == q);
        }
    }
    assert forall|k: int| 0 <= k < after.len() implies (#[trigger] after[k]).key@ is Positional
        && m.contains_key(after[k].key@) && m[after[k].key@] == after[k].tokens@
        && after[k].key@->Positional_0 >= p + 1 by {
        let k0 = if k < best {
            k
        } else {
            k + 1
        };
        assert(after[k] == rest[k0]);
        assert(rest[k0].key@ is Positional);
        if k0 < best {
            assert(rest[k0].key@ != rest[best].key@);
        } else {
            assert(rest[best].key@ != rest[k0].key@);
        }
    }
    assert forall|q: nat|
        q >= p + 1 && m.contains_key(CallArgView::Positional(q)) implies has_key(
        after,
        CallArgView::Positional(q),
    ) by {
        assert(has_key(rest, CallArgView::Positional(q)));
        let k = index_of(rest, CallArgView::Positional(q));
        assert(rest[k].key@ == CallArgView::Positional(q));
        let k2 = if k < best {
            k
        } else {
            k - 1
        };
        assert(after[k2].key@ == CallArgView::Positional(q));
    }
}

/// Takes the entry with the least place out of `rest`.
fn take_least(
    rest: &mut Vec<Entry>,
    Ghost(m): Ghost<Map<CallArgView, Seq<Token>>>,
    Ghost(reached): Ghost<nat>,
) -> (e: Entry)
    requires
        old(rest).len() > 0,
        pending(m, old(rest)@, reached),
    ensures
        e.key@ is Positional,
        e.key@->Positional_0 >= reached,
        m.contains_key(e.key@),
        m[e.key@] == e.tokens@,
        final(rest).len() == old(rest).len() - 1,
        pending(m, final(rest)@, e.key@->Positional_0 + 1),
        forall|q: nat|
            reached <= q < e.key@->Positional_0 ==> !m.contains_key(CallArgView::Positional(q)),
{
    let mut best: usize = 0;
    let mut j: usize = 1;
    while j < rest.len()
        invariant
            1 <= j <= rest.len(),
            best < rest.len(),
            forall|k: int| 0 <= k < rest.len() ==> (#[trigger] rest[k]).key@ is Positional,
            forall|k: int|
                0 <= k < j ==> rest[best as int].key@->Positional_0 <= (
                #[trigger] rest[k]).key@->Positional_0,
        decreases rest.len() - j,
    {
        if place(&rest[j]) < place(&rest[best]) {
            best = j;
        }
        j = j + 1;
    }
    proof {
        lemma_pending_without_least(m, rest@, reached, best as int);
    }
    rest.remove(best)
}

fn place(e: &Entry) -> (p: usize)
    requires
        e.key@ is Positional,
    ensures
        CallArgView::Positional(p as nat) == e.key@,
{
    match &e.key {
        CallArg::Positional(p) => *p,
        CallArg::Named(_) => 0,
    }
}

impl CallArgs {
    /// Takes out all arguments that are left, which must be positional
    /// ones, and evaluates them in the order of their places.
    ///
    /// With a named argument among them this fails, and names the first of
    /// those in the order of the dictionary. Else the first argument that
    /// fails to evaluate, in the order of the places, gives the failure.
    pub fn get_variadic(self, scope: &Scope, super_selector: &Selector) -> (r: Result<
        Vec<Value>,
        SassError,
    >)
        ensures
            match rest_values(self@, scope@, super_selector.text@) {
                Ok(vs) => r matches Ok(v) && views(v@) == vs,
                Err(f) => r matches Err(e) && e@ == f,
            },
    {
        proof {
            use_type_invariant(&self);
        }
        match self.least_name() {
            Some(n) => {
                return Err(SassError::NamedRestArgument(n));
            },
            None => {},
        }
        let ghost m = self@;
        let ghost all = self.entries@;
        let mut rest = self.entries;
        proof {
            assert forall|k: int| 0 <= k < all.len() implies m.contains_key(
                (#[trigger] all[k]).key@,
            ) && m[all[k].key@] == all[k].tokens@ && all[k].key@ is Positional by {
                lemma_entries_at(all, k);
                if let CallArgView::Named(n) = all[k].key@ {
                    assert(m.contains_key(CallArgView::Named(n)));
                }
            }
        }
        let mut out: Vec<Value> = Vec::new();
        let ghost mut reached: nat = 0;
        assert(views(out@) =~= Seq::<ValueView>::empty());
        let top: Ghost<nat> = Ghost((usize::MAX + 1) as nat);
        while rest.len() > 0
            invariant
                m == self@,
                !has_named(m),
                top@ == usize::MAX + 1,
                reached <= top@,
                pending(m, rest@, reached),
                values_at(m, positions_below(m, reached), scope@, super_selector.text@) == Ok::<
                    Seq<ValueView>,
                    Failure,
                >(views(out@)),
            decreases rest.len(),
        {
            let ghost old_out = views(out@);
            let e = take_least(&mut rest, Ghost(m), Ghost(reached));
            let p = place(&e);
            proof {
                lemma_positions_skip(m, reached, p as nat);
                assert(positions_below(m, (p + 1) as nat) == positions_below(m, p as nat).push(
                    p as nat,
                ));
                assert(positions_below(m, (p + 1) as nat).drop_last() =~= positions_below(
                    m,
                    p as nat,
                ));
            }
            let mut toks = TokenCursor::new(e.tokens);
            match Value::from_tokens(&mut toks, scope, super_selector) {
                Err(f) => {
                    proof {
                        lemma_positions_prefix(m, (p + 1) as nat, top@);
                        lemma_values_failure(
                            m,
                            positions_below(m, (p + 1) as nat),
                            positions_below(m, top@),
                            scope@,
                            super_selector.text@,
                        );
                    }
                    return Err(f);
                },
                Ok(v) => {
                    out.push(v);
                    assert(views(out@) =~= old_out.push(v@));
                },
            }
            proof {
                reached = (p + 1) as nat;
            }
        }
        proof {
            assert forall|q: nat| reached <= q < top@ implies !m.contains_key(
                CallArgView::Positional(q),
            ) by {
                if m.contains_key(CallArgView::Positional(q)) {
                    assert(has_key(rest@, CallArgView::Positional(q)));
                }
            }
            lemma_positions_skip(m, reached, top@);
        }
        Ok(out)
    }
}

} // verus!

//! Listing the members of a finite set in order, each once.

use std::collections::{HashMap, HashSet};

use vstd::prelude::*;

use crate::ident::Uuid;
use crate::text::{lemma_lex_irreflexive, lemma_lex_total, lemma_lex_transitive, lex_lt};

verus! {

broadcast use vstd::std_specs::hash::group_hash_axioms;

/// Is `lt` a strict total order?
pub open spec fn strict_order<A>(lt: spec_fn(A, A) -> bool) -> bool {
    &&& forall|a: A| !(#[trigger] lt(a, a))
    &&& forall|a: A, b: A| a == b || #[trigger] lt(a, b) || lt(b, a)
    &&& forall|a: A, b: A, c: A| #[trigger] lt(a, b) && #[trigger] lt(b, c) ==> lt(a, c)
}

/// Does each item of `s` come before every later one?
pub open spec fn increasing<A>(s: Seq<A>, lt: spec_fn(A, A) -> bool) -> bool {
    forall|i: int, j: int| 0 <= i < j < s.len() ==> lt(#[trigger] s[i], #[trigger] s[j])
}

/// Does `s` hold the members of `set`, in order, each once?
pub open spec fn lists<A>(s: Seq<A>, set: Set<A>, lt: spec_fn(A, A) -> bool) -> bool {
    &&& increasing(s, lt)
    &&& forall|a: A| s.contains(a) <==> #[trigger] set.contains(a)
}

/// The members of `set`, in order, each once.
pub open spec fn listing<A>(set: Set<A>, lt: spec_fn(A, A) -> bool) -> Seq<A> {
    choose|s: Seq<A>| #[trigger] lists(s, set, lt)
}

/// The order of identifiers.
pub open spec fn id_order() -> spec_fn(Uuid, Uuid) -> bool {
    |a: Uuid, b: Uuid| a < b
}

/// The order of strings.
pub open spec fn text_order() -> spec_fn(Seq<char>, Seq<char>) -> bool {
    |a: Seq<char>, b: Seq<char>| lex_lt(a, b)
}

/// The identifiers of `set`, in order.
pub open spec fn sorted_ids(set: Set<Uuid>) -> Seq<Uuid> {
    listing(set, id_order())
}

/// The strings of `set`, in order.
pub open spec fn sorted_texts(set: Set<Seq<char>>) -> Seq<Seq<char>> {
    listing(set, text_order())
}

/// Strings are strictly and totally ordered.
pub proof fn lemma_text_order()
    ensures
        strict_order(text_order()),
{
    let lt = text_order();
    assert forall|a: Seq<char>| !(#[trigger] lt(a, a)) by {
        lemma_lex_irreflexive(a);
    }
    assert forall|a: Seq<char>, b: Seq<char>| a == b || #[trigger] lt(a, b) || lt(b, a) by {
        lemma_lex_total(a, b);
    }
    assert forall|a: Seq<char>, b: Seq<char>, c: Seq<char>| #[trigger]
        lt(a, b) && #[trigger] lt(b, c) implies lt(a, c) by {
        lemma_lex_transitive(a, b, c);
    }
}

/// A set has one listing: two listings of it are the same.
pub proof fn lemma_listing_unique<A>(s: Seq<A>, t: Seq<A>, set: Set<A>, lt: spec_fn(A, A) -> bool)
    requires
        strict_order(lt),
        lists(s, set, lt),
        lists(t, set, lt),
    ensures
        s == t,
    decreases s.len(),
{
    if s.len() == 0 {
        if t.len() > 0 {
            assert(t.contains(t[0]));
            assert(set.contains(t[0]));
            assert(s.contains(t[0]));
        }
        assert(s =~= t);
    } else {
        assert(s.contains(s.last()));
        assert(set.contains(s.last()));
        assert(t.contains(s.last()));
        assert(t.contains(t.last()));
        assert(set.contains(t.last()));
        assert(s.contains(t.last()));
        let i = choose|i: int| 0 <= i < t.len() && t[i] == s.last();
        let j = choose|j: int| 0 <= j < s.len() && s[j] == t.last();
        if s.last() != t.last() {
            assert(lt(t[i], t[t.len() - 1]));
            assert(lt(s[j], s[s.len() - 1]));
        }
        let rest = set.remove(s.last());
        lemma_listing_drop_last(s, set, lt);
        lemma_listing_drop_last(t, set, lt);
        lemma_listing_unique(s.drop_last(), t.drop_last(), rest, lt);
        assert(s =~= s.drop_last().push(s.last()));
        assert(t =~= t.drop_last().push(t.last()));
    }
}

proof fn lemma_listing_drop_last<A>(s: Seq<A>, set: Set<A>, lt: spec_fn(A, A) -> bool)
    requires
        strict_order(lt),
        lists(s, set, lt),
        s.len() > 0,
    ensures
        lists(s.drop_last(), set.remove(s.last()), lt),
{
    let r = s.drop_last();
    assert forall|a: A| r.contains(a) <==> #[trigger] set.remove(s.last()).contains(a) by {
        if r.contains(a) {
            let i = choose|i: int| 0 <= i < r.len() && r[i] == a;
            assert(s[i] == a);
            assert(s.contains(a));
            assert(set.contains(a));
            assert(lt(s[i], s[s.len() - 1]));
        }
        if set.remove(s.last()).contains(a) {
            assert(set.contains(a));
            assert(s.contains(a));
            let i = choose|i: int| 0 <= i < s.len() && s[i] == a;
            assert(r[i] == a);
        }
    }
}

/// A listing of a set is `listing` of it.
pub proof fn lemma_is_listing<A>(s: Seq<A>, set: Set<A>, lt: spec_fn(A, A) -> bool)
    requires
        strict_order(lt),
        lists(s, set, lt),
    ensures
        s == listing(set, lt),
{
    lemma_listing_unique(s, listing(set, lt), set, lt);
}

/// Every finite set has a listing.
pub proof fn lemma_listing_exists<A>(set: Set<A>, lt: spec_fn(A, A) -> bool)
    requires
        strict_order(lt),
        set.finite(),
    ensures
        lists(listing(set, lt), set, lt),
    decreases set.len(),
{
    if set.len() == 0 {
        assert(set =~= Set::empty());
        assert(lists(Seq::<A>::empty(), set, lt));
    } else {
        let x = set.choose();
        let rest = set.remove(x);
        lemma_listing_exists(rest, lt);
        let r = listing(rest, lt);
        let s = inserted(r, x, lt);
        lemma_inserted(r, rest, x, lt);
        assert(rest.insert(x) =~= set);
        assert(lists(s, set, lt));
    }
}

/// How many items of the increasing sequence `s` come before `x`.
spec fn place<A>(s: Seq<A>, x: A, lt: spec_fn(A, A) -> bool) -> int
    decreases s.len(),
{
    if s.len() == 0 {
        0
    } else if lt(s.last(), x) {
        s.len() as int
    } else {
        place(s.drop_last(), x, lt)
    }
}

spec fn inserted<A>(s: Seq<A>, x: A, lt: spec_fn(A, A) -> bool) -> Seq<A> {
    s.insert(place(s, x, lt), x)
}

proof fn lemma_place<A>(s: Seq<A>, x: A, lt: spec_fn(A, A) -> bool)
    requires
        strict_order(lt),
        increasing(s, lt),
        !s.contains(x),
    ensures
        0 <= place(s, x, lt) <= s.len(),
        forall|i: int| 0 <= i < place(s, x, lt) ==> lt(#[trigger] s[i], x),
        forall|i: int| place(s, x, lt) <= i < s.len() ==> lt(x, #[trigger] s[i]),
    decreases s.len(),
{
    if s.len() > 0 {
        let r = s.drop_last();
        if lt(s.last(), x) {
            assert forall|i: int| 0 <= i < s.len() implies lt(#[trigger] s[i], x) by {
                if i < s.len() - 1 {
                    assert(lt(s[i], s[s.len() - 1]));
                }
            }
        } else {
            assert(!r.contains(x)) by {
                if r.contains(x) {
                    let i = choose|i: int| 0 <= i < r.len() && r[i] == x;
                    assert(s[i] == x);
                }
            }
            assert(increasing(r, lt));
            lemma_place(r, x, lt);
            assert(s[s.len() - 1] != x);
            assert(s.last() == x || lt(s.last(), x) || lt(x, s.last()));
            assert forall|i: int| 0 <= i < place(s, x, lt) implies lt(#[trigger] s[i], x) by {
                assert(s[i] == r[i]);
            }
            assert forall|i: int| place(s, x, lt) <= i < s.len() implies lt(x, #[trigger] s[i]) by {
                if i < s.len() - 1 {
                    assert(s[i] == r[i]);
                }
            }
        }
    }
}

proof fn lemma_inserted<A>(s: Seq<A>, set: Set<A>, x: A, lt: spec_fn(A, A) -> bool)
    requires
        strict_order(lt),
        lists(s, set, lt),
        !set.contains(x),
    ensures
        lists(inserted(s, x, lt), set.insert(x), lt),
{
    assert(!s.contains(x));
    lemma_place(s, x, lt);
    lemma_insert_at(s, set, x, place(s, x, lt), lt);
}

/// Putting a new member where it belongs gives a listing of the larger set.
pub proof fn lemma_insert_at<A>(s: Seq<A>, set: Set<A>, x: A, at: int, lt: spec_fn(A, A) -> bool)
    requires
        strict_order(lt),
        lists(s, set, lt),
        0 <= at <= s.len(),
        forall|i: int| 0 <= i < at ==> lt(#[trigger] s[i], x),
        forall|i: int| at <= i < s.len() ==> lt(x, #[trigger] s[i]),
    ensures
        lists(s.insert(at, x), set.insert(x), lt),
{
    let t = s.insert(at, x);
    assert forall|i: int, j: int| 0 <= i < j < t.len() implies lt(#[trigger] t[i], #[trigger] t[j]) by {
        let si = if i < at { i } else { i - 1 };
        let sj = if j < at { j } else { j - 1 };
        if i != at {
            assert(t[i] == s[si]);
        }
        if j != at {
            assert(t[j] == s[sj]);
        }
    }
    assert forall|a: A| t.contains(a) <==> #[trigger] set.insert(x).contains(a) by {
        if t.contains(a) {
            let i = choose|i: int| 0 <= i < t.len() && t[i] == a;
            if i != at {
                let si = if i < at { i } else { i - 1 };
                assert(s[si] == a);
                assert(s.contains(a));
                assert(set.contains(a));
            }
        }
        if set.insert(x).contains(a) {
            if a == x {
                assert(t[at] == a);
            } else {
                assert(set.contains(a));
                assert(s.contains(a));
                let i = choose|i: int| 0 <= i < s.len() && s[i] == a;
                let ti = if i < at { i } else { i + 1 };
                assert(t[ti] == a);
            }
        }
    }
}

/// `out` lists those of the first `n` items of `from` that satisfy `p`.
pub open spec fn picks<A>(
    out: Seq<A>,
    from: Seq<A>,
    n: int,
    p: spec_fn(A) -> bool,
    lt: spec_fn(A, A) -> bool,
) -> bool {
    &&& 0 <= n <= from.len()
    &&& increasing(out, lt)
    &&& forall|a: A| #[trigger]
        out.contains(a) <==> p(a) && exists|j: int| 0 <= j < n && #[trigger] from[j] == a
}

/// One more item is picked where it satisfies `p`, and passed over where not.
pub proof fn lemma_pick<A>(
    out: Seq<A>,
    from: Seq<A>,
    n: int,
    p: spec_fn(A) -> bool,
    lt: spec_fn(A, A) -> bool,
)
    requires
        increasing(from, lt),
        picks(out, from, n, p, lt),
        n < from.len(),
    ensures
        p(from[n]) ==> picks(out.push(from[n]), from, n + 1, p, lt),
        !p(from[n]) ==> picks(out, from, n + 1, p, lt),
{
    let x = from[n];
    if p(x) {
        let more = out.push(x);
        assert forall|i: int, j: int| 0 <= i < j < more.len() implies lt(#[trigger] more[i], #[trigger] more[j]) by {
            assert(more[i] == out[i]);
            if j == out.len() {
                assert(out.contains(out[i]));
                let k = choose|k: int| 0 <= k < n && #[trigger] from[k] == out[i];
                assert(lt(from[k], from[n]));
            } else {
                assert(lt(out[i], out[j]));
            }
        }
        assert forall|a: A| #[trigger]
            more.contains(a) <==> p(a) && exists|j: int| 0 <= j < n + 1 && #[trigger] from[j] == a by {
            lemma_push_contains(out, x, a);
            if more.contains(a) {
                if a == x {
                    assert(from[n] == a);
                } else {
                    assert(out.contains(a));
                }
            }
            if p(a) && exists|j: int| 0 <= j < n + 1 && #[trigger] from[j] == a {
                let j = choose|j: int| 0 <= j < n + 1 && #[trigger] from[j] == a;
                if j < n {
                    assert(out.contains(a));
                }
            }
        }
    } else {
        assert forall|a: A| #[trigger]
            out.contains(a) <==> p(a) && exists|j: int| 0 <= j < n + 1 && #[trigger] from[j] == a by {
            if p(a) && exists|j: int| 0 <= j < n + 1 && #[trigger] from[j] == a {
                let j = choose|j: int| 0 <= j < n + 1 && #[trigger] from[j] == a;
                assert(j < n);
            }
        }
    }
}

/// What was picked from a listing of `set` lists the members that satisfy
/// `p`.
pub proof fn lemma_picked<A>(
    out: Seq<A>,
    from: Seq<A>,
    set: Set<A>,
    p: spec_fn(A) -> bool,
    lt: spec_fn(A, A) -> bool,
)
    requires
        strict_order(lt),
        lists(from, set, lt),
        picks(out, from, from.len() as int, p, lt),
    ensures
        lists(out, set.filter(p), lt),
        out == listing(set.filter(p), lt),
        out.to_set() == set.filter(p),
{
    let some = set.filter(p);
    assert forall|a: A| out.contains(a) <==> #[trigger] some.contains(a) by {
        if out.contains(a) {
            let j = choose|j: int| 0 <= j < from.len() && #[trigger] from[j] == a;
            assert(from.contains(a));
            assert(set.contains(a));
        }
        if some.contains(a) {
            assert(set.contains(a));
            assert(from.contains(a));
            let j = choose|j: int| 0 <= j < from.len() && from[j] == a;
            assert(from[j] == a);
            assert(out.contains(a));
        }
    }
    lemma_is_listing(out, some, lt);
    assert(out.to_set() =~= some) by {
        assert forall|a: A| out.to_set().contains(a) <==> some.contains(a) by {
            assert(out.contains(a) <==> some.contains(a));
        }
    }
}

/// What is in a sequence with one more item.
pub proof fn lemma_push_contains<A>(s: Seq<A>, x: A, a: A)
    ensures
        s.push(x).contains(a) <==> s.contains(a) || a == x,
{
    let t = s.push(x);
    if s.contains(a) {
        let i = choose|i: int| 0 <= i < s.len() && s[i] == a;
        assert(t[i] == a);
    }
    if a == x {
        assert(t[s.len() as int] == a);
    }
    if t.contains(a) && a != x {
        let i = choose|i: int| 0 <= i < t.len() && t[i] == a;
        assert(s[i] == a);
    }
}

/// Puts `x` where it belongs in an increasing list of identifiers.
fn insert_id(v: &mut Vec<Uuid>, x: Uuid, Ghost(set): Ghost<Set<Uuid>>)
    requires
        lists(old(v)@, set, id_order()),
        !set.contains(x),
    ensures
        lists(final(v)@, set.insert(x), id_order()),
{
    let mut i: usize = 0;
    while i < v.len() && v[i] < x
        invariant
            i <= v@.len(),
            v@ == old(v)@,
            forall|j: int| 0 <= j < i ==> v@[j] < x,
        decreases v@.len() - i,
    {
        i += 1;
    }
    proof {
        let s = v@;
        let lt = id_order();
        assert(!s.contains(x));
        assert forall|j: int| i <= j < s.len() implies lt(x, #[trigger] s[j]) by {
            assert(s[i as int] != x);
            assert(i < j ==> lt(s[i as int], s[j]));
        }
        lemma_insert_at(s, set, x, i as int, lt);
    }
    v.insert(i, x);
}

/// The keys of a map, in order.
pub fn sorted_keys<V>(m: &HashMap<Uuid, V>) -> (r: Vec<Uuid>)
    ensures
        lists(r@, m@.dom(), id_order()),
        r@ == sorted_ids(m@.dom()),
{
    let mut out: Vec<Uuid> = Vec::new();
    let ghost mut done = Set::<Uuid>::empty();
    let ghost all = vstd::std_specs::iter::IteratorSpec::remaining(
        &vstd::std_specs::hash::spec_keys_iter(m),
    );
    let ghost mut n: int = 0;
    for k in it: m.keys()
        invariant
            it.seq() == all,
            n == it.index(),
            all.no_duplicates(),
            lists(out@, done, id_order()),
            forall|a: Uuid| #[trigger] done.contains(a) <==> (exists|j: int|
                0 <= j < n && *#[trigger] all[j] == a),
    {
        assert(!done.contains(*k)) by {
            if done.contains(*k) {
                let j = choose|j: int| 0 <= j < n && *#[trigger] all[j] == *k;
                assert(all[j] == all[n]);
            }
        }
        insert_id(&mut out, *k, Ghost(done));
        proof {
            let before = done;
            done = done.insert(*k);
            assert forall|a: Uuid| #[trigger] done.contains(a) <==> (exists|j: int|
                0 <= j < n + 1 && *#[trigger] all[j] == a) by {
                if done.contains(a) {
                    if a == *k {
                        assert(*all[n] == a);
                    } else {
                        assert(before.contains(a));
                    }
                }
                if exists|j: int| 0 <= j < n + 1 && *#[trigger] all[j] == a {
                    let j = choose|j: int| 0 <= j < n + 1 && *#[trigger] all[j] == a;
                    if j < n {
                        assert(before.contains(a));
                    }
                }
            }
            n = n + 1;
        }
    }
    proof {
        assert(all.unref().to_set() == m@.dom());
        assert forall|a: Uuid| done.contains(a) <==> m@.dom().contains(a) by {
            if done.contains(a) {
                let j = choose|j: int| 0 <= j < n && *#[trigger] all[j] == a;
                assert(all.unref()[j] == a);
                assert(all.unref().to_set().contains(a));
            }
            if m@.dom().contains(a) {
                assert(all.unref().to_set().contains(a));
                let j = choose|j: int| 0 <= j < all.unref().len() && all.unref()[j] == a;
                assert(*all[j] == a);
            }
        }
        assert(done =~= m@.dom());
        lemma_is_listing(out@, m@.dom(), id_order());
    }
    out
}

/// The members of a set, in order.
pub fn sorted_members(m: &HashSet<Uuid>) -> (r: Vec<Uuid>)
    ensures
        lists(r@, m@, id_order()),
        r@ == sorted_ids(m@),
{
    let mut out: Vec<Uuid> = Vec::new();
    let ghost mut done = Set::<Uuid>::empty();
    let ghost all = vstd::std_specs::iter::IteratorSpec::remaining(
        &vstd::std_specs::hash::spec_hash_keys_iter(m),
    );
    let ghost mut n: int = 0;
    for k in it: m.iter()
        invariant
            it.seq() == all,
            n == it.index(),
            all.no_duplicates(),
            lists(out@, done, id_order()),
            forall|a: Uuid| #[trigger] done.contains(a) <==> (exists|j: int|
                0 <= j < n && *#[trigger] all[j] == a),
    {
        assert(!done.contains(*k)) by {
            if done.contains(*k) {
                let j = choose|j: int| 0 <= j < n && *#[trigger] all[j] == *k;
                assert(all[j] == all[n]);
            }
        }
        insert_id(&mut out, *k, Ghost(done));
        proof {
            let before = done;
            done = done.insert(*k);
            assert forall|a: Uuid| #[trigger] done.contains(a) <==> (exists|j: int|
                0 <= j < n + 1 && *#[trigger] all[j] == a) by {
                if done.contains(a) {
                    if a == *k {
                        assert(*all[n] == a);
                    } else {
                        assert(before.contains(a));
                    }
                }
                if exists|j: int| 0 <= j < n + 1 && *#[trigger] all[j] == a {
                    let j = choose|j: int| 0 <= j < n + 1 && *#[trigger] all[j] == a;
                    if j < n {
                        assert(before.contains(a));
                    }
                }
            }
            n = n + 1;
        }
    }
    proof {
        assert(all.unref().to_set() == m@);
        assert forall|a: Uuid| done.contains(a) <==> m@.contains(a) by {
            if done.contains(a) {
                let j = choose|j: int| 0 <= j < n && *#[trigger] all[j] == a;
                assert(all.unref()[j] == a);
                assert(all.unref().to_set().contains(a));
            }
            if m@.contains(a) {
                assert(all.unref().to_set().contains(a));
                let j = choose|j: int| 0 <= j < all.unref().len() && all.unref()[j] == a;
                assert(*all[j] == a);
            }
        }
        assert(done =~= m@);
        lemma_is_listing(out@, m@, id_order());
    }
    out
}

} // verus!

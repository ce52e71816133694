//! Facts about sequences that several modules share.

use vstd::prelude::*;

verus! {

/// The position of the first item of `s` for which `p` holds, or the length of `s` where
/// it holds for none.
pub open spec fn first_where<T>(s: Seq<T>, p: spec_fn(T) -> bool) -> int
    decreases s.len(),
{
    if s.len() == 0 {
        0
    } else if p(s[0]) {
        0
    } else {
        1 + first_where(s.drop_first(), p)
    }
}

/// `first_where` is in range, `p` holds there unless it is the length, and `p` holds
/// nowhere before it.
pub proof fn lemma_first_where<T>(s: Seq<T>, p: spec_fn(T) -> bool)
    ensures
        0 <= first_where(s, p) <= s.len(),
        first_where(s, p) < s.len() ==> p(s[first_where(s, p)]),
        forall|j: int| 0 <= j < first_where(s, p) ==> !p(#[trigger] s[j]),
    decreases s.len(),
{
    if s.len() != 0 && !p(s[0]) {
        let t = s.drop_first();
        lemma_first_where(t, p);
        assert forall|j: int| 0 <= j < first_where(s, p) implies !p(#[trigger] s[j]) by {
            if j > 0 {
                assert(s[j] == t[j - 1]);
            }
        }
    }
}

/// A position where `p` holds, with none before it, is the first.
pub proof fn lemma_first_where_is<T>(s: Seq<T>, p: spec_fn(T) -> bool, i: int)
    requires
        0 <= i <= s.len(),
        i < s.len() ==> p(s[i]),
        forall|j: int| 0 <= j < i ==> !p(#[trigger] s[j]),
    ensures
        first_where(s, p) == i,
{
    lemma_first_where(s, p);
}

/// `p` holds for some item exactly if the first such position is in range.
pub proof fn lemma_first_where_exists<T>(s: Seq<T>, p: spec_fn(T) -> bool)
    ensures
        first_where(s, p) < s.len() <==> exists|i: int| 0 <= i < s.len() && p(#[trigger] s[i]),
{
    lemma_first_where(s, p);
}

/// How many items of `s` `p` holds for.
pub open spec fn count<T>(s: Seq<T>, p: spec_fn(T) -> bool) -> nat
    decreases s.len(),
{
    if s.len() == 0 {
        0
    } else {
        count(s.drop_last(), p) + if p(s.last()) {
            1nat
        } else {
            0nat
        }
    }
}

/// Where `p` holds for no item, the count is zero.
pub proof fn lemma_count_none<T>(s: Seq<T>, p: spec_fn(T) -> bool)
    requires
        first_where(s, p) == s.len(),
    ensures
        count(s, p) == 0,
    decreases s.len(),
{
    lemma_first_where(s, p);
    if s.len() > 0 {
        let t = s.drop_last();
        assert forall|j: int| 0 <= j < t.len() implies !p(#[trigger] t[j]) by {
            assert(t[j] == s[j]);
        }
        lemma_first_where_is(t, p, t.len() as int);
        lemma_count_none(t, p);
        assert(!p(s[s.len() - 1]));
    }
}

/// Whether no item of `s` occurs twice.
pub open spec fn distinct<T>(s: Seq<T>) -> bool {
    forall|i: int, j: int| 0 <= i < j < s.len() ==> s[i] != s[j]
}

/// The items of `s` for which `p` does not hold, in their order.
pub open spec fn without<T>(s: Seq<T>, p: spec_fn(T) -> bool) -> Seq<T>
    decreases s.len(),
{
    if s.len() == 0 {
        s
    } else if p(s.last()) {
        without(s.drop_last(), p)
    } else {
        without(s.drop_last(), p).push(s.last())
    }
}

/// `s` with `f` applied to the items for which `p` holds.
pub open spec fn replaced<T>(s: Seq<T>, p: spec_fn(T) -> bool, f: spec_fn(T) -> T) -> Seq<T> {
    Seq::new(
        s.len(),
        |i: int|
            if p(s[i]) {
                f(s[i])
            } else {
                s[i]
            },
    )
}

/// What is left without the items for which `p` holds are the other items of `s`.
pub proof fn lemma_without<T>(s: Seq<T>, p: spec_fn(T) -> bool)
    ensures
        forall|x: T| #[trigger] without(s, p).contains(x) ==> s.contains(x) && !p(x),
        forall|x: T| #[trigger] s.contains(x) && !p(x) ==> without(s, p).contains(x),
        without(s, p).len() <= s.len(),
        first_where(without(s, p), p) == without(s, p).len(),
    decreases s.len(),
{
    let w = without(s, p);
    if s.len() > 0 {
        let t = s.drop_last();
        let v = without(t, p);
        lemma_without(t, p);
        assert forall|x: T| #[trigger] w.contains(x) implies s.contains(x) && !p(x) by {
            let j = choose|j: int| 0 <= j < w.len() && w[j] == x;
            if j < v.len() {
                assert(v[j] == x);
                assert(v.contains(x));
                let i = choose|i: int| 0 <= i < t.len() && t[i] == x;
                assert(s[i] == x);
            } else {
                assert(s[s.len() - 1] == x);
            }
        }
        assert forall|x: T| #[trigger] s.contains(x) && !p(x) implies w.contains(x) by {
            let i = choose|i: int| 0 <= i < s.len() && s[i] == x;
            if i < t.len() {
                assert(t[i] == x);
                assert(t.contains(x));
                let j = choose|j: int| 0 <= j < v.len() && v[j] == x;
                assert(w[j] == x);
            } else {
                assert(w[v.len() as int] == x);
            }
        }
    }
    assert forall|j: int| 0 <= j < w.len() implies !p(#[trigger] w[j]) by {
        assert(w.contains(w[j]));
    }
    lemma_first_where_is(w, p, w.len() as int);
}

/// `s` without repeats: each item where it first occurs.
pub open spec fn unique<T>(s: Seq<T>) -> Seq<T>
    decreases s.len(),
{
    if s.len() == 0 {
        s
    } else {
        let p = unique(s.drop_last());
        if p.contains(s.last()) {
            p
        } else {
            p.push(s.last())
        }
    }
}

/// `unique` holds no item twice, holds exactly the items of `s`, and is no longer.
pub proof fn lemma_unique<T>(s: Seq<T>)
    ensures
        distinct(unique(s)),
        forall|x: T| #[trigger] unique(s).contains(x) ==> s.contains(x),
        forall|x: T| #[trigger] s.contains(x) ==> unique(s).contains(x),
        unique(s).len() <= s.len(),
    decreases s.len(),
{
    if s.len() > 0 {
        let t = s.drop_last();
        let p = unique(t);
        let u = unique(s);
        lemma_unique(t);
        assert forall|x: T| #[trigger] s.contains(x) implies u.contains(x) by {
            let i = choose|i: int| 0 <= i < s.len() && s[i] == x;
            if i < s.len() - 1 {
                assert(t[i] == x);
                assert(t.contains(x));
                assert(p.contains(x));
                let j = choose|j: int| 0 <= j < p.len() && p[j] == x;
                assert(u[j] == x);
            } else if p.contains(x) {
                let j = choose|j: int| 0 <= j < p.len() && p[j] == x;
                assert(u[j] == x);
            } else {
                assert(u[p.len() as int] == x);
            }
        }
        assert forall|x: T| #[trigger] u.contains(x) implies s.contains(x) by {
            let j = choose|j: int| 0 <= j < u.len() && u[j] == x;
            if j < p.len() {
                assert(p[j] == x);
                assert(p.contains(x));
                assert(t.contains(x));
                let i = choose|i: int| 0 <= i < t.len() && t[i] == x;
                assert(s[i] == x);
            } else {
                assert(s[s.len() - 1] == x);
            }
        }
        assert forall|i: int, j: int| 0 <= i < j < u.len() implies u[i] != u[j] by {
            if j == p.len() {
                assert(p.contains(u[i]));
            }
        }
    }
}

/// A sequence that holds no item twice is its own `unique`.
pub proof fn lemma_unique_of_distinct<T>(s: Seq<T>)
    requires
        distinct(s),
    ensures
        unique(s) == s,
    decreases s.len(),
{
    if s.len() > 0 {
        let t = s.drop_last();
        lemma_unique_of_distinct(t);
        if t.contains(s.last()) {
            let i = choose|i: int| 0 <= i < t.len() && t[i] == s.last();
            assert(s[i] == s[s.len() - 1]);
        }
        assert(t.push(s.last()) =~= s);
    }
}

/// `p` continued by each item of `ls` in turn.
pub open spec fn extend<T>(p: Seq<T>, ls: Seq<T>) -> Seq<Seq<T>> {
    Seq::new(ls.len(), |j: int| p.push(ls[j]))
}

/// Every sequence of `ps` continued by every item of `ls`: the sequences of `ps` in their
/// order and, for each, the items of `ls` in theirs.
pub open spec fn product<T>(ps: Seq<Seq<T>>, ls: Seq<T>) -> Seq<Seq<T>>
    decreases ps.len(),
{
    if ps.len() == 0 {
        Seq::empty()
    } else {
        product(ps.drop_last(), ls) + extend(ps.last(), ls)
    }
}

/// The product has one sequence for each pair.
pub proof fn lemma_product_len<T>(ps: Seq<Seq<T>>, ls: Seq<T>)
    ensures
        product(ps, ls).len() == ps.len() * ls.len(),
    decreases ps.len(),
{
    if ps.len() > 0 {
        lemma_product_len(ps.drop_last(), ls);
        assert((ps.len() - 1) * ls.len() + ls.len() == ps.len() * ls.len()) by (nonlinear_arith);
    } else {
        assert(0 * ls.len() == 0) by (nonlinear_arith);
    }
}

/// A sequence is in the product exactly if it is one of `ps` continued by one of `ls`.
pub proof fn lemma_product_contains<T>(ps: Seq<Seq<T>>, ls: Seq<T>, e: Seq<T>)
    ensures
        product(ps, ls).contains(e) <==> e.len() > 0 && ps.contains(e.drop_last()) && ls.contains(
            e.last(),
        ),
    decreases ps.len(),
{
    if ps.len() > 0 {
        let qs = ps.drop_last();
        let a = product(qs, ls);
        let b = extend(ps.last(), ls);
        lemma_product_contains(qs, ls, e);
        if product(ps, ls).contains(e) {
            let k = choose|k: int| 0 <= k < (a + b).len() && (a + b)[k] == e;
            if k < a.len() {
                assert(a[k] == e);
                assert(a.contains(e));
                let i = choose|i: int| 0 <= i < qs.len() && qs[i] == e.drop_last();
                assert(ps[i] == e.drop_last());
            } else {
                let j = k - a.len();
                assert(b[j] == e);
                assert(e.drop_last() =~= ps.last());
                assert(ps[ps.len() - 1] == e.drop_last());
                assert(ls[j] == e.last());
            }
        }
        if e.len() > 0 && ps.contains(e.drop_last()) && ls.contains(e.last()) {
            let i = choose|i: int| 0 <= i < ps.len() && ps[i] == e.drop_last();
            let j = choose|j: int| 0 <= j < ls.len() && ls[j] == e.last();
            if i < qs.len() {
                assert(qs[i] == e.drop_last());
                assert(qs.contains(e.drop_last()));
                let k = choose|k: int| 0 <= k < a.len() && a[k] == e;
                assert((a + b)[k] == e);
            } else {
                assert(b[j] =~= e);
                assert((a + b)[a.len() + j] == e);
            }
        }
    }
}

/// The product of sequences that differ with items that differ holds no sequence twice.
pub proof fn lemma_product_distinct<T>(ps: Seq<Seq<T>>, ls: Seq<T>)
    requires
        distinct(ps),
        distinct(ls),
    ensures
        distinct(product(ps, ls)),
    decreases ps.len(),
{
    if ps.len() > 0 {
        let qs = ps.drop_last();
        let a = product(qs, ls);
        let b = extend(ps.last(), ls);
        lemma_product_distinct(qs, ls);
        assert forall|i: int, j: int| 0 <= i < j < (a + b).len() implies (a + b)[i] != (a + b)[j] by {
            if j < a.len() {
            } else if i < a.len() {
                let e = a[i];
                assert(a.contains(e));
                lemma_product_contains(qs, ls, e);
                if e == b[j - a.len()] {
                    assert(e.drop_last() =~= ps.last());
                    let k = choose|k: int| 0 <= k < qs.len() && qs[k] == e.drop_last();
                    assert(ps[k] == ps[ps.len() - 1]);
                }
            } else {
                let x = i - a.len();
                let y = j - a.len();
                if b[x] == b[y] {
                    assert(b[x].last() == ls[x]);
                    assert(b[y].last() == ls[y]);
                }
            }
        }
    }
}

} // verus!

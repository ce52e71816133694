//! What holds of the entries of every document.

use crate::entries::{
    all_leaves, base_values, expand, flagged, index_entries, leaves, leaves_from, left_out, sparse,
    text_keys,
};
use crate::index::IndexType;
use crate::seqs::{
    distinct, extend, lemma_product_contains, lemma_product_distinct, lemma_unique,
    lemma_unique_of_distinct, product, unique,
};
use crate::value::{at_path, or_null, Val};
use vstd::prelude::*;

verus! {

/// The values listed for the items of an array from the `i`-th on are those listed for one
/// of these items.
proof fn lemma_leaves_from_contains(v: Val, i: nat, x: Val)
    requires
        v is Array,
    ensures
        leaves_from(v, i).contains(x) <==> exists|k: int|
            i <= k < v->Array_0.len() && #[trigger] all_leaves(v->Array_0[k]).contains(x),
    decreases v->Array_0.len() - i,
{
    let a = v->Array_0;
    if i < a.len() {
        let head = all_leaves(a[i as int]);
        let tail = leaves_from(v, i + 1);
        lemma_leaves_from_contains(v, i + 1, x);
        if (head + tail).contains(x) {
            let k = choose|k: int| 0 <= k < (head + tail).len() && (head + tail)[k] == x;
            if k < head.len() {
                assert(head[k] == x);
                assert(all_leaves(a[i as int]).contains(x));
            } else {
                assert(tail[k - head.len()] == x);
                assert(tail.contains(x));
            }
        }
        if exists|k: int| i <= k < a.len() && #[trigger] all_leaves(a[k]).contains(x) {
            let k = choose|k: int| i <= k < a.len() && #[trigger] all_leaves(a[k]).contains(x);
            if k == i {
                let j = choose|j: int| 0 <= j < head.len() && head[j] == x;
                assert((head + tail)[j] == x);
            } else {
                assert(tail.contains(x));
                let j = choose|j: int| 0 <= j < tail.len() && tail[j] == x;
                assert((head + tail)[head.len() + j] == x);
            }
        }
    }
}

/// An array stands for exactly the values that its items stand for.
pub proof fn lemma_leaves_of_array(a: Seq<Val>, x: Val)
    ensures
        leaves(Val::Array(a)).contains(x) <==> exists|k: int|
            0 <= k < a.len() && #[trigger] leaves(a[k]).contains(x),
{
    let v = Val::Array(a);
    lemma_unique(all_leaves(v));
    lemma_leaves_from_contains(v, 0, x);
    if leaves(v).contains(x) {
        let k = choose|k: int| 0nat <= k < a.len() && #[trigger] all_leaves(a[k]).contains(x);
        lemma_unique(all_leaves(a[k]));
        assert(leaves(a[k]).contains(x));
    }
    if exists|k: int| 0 <= k < a.len() && #[trigger] leaves(a[k]).contains(x) {
        let k = choose|k: int| 0 <= k < a.len() && #[trigger] leaves(a[k]).contains(x);
        lemma_unique(all_leaves(a[k]));
        assert(0nat <= k < v->Array_0.len() && all_leaves(v->Array_0[k]).contains(x));
    }
}

/// A value that is no array stands for itself alone.
pub proof fn lemma_leaves_scalar(v: Val)
    requires
        !(v is Array),
    ensures
        leaves(v) == seq![v],
{
    assert(distinct(seq![v]));
    lemma_unique_of_distinct(seq![v]);
}

/// An array of values that are no arrays stands for its items, in their order.
proof fn lemma_leaves_from_flat(v: Val, i: nat)
    requires
        v is Array,
        forall|k: int| 0 <= k < v->Array_0.len() ==> !(#[trigger] v->Array_0[k] is Array),
        i <= v->Array_0.len(),
    ensures
        leaves_from(v, i) == v->Array_0.skip(i as int),
    decreases v->Array_0.len() - i,
{
    let a = v->Array_0;
    if i < a.len() {
        lemma_leaves_from_flat(v, i + 1);
        assert(!(a[i as int] is Array));
        assert(all_leaves(a[i as int]) == seq![a[i as int]]);
        assert(leaves_from(v, i) == all_leaves(a[i as int]) + leaves_from(v, i + 1));
        assert(seq![a[i as int]] + a.skip(i as int + 1) =~= a.skip(i as int));
    } else {
        assert(a.skip(i as int) =~= Seq::empty());
    }
}

/// An array of values that are no arrays and that all differ stands for exactly its items.
pub proof fn lemma_leaves_flat(a: Seq<Val>)
    requires
        forall|k: int| 0 <= k < a.len() ==> !(#[trigger] a[k] is Array),
        distinct(a),
    ensures
        leaves(Val::Array(a)) == a,
{
    lemma_leaves_from_flat(Val::Array(a), 0);
    assert(a.skip(0) =~= a);
    lemma_unique_of_distinct(a);
}

/// The product with a single item continues each sequence by that item.
proof fn lemma_product_single<T>(ps: Seq<Seq<T>>, x: T)
    ensures
        product(ps, seq![x]) == Seq::new(ps.len(), |i: int| ps[i].push(x)),
    decreases ps.len(),
{
    let want = Seq::new(ps.len(), |i: int| ps[i].push(x));
    if ps.len() > 0 {
        let qs = ps.drop_last();
        lemma_product_single(qs, x);
        assert(extend(ps.last(), seq![x]) =~= seq![ps.last().push(x)]);
        assert(product(qs, seq![x]) + seq![ps.last().push(x)] =~= want);
    } else {
        assert(product(ps, seq![x]) =~= want);
    }
}

/// The product of a single sequence continues it by each item.
proof fn lemma_product_of_one<T>(p: Seq<T>, ls: Seq<T>)
    ensures
        product(seq![p], ls) == extend(p, ls),
{
    assert(seq![p].drop_last() =~= Seq::<Seq<T>>::empty());
    assert(product(Seq::<Seq<T>>::empty(), ls) + extend(p, ls) =~= extend(p, ls));
}

/// Base values without arrays fan out to themselves alone.
pub proof fn lemma_expand_scalars(base: Seq<(Val, bool)>)
    requires
        forall|i: int| 0 <= i < base.len() ==> !(#[trigger] base[i].0 is Array),
    ensures
        expand(base) == seq![base],
    decreases base.len(),
{
    if base.len() > 0 {
        let head = base.drop_last();
        let last = base.last();
        assert forall|i: int| 0 <= i < head.len() implies !(#[trigger] head[i].0 is Array) by {
            assert(head[i] == base[i]);
        }
        lemma_expand_scalars(head);
        assert(!(base[base.len() - 1].0 is Array));
        lemma_leaves_scalar(last.0);
        assert(flagged(seq![last.0], last.1) =~= seq![last]);
        lemma_product_of_one(head, seq![last]);
        assert(extend(head, seq![last]) =~= seq![head.push(last)]);
        assert(head.push(last) =~= base);
    } else {
        assert(base =~= Seq::empty());
    }
}

/// Where the base value at position `p` is an array of `a.len()` values that are no
/// arrays and all differ, and no other base value is an array, the base values fan out to
/// one list for each item of the array, which has that item at `p` and is the base list
/// everywhere else.
pub proof fn lemma_expand_one_array(base: Seq<(Val, bool)>, p: int, a: Seq<Val>)
    requires
        0 <= p < base.len(),
        base[p].0 == Val::Array(a),
        forall|k: int| 0 <= k < a.len() ==> !(#[trigger] a[k] is Array),
        distinct(a),
        forall|i: int| 0 <= i < base.len() && i != p ==> !(#[trigger] base[i].0 is Array),
    ensures
        expand(base) == Seq::new(a.len(), |j: int| base.update(p, (a[j], base[p].1))),
    decreases base.len(),
{
    let want = Seq::new(a.len(), |j: int| base.update(p, (a[j], base[p].1)));
    let head = base.drop_last();
    let last = base.last();
    if p == base.len() - 1 {
        assert forall|i: int| 0 <= i < head.len() implies !(#[trigger] head[i].0 is Array) by {
            assert(head[i] == base[i]);
        }
        lemma_expand_scalars(head);
        lemma_leaves_flat(a);
        lemma_product_of_one(head, flagged(a, last.1));
        assert forall|j: int| 0 <= j < a.len() implies extend(head, flagged(a, last.1))[j]
            == want[j] by {
            assert(head.push((a[j], last.1)) =~= base.update(p, (a[j], base[p].1)));
        }
        assert(extend(head, flagged(a, last.1)) =~= want);
    } else {
        assert(head[p] == base[p]);
        assert forall|i: int| 0 <= i < head.len() && i != p implies !(#[trigger] head[i].0
            is Array) by {
            assert(head[i] == base[i]);
        }
        lemma_expand_one_array(head, p, a);
        assert(!(base[base.len() - 1].0 is Array));
        lemma_leaves_scalar(last.0);
        assert(flagged(seq![last.0], last.1) =~= seq![last]);
        lemma_product_single(expand(head), last);
        assert forall|j: int| 0 <= j < a.len() implies expand(head)[j].push(last) == want[j] by {
            assert(head.update(p, (a[j], head[p].1)).push(last) =~= base.update(
                p,
                (a[j], base[p].1),
            ));
        }
        assert(Seq::new(expand(head).len(), |i: int| expand(head)[i].push(last)) =~= want);
    }
}

/// Flagging keeps values apart.
proof fn lemma_flagged_distinct(ls: Seq<Val>, flag: bool)
    requires
        distinct(ls),
    ensures
        distinct(flagged(ls, flag)),
{
    assert forall|i: int, j: int| 0 <= i < j < ls.len() implies flagged(ls, flag)[i] != flagged(
        ls,
        flag,
    )[j] by {
        assert(ls[i] != ls[j]);
    }
}

/// The base values never fan out to the same list twice.
pub proof fn lemma_expand_distinct(base: Seq<(Val, bool)>)
    ensures
        distinct(expand(base)),
    decreases base.len(),
{
    if base.len() > 0 {
        lemma_expand_distinct(base.drop_last());
        lemma_unique(all_leaves(base.last().0));
        lemma_flagged_distinct(leaves(base.last().0), base.last().1);
        lemma_product_distinct(
            expand(base.drop_last()),
            flagged(leaves(base.last().0), base.last().1),
        );
    }
}

/// A list is among those that the base values fan out to exactly if it has, at every
/// position, the flag of the base value there and one of the values that the base value
/// stands for.
pub proof fn lemma_expand_contains(base: Seq<(Val, bool)>, e: Seq<(Val, bool)>)
    ensures
        expand(base).contains(e) <==> e.len() == base.len() && forall|i: int|
            0 <= i < base.len() ==> (#[trigger] e[i]).1 == base[i].1 && leaves(base[i].0).contains(
                e[i].0,
            ),
    decreases base.len(),
{
    if base.len() == 0 {
        assert(expand(base)[0] == Seq::<(Val, bool)>::empty());
        if e.len() == 0 {
            assert(e =~= Seq::empty());
        }
    } else {
        let head = base.drop_last();
        let last = base.last();
        let ls = flagged(leaves(last.0), last.1);
        lemma_product_contains(expand(head), ls, e);
        if e.len() > 0 {
            lemma_expand_contains(head, e.drop_last());
            if ls.contains(e.last()) {
                let j = choose|j: int| 0 <= j < ls.len() && ls[j] == e.last();
                assert(leaves(last.0)[j] == e.last().0);
                assert(leaves(last.0).contains(e.last().0));
            }
            if e.last().1 == last.1 && leaves(last.0).contains(e.last().0) {
                let j = choose|j: int| 0 <= j < leaves(last.0).len() && leaves(last.0)[j]
                    == e.last().0;
                assert(ls[j] == e.last());
            }
            if expand(base).contains(e) {
                assert forall|i: int| 0 <= i < base.len() implies (#[trigger] e[i]).1
                    == base[i].1 && leaves(base[i].0).contains(e[i].0) by {
                    if i < head.len() {
                        assert(e.drop_last()[i] == e[i]);
                        assert(head[i] == base[i]);
                    }
                }
            }
            if e.len() == base.len() && forall|i: int|
                0 <= i < base.len() ==> (#[trigger] e[i]).1 == base[i].1 && leaves(
                    base[i].0,
                ).contains(e[i].0) {
                assert forall|i: int| 0 <= i < head.len() implies (#[trigger] e.drop_last()[i]).1
                    == head[i].1 && leaves(head[i].0).contains(e.drop_last()[i].0) by {
                    assert(e.drop_last()[i] == e[i]);
                    assert(head[i] == base[i]);
                }
                assert(e[base.len() - 1].1 == base[base.len() - 1].1);
            }
        }
    }
}

/// No entry of a document is given twice.
pub proof fn lemma_entries_distinct(
    doc: Val,
    fields: Seq<(Seq<char>, IndexType)>,
    weights: Option<Seq<(Seq<char>, i32)>>,
    options: Val,
)
    ensures
        distinct(index_entries(doc, fields, weights, options)),
{
    let base = base_values(doc, fields, sparse(options));
    lemma_expand_distinct(base);
    match weights {
        Some(w) => {
            lemma_unique(text_keys(doc, w));
            lemma_flagged_distinct(unique(text_keys(doc, w)), false);
            lemma_product_distinct(expand(base), flagged(unique(text_keys(doc, w)), false));
        },
        None => {},
    }
}

/// Every base value is the value of an ordered field, null standing for an absent one.
proof fn lemma_base_values_origin(doc: Val, fields: Seq<(Seq<char>, IndexType)>, sparse: bool)
    ensures
        forall|j: int|
            0 <= j < base_values(doc, fields, sparse).len() ==> exists|i: int|
                0 <= i < fields.len() && (#[trigger] base_values(doc, fields, sparse)[j]).0
                    == or_null(at_path(doc, fields[i].0)),
    decreases fields.len(),
{
    if fields.len() > 0 {
        let head = fields.drop_last();
        lemma_base_values_origin(doc, head, sparse);
        let b = base_values(doc, fields, sparse);
        let r = base_values(doc, head, sparse);
        assert forall|j: int| 0 <= j < b.len() implies exists|i: int|
            0 <= i < fields.len() && (#[trigger] b[j]).0 == or_null(at_path(doc, fields[i].0)) by {
            if j < r.len() {
                assert(b[j] == r[j]);
                let i = choose|i: int|
                    0 <= i < head.len() && r[j].0 == or_null(at_path(doc, head[i].0));
                assert(fields[i] == head[i]);
            } else {
                assert(b[j].0 == or_null(at_path(doc, fields[fields.len() - 1].0)));
            }
        }
    }
}

/// A document whose ordered fields hold no array, in an index without text weights that
/// does not leave it out, has exactly one entry: its base values.
pub proof fn lemma_one_entry(doc: Val, fields: Seq<(Seq<char>, IndexType)>, options: Val)
    requires
        forall|i: int| 0 <= i < fields.len() ==> !(at_path(doc, (#[trigger] fields[i]).0) is Array),
        !left_out(doc, fields, sparse(options)),
    ensures
        index_entries(doc, fields, None, options) == seq![
            base_values(doc, fields, sparse(options)),
        ],
        index_entries(doc, fields, None, options).len() == 1,
{
    let base = base_values(doc, fields, sparse(options));
    lemma_base_values_origin(doc, fields, sparse(options));
    assert forall|j: int| 0 <= j < base.len() implies !(#[trigger] base[j].0 is Array) by {
        let i = choose|i: int|
            0 <= i < fields.len() && base[j].0 == or_null(at_path(doc, fields[i].0));
        assert(!(at_path(doc, fields[i].0) is Array));
    }
    lemma_expand_scalars(base);
}

/// Multikey fan-out. Where the base value at position `p` is an array of `a.len()` values
/// that are no arrays and all differ, and no other base value is an array, an index without
/// text weights has exactly `a.len()` entries for the document. The `j`-th has the `j`-th
/// item at `p` and is the base list everywhere else.
pub proof fn lemma_multikey(
    doc: Val,
    fields: Seq<(Seq<char>, IndexType)>,
    options: Val,
    p: int,
    a: Seq<Val>,
)
    requires
        0 <= p < base_values(doc, fields, sparse(options)).len(),
        base_values(doc, fields, sparse(options))[p].0 == Val::Array(a),
        forall|k: int| 0 <= k < a.len() ==> !(#[trigger] a[k] is Array),
        distinct(a),
        forall|i: int|
            0 <= i < base_values(doc, fields, sparse(options)).len() && i != p ==> !(
            #[trigger] base_values(doc, fields, sparse(options))[i].0 is Array),
    ensures
        index_entries(doc, fields, None, options).len() == a.len(),
        forall|j: int|
            0 <= j < a.len() ==> #[trigger] index_entries(doc, fields, None, options)[j]
                == base_values(doc, fields, sparse(options)).update(
                p,
                (a[j], base_values(doc, fields, sparse(options))[p].1),
            ),
{
    lemma_expand_one_array(base_values(doc, fields, sparse(options)), p, a);
}

/// A sparse index has all base values left out where the document has none of its fields.
proof fn lemma_base_values_absent(doc: Val, fields: Seq<(Seq<char>, IndexType)>)
    requires
        forall|i: int| 0 <= i < fields.len() ==> at_path(doc, (#[trigger] fields[i]).0) is Undefined,
    ensures
        base_values(doc, fields, true).len() == 0,
    decreases fields.len(),
{
    if fields.len() > 0 {
        let head = fields.drop_last();
        assert forall|i: int| 0 <= i < head.len() implies at_path(doc, (#[trigger] head[i]).0)
            is Undefined by {
            assert(head[i] == fields[i]);
        }
        lemma_base_values_absent(doc, head);
        assert(at_path(doc, fields[fields.len() - 1].0) is Undefined);
    }
}

/// A sparse index holds no entry for a document that has none of its ordered fields.
pub proof fn lemma_sparse_leaves_out(
    doc: Val,
    fields: Seq<(Seq<char>, IndexType)>,
    weights: Option<Seq<(Seq<char>, i32)>>,
    options: Val,
)
    requires
        sparse(options),
        fields.len() > 0,
        forall|i: int| 0 <= i < fields.len() ==> at_path(doc, (#[trigger] fields[i]).0) is Undefined,
    ensures
        index_entries(doc, fields, weights, options).len() == 0,
{
    lemma_base_values_absent(doc, fields);
}

/// An index on one field that is not sparse and has no text weights holds, for a document
/// without that field, the one entry whose value is null.
pub proof fn lemma_absent_is_null(doc: Val, fields: Seq<(Seq<char>, IndexType)>, options: Val)
    requires
        !sparse(options),
        fields.len() == 1,
        at_path(doc, fields[0].0) is Undefined,
    ensures
        index_entries(doc, fields, None, options) == seq![
            seq![(Val::Null, fields[0].1 == IndexType::Backward)],
        ],
{
    let base = base_values(doc, fields, false);
    assert(fields.drop_last() =~= Seq::empty());
    assert(base_values(doc, fields.drop_last(), false) =~= Seq::empty());
    assert(base =~= seq![(Val::Null, fields[0].1 == IndexType::Backward)]);
    assert(!(base[0].0 is Array));
    lemma_expand_scalars(base);
}

} // verus!

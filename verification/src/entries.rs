//! The index entries of a document: which composite keys a document occupies in an index.
//!
//! An entry is a list of (value, descending) pairs, one pair for each ordered field of the
//! index and, in a text index, one more for a token with its weight.

use crate::index::IndexType;
use crate::seqs::{distinct, extend, first_where, lemma_first_where_is, product, unique};
use crate::text::{chars_of, string_of};
use crate::value::{at_path, field, or_null, texts, Val, Value};
use vstd::prelude::*;

verus! {

/// The path that stands for every text in the document.
pub open spec fn wildcard() -> Seq<char> {
    "&**"@
}

/// Whether the options ask for a sparse index.
pub open spec fn sparse(options: Val) -> bool {
    match options {
        Val::Document(o) => field(o, "sparse"@) == Some(Val::Boolean(true)),
        _ => false,
    }
}

/// The value of each ordered field, in order, with the field's descending flag. An absent
/// field counts as null; in a sparse index it is left out instead.
pub open spec fn base_values(doc: Val, fields: Seq<(Seq<char>, IndexType)>, sparse: bool) -> Seq<
    (Val, bool),
>
    decreases fields.len(),
{
    if fields.len() == 0 {
        Seq::empty()
    } else {
        let rest = base_values(doc, fields.drop_last(), sparse);
        let f = fields.last();
        let v = at_path(doc, f.0);
        if sparse && v is Undefined {
            rest
        } else {
            rest.push((or_null(v), f.1 == IndexType::Backward))
        }
    }
}

/// Whether a sparse index leaves the document out: it has ordered fields and the document
/// has none of them.
pub open spec fn left_out(doc: Val, fields: Seq<(Seq<char>, IndexType)>, sparse: bool) -> bool {
    sparse && fields.len() > 0 && base_values(doc, fields, sparse).len() == 0
}

/// The values that `v` stands for in a key, with repeats: `v` itself, or, where `v` is an
/// array, what its items stand for, in order.
pub open spec fn all_leaves(v: Val) -> Seq<Val>
    decreases v, 1nat,
{
    match v {
        Val::Array(a) => leaves_from(v, 0),
        _ => seq![v],
    }
}

/// What the items of the array `v` from the `i`-th on stand for.
pub open spec fn leaves_from(v: Val, i: nat) -> Seq<Val>
    decreases v, 0nat, v->Array_0.len() - i,
{
    if v is Array && i < v->Array_0.len() {
        all_leaves(v->Array_0[i as int]) + leaves_from(v, i + 1)
    } else {
        Seq::empty()
    }
}

/// The values that `v` stands for in a key, each once.
pub open spec fn leaves(v: Val) -> Seq<Val> {
    unique(all_leaves(v))
}

/// Each value with the same flag.
pub open spec fn flagged(ls: Seq<Val>, flag: bool) -> Seq<(Val, bool)> {
    Seq::new(ls.len(), |j: int| (ls[j], flag))
}

/// The lists that the base values fan out to: at every position, each value that the base
/// value there stands for.
pub open spec fn expand(base: Seq<(Val, bool)>) -> Seq<Seq<(Val, bool)>>
    decreases base.len(),
{
    if base.len() == 0 {
        seq![Seq::empty()]
    } else {
        product(expand(base.drop_last()), flagged(leaves(base.last().0), base.last().1))
    }
}

/// Whether `c` is white space.
pub open spec fn is_space(c: char) -> bool {
    ||| c == ' '
    ||| '\u{9}' <= c <= '\u{d}'
    ||| c == '\u{85}'
    ||| c == '\u{a0}'
    ||| c == '\u{1680}'
    ||| '\u{2000}' <= c <= '\u{200a}'
    ||| c == '\u{2028}'
    ||| c == '\u{2029}'
    ||| c == '\u{202f}'
    ||| c == '\u{205f}'
    ||| c == '\u{3000}'
}

/// The test "is white space".
pub open spec fn blank() -> spec_fn(char) -> bool {
    |c: char| is_space(c)
}

/// The test "is no white space".
pub open spec fn inked() -> spec_fn(char) -> bool {
    |c: char| !is_space(c)
}

/// The words of `s`: its longest runs of characters that are no white space, in order.
pub open spec fn tokens(s: Seq<char>) -> Seq<Seq<char>>
    decreases s.len(),
{
    let start = first_where(s, inked());
    if 0 <= start < s.len() {
        let rest = s.skip(start);
        let n = first_where(rest, blank());
        if 0 < n <= rest.len() {
            seq![rest.take(n)] + tokens(rest.skip(n))
        } else {
            Seq::empty()
        }
    } else {
        Seq::empty()
    }
}

/// The words of every text of `ts`, in order.
pub open spec fn all_tokens(ts: Seq<Seq<char>>) -> Seq<Seq<char>>
    decreases ts.len(),
{
    if ts.len() == 0 {
        Seq::empty()
    } else {
        all_tokens(ts.drop_last()) + tokens(ts.last())
    }
}

/// The texts that stand directly in an array.
pub open spec fn direct_texts(a: Seq<Val>) -> Seq<Seq<char>>
    decreases a.len(),
{
    if a.len() == 0 {
        Seq::empty()
    } else {
        match a.last() {
            Val::Text(s) => direct_texts(a.drop_last()).push(s),
            _ => direct_texts(a.drop_last()),
        }
    }
}

/// The texts that a weighted field contributes: the field's text, or the texts directly in
/// its array; for the wildcard path, every text in the document.
pub open spec fn field_texts(doc: Val, path: Seq<char>) -> Seq<Seq<char>> {
    if path == wildcard() {
        texts(doc)
    } else {
        match at_path(doc, path) {
            Val::Text(s) => seq![s],
            Val::Array(a) => direct_texts(a),
            _ => Seq::empty(),
        }
    }
}

/// The key value of a token: the pair of the word and its weight, as an array.
pub open spec fn token_key(t: Seq<char>, w: i32) -> Val {
    Val::Array(seq![Val::Text(t), Val::Int32(w)])
}

/// The key value of each word, all with one weight.
pub open spec fn keyed(ts: Seq<Seq<char>>, w: i32) -> Seq<Val> {
    Seq::new(ts.len(), |i: int| token_key(ts[i], w))
}

/// The token keys of a document: for each weighted field in order, each word of its texts
/// with the field's weight. Repeats are kept.
pub open spec fn text_keys(doc: Val, weights: Seq<(Seq<char>, i32)>) -> Seq<Val>
    decreases weights.len(),
{
    if weights.len() == 0 {
        Seq::empty()
    } else {
        text_keys(doc, weights.drop_last()) + keyed(
            all_tokens(field_texts(doc, weights.last().0)),
            weights.last().1,
        )
    }
}

/// The entries of a document in an index, each once.
///
/// The base values fan out over their arrays. Without weights each list so made is an
/// entry. With weights each list is continued by each distinct token key of the document,
/// ascending. A document that a sparse index leaves out has no entry.
pub open spec fn index_entries(
    doc: Val,
    fields: Seq<(Seq<char>, IndexType)>,
    weights: Option<Seq<(Seq<char>, i32)>>,
    options: Val,
) -> Seq<Seq<(Val, bool)>> {
    let base = base_values(doc, fields, sparse(options));
    if left_out(doc, fields, sparse(options)) {
        Seq::empty()
    } else {
        match weights {
            None => expand(base),
            Some(w) => product(expand(base), flagged(unique(text_keys(doc, w)), false)),
        }
    }
}

/// Whether `c` is white space.
pub fn is_whitespace(c: char) -> (r: bool)
    ensures
        r == is_space(c),
{
    c == ' ' || ('\u{9}' <= c && c <= '\u{d}') || c == '\u{85}' || c == '\u{a0}' || c == '\u{1680}'
        || ('\u{2000}' <= c && c <= '\u{200a}') || c == '\u{2028}' || c == '\u{2029}' || c
        == '\u{202f}' || c == '\u{205f}' || c == '\u{3000}'
}

/// The words of `s`, cut at white space.
pub fn tokenize(s: &str) -> (r: Vec<String>)
    ensures
        r.deep_view() == tokens(s@),
{
    let cs = chars_of(s);
    let n = cs.len();
    let mut out: Vec<String> = Vec::new();
    let mut pos: usize = 0;
    assert(out.deep_view() =~= Seq::empty());
    assert(cs@.skip(0) =~= cs@);
    assert(Seq::<Seq<char>>::empty() + tokens(s@) =~= tokens(s@));
    loop
        invariant
            cs@ == s@,
            n == cs.len(),
            pos <= n,
            out.deep_view() + tokens(cs@.skip(pos as int)) == tokens(s@),
        decreases n - pos,
    {
        let ghost tail = cs@.skip(pos as int);
        let mut start: usize = pos;
        while start < n && is_whitespace(cs[start])
            invariant
                pos <= start <= n,
                n == cs.len(),
                forall|j: int| pos <= j < start ==> is_space(cs[j]),
            decreases n - start,
        {
            start += 1;
        }
        proof {
            lemma_first_where_is(tail, inked(), start - pos);
        }
        if start == n {
            assert(out.deep_view() + Seq::<Seq<char>>::empty() =~= out.deep_view());
            return out;
        }
        let ghost rest = tail.skip(start - pos);
        assert(rest =~= cs@.skip(start as int));
        let mut end: usize = start + 1;
        while end < n && !is_whitespace(cs[end])
            invariant
                start < end <= n,
                n == cs.len(),
                forall|j: int| start <= j < end ==> !is_space(cs[j]),
            decreases n - end,
        {
            end += 1;
        }
        proof {
            lemma_first_where_is(rest, blank(), end - start);
            assert(rest.take(end - start) =~= cs@.subrange(start as int, end as int));
            assert(rest.skip(end - start) =~= cs@.skip(end as int));
        }
        let word = string_of(&cs, start, end);
        let ghost before = out.deep_view();
        out.push(word);
        assert(out.deep_view() =~= before.push(word@));
        assert(before + (seq![word@] + tokens(cs@.skip(end as int))) =~= before.push(word@)
            + tokens(cs@.skip(end as int)));
        pos = end;
    }
}

/// Whether `vs` holds a value with the content of `v`.
pub fn contains_value(vs: &Vec<Value>, v: &Value) -> (r: bool)
    ensures
        r == vs.deep_view().contains(v@),
{
    let mut i: usize = 0;
    while i < vs.len()
        invariant
            i <= vs.len(),
            forall|j: int| 0 <= j < i ==> vs.deep_view()[j] != v@,
        decreases vs.len() - i,
    {
        if vs[i].same(v) {
            assert(vs.deep_view()[i as int] == v@);
            return true;
        }
        i += 1;
    }
    false
}

/// The values of `vs`, each where it first occurs.
pub fn dedupe(vs: &Vec<Value>) -> (r: Vec<Value>)
    ensures
        r.deep_view() == unique(vs.deep_view()),
{
    let ghost all = vs.deep_view();
    let mut out: Vec<Value> = Vec::new();
    let mut i: usize = 0;
    assert(all.take(0) =~= Seq::empty());
    assert(out.deep_view() =~= Seq::empty());
    while i < vs.len()
        invariant
            i <= vs.len(),
            all == vs.deep_view(),
            out.deep_view() == unique(all.take(i as int)),
        decreases vs.len() - i,
    {
        proof {
            assert(all.take(i + 1).drop_last() =~= all.take(i as int));
            assert(all.take(i + 1).last() == vs[i as int]@);
        }
        if !contains_value(&out, &vs[i]) {
            let ghost before = out.deep_view();
            out.push(vs[i].copy());
            assert(out.deep_view() =~= before.push(vs[i as int]@));
        }
        i += 1;
    }
    assert(all.take(vs.len() as int) =~= all);
    out
}

/// Appends to `out` the values that `v` stands for in a key, with repeats.
pub fn collect_leaves(v: &Value, out: &mut Vec<Value>)
    ensures
        final(out).deep_view() == old(out).deep_view() + all_leaves(v@),
    decreases v,
{
    let ghost before = out.deep_view();
    match v {
        Value::Array(a) => {
            let mut i: usize = 0;
            assert(out.deep_view() + leaves_from(v@, 0) =~= before + all_leaves(v@));
            while i < a.len()
                invariant
                    i <= a.len(),
                    v == Value::Array(*a),
                    out.deep_view() + leaves_from(v@, i as nat) == before + all_leaves(v@),
                decreases a.len() - i,
            {
                let ghost mid = out.deep_view();
                assert(v@->Array_0[i as int] == a[i as int]@);
                assert(decreases_to!(v => v->Array_0));
                assert(decreases_to!(*a => a[i as int]));
                collect_leaves(&a[i], out);
                assert((mid + all_leaves(a[i as int]@)) + leaves_from(v@, (i + 1) as nat) =~= mid
                    + leaves_from(v@, i as nat));
                i += 1;
            }
            assert(out.deep_view() + Seq::<Val>::empty() =~= out.deep_view());
        },
        _ => {
            out.push(v.copy());
            assert(out.deep_view() =~= before + seq![v@]);
        },
    }
}

/// A list of its own with the same pairs.
pub fn copy_entry(e: &Vec<(Value, bool)>) -> (r: Vec<(Value, bool)>)
    ensures
        r.deep_view() == e.deep_view(),
{
    let mut out: Vec<(Value, bool)> = Vec::new();
    let mut i: usize = 0;
    while i < e.len()
        invariant
            i <= e.len(),
            out.len() == i,
            forall|j: int| 0 <= j < i ==> out[j].0@ == e[j].0@ && out[j].1 == e[j].1,
        decreases e.len() - i,
    {
        out.push((e[i].0.copy(), e[i].1));
        i += 1;
    }
    assert(out.deep_view() =~= e.deep_view());
    out
}

/// Every list of `ps` continued by every value of `ls` with the flag `flag`.
pub fn multiply(ps: &Vec<Vec<(Value, bool)>>, ls: &Vec<Value>, flag: bool) -> (r: Vec<
    Vec<(Value, bool)>,
>)
    ensures
        r.deep_view() == product(ps.deep_view(), flagged(ls.deep_view(), flag)),
{
    let ghost pv = ps.deep_view();
    let ghost lv = flagged(ls.deep_view(), flag);
    let mut out: Vec<Vec<(Value, bool)>> = Vec::new();
    let mut i: usize = 0;
    assert(pv.take(0) =~= Seq::empty());
    assert(out.deep_view() =~= Seq::empty());
    while i < ps.len()
        invariant
            i <= ps.len(),
            pv == ps.deep_view(),
            lv == flagged(ls.deep_view(), flag),
            out.deep_view() == product(pv.take(i as int), lv),
        decreases ps.len() - i,
    {
        let ghost done = out.deep_view();
        let ghost row = extend(pv[i as int], lv);
        proof {
            assert(pv.take(i + 1).drop_last() =~= pv.take(i as int));
            assert(pv.take(i + 1).last() == pv[i as int]);
            assert(row.take(0) =~= Seq::empty());
            assert(done + Seq::<Seq<(Val, bool)>>::empty() =~= done);
        }
        let mut j: usize = 0;
        while j < ls.len()
            invariant
                i < ps.len(),
                j <= ls.len(),
                pv == ps.deep_view(),
                lv == flagged(ls.deep_view(), flag),
                row == extend(pv[i as int], lv),
                out.deep_view() == done + row.take(j as int),
            decreases ls.len() - j,
        {
            let ghost mid = out.deep_view();
            let mut e = copy_entry(&ps[i]);
            let ghost head = e.deep_view();
            e.push((ls[j].copy(), flag));
            assert(e.deep_view() =~= head.push((ls[j as int]@, flag)));
            assert(e.deep_view() == row[j as int]);
            out.push(e);
            assert(out.deep_view() =~= mid.push(row[j as int]));
            assert(done + row.take(j + 1) =~= (done + row.take(j as int)).push(row[j as int]));
            j += 1;
        }
        assert(row.take(ls.len() as int) =~= row);
        i += 1;
    }
    assert(pv.take(ps.len() as int) =~= pv);
    out
}

/// The value of each ordered field of the index in `new_doc`, with the field's descending
/// flag.
pub fn find_index_entry_vals(
    normspec: &Vec<(String, IndexType)>,
    new_doc: &Value,
    sparse: bool,
) -> (r: Vec<(Value, bool)>)
    ensures
        r.deep_view() == base_values(new_doc@, normspec.deep_view(), sparse),
{
    let ghost fields = normspec.deep_view();
    let mut r: Vec<(Value, bool)> = Vec::new();
    let mut i: usize = 0;
    assert(fields.take(0) =~= Seq::empty());
    assert(r.deep_view() =~= Seq::empty());
    while i < normspec.len()
        invariant
            i <= normspec.len(),
            fields == normspec.deep_view(),
            r.deep_view() == base_values(new_doc@, fields.take(i as int), sparse),
        decreases normspec.len() - i,
    {
        proof {
            assert(fields.take(i + 1).drop_last() =~= fields.take(i as int));
            assert(fields.take(i + 1).last() == (normspec[i as int].0@, normspec[i as int].1));
        }
        let v = new_doc.find_path(normspec[i].0.as_str());
        let keep = if sparse {
            match v {
                Value::Undefined => false,
                _ => true,
            }
        } else {
            true
        };
        if keep {
            let neg = normspec[i].1 == IndexType::Backward;
            let ghost before = r.deep_view();
            let ghost found = v@;
            r.push((v.replace_undefined(), neg));
            assert(r.deep_view() =~= before.push((or_null(found), neg)));
        }
        i += 1;
    }
    assert(fields.take(normspec.len() as int) =~= fields);
    r
}

/// The lists that `vals` fan out to where values are arrays: one list for each choice of a
/// value at every position.
pub fn expand_arrays(vals: &Vec<(Value, bool)>) -> (r: Vec<Vec<(Value, bool)>>)
    ensures
        r.deep_view() == expand(vals.deep_view()),
{
    let ghost base = vals.deep_view();
    let mut out: Vec<Vec<(Value, bool)>> = Vec::new();
    out.push(Vec::new());
    assert(out[0].deep_view() =~= Seq::<(Val, bool)>::empty());
    assert(out.deep_view() =~= seq![Seq::<(Val, bool)>::empty()]);
    assert(base.take(0) =~= Seq::empty());
    let mut i: usize = 0;
    while i < vals.len()
        invariant
            i <= vals.len(),
            base == vals.deep_view(),
            out.deep_view() == expand(base.take(i as int)),
        decreases vals.len() - i,
    {
        proof {
            assert(base.take(i + 1).drop_last() =~= base.take(i as int));
            assert(base.take(i + 1).last() == (vals[i as int].0@, vals[i as int].1));
        }
        let mut found: Vec<Value> = Vec::new();
        assert(found.deep_view() =~= Seq::empty());
        collect_leaves(&vals[i].0, &mut found);
        assert(found.deep_view() =~= all_leaves(vals[i as int].0@));
        let ls = dedupe(&found);
        out = multiply(&out, &ls, vals[i].1);
        i += 1;
    }
    assert(base.take(vals.len() as int) =~= base);
    out
}

/// Appends the texts that stand directly in `a`.
fn collect_direct_texts(a: &Vec<Value>, out: &mut Vec<String>)
    ensures
        final(out).deep_view() == old(out).deep_view() + direct_texts(a.deep_view()),
{
    let ghost before = out.deep_view();
    let ghost all = a.deep_view();
    let mut i: usize = 0;
    assert(all.take(0) =~= Seq::empty());
    assert(before + Seq::<Seq<char>>::empty() =~= before);
    while i < a.len()
        invariant
            i <= a.len(),
            all == a.deep_view(),
            out.deep_view() == before + direct_texts(all.take(i as int)),
        decreases a.len() - i,
    {
        proof {
            assert(all.take(i + 1).drop_last() =~= all.take(i as int));
            assert(all.take(i + 1).last() == a[i as int]@);
        }
        match &a[i] {
            Value::Text(s) => {
                let ghost mid = out.deep_view();
                out.push(s.clone());
                assert(out.deep_view() =~= mid.push(s@));
                assert(mid.push(s@) =~= before + direct_texts(all.take(i as int)).push(s@));
            },
            _ => {},
        }
        i += 1;
    }
    assert(all.take(a.len() as int) =~= all);
}

/// The texts that the weighted field at `path` contributes.
pub fn texts_of_field(doc: &Value, path: &String) -> (r: Vec<String>)
    ensures
        r.deep_view() == field_texts(doc@, path@),
{
    let mut out: Vec<String> = Vec::new();
    assert(out.deep_view() =~= Seq::empty());
    let all = "&**".to_owned();
    if *path == all {
        doc.collect_texts(&mut out);
        assert(out.deep_view() =~= texts(doc@));
        return out;
    }
    match doc.find_path(path.as_str()) {
        Value::Text(s) => {
            let ghost sv = s@;
            out.push(s);
            assert(out.deep_view() =~= seq![sv]);
        },
        Value::Array(a) => {
            proof {
                crate::value::lemma_array_view(a);
            }
            collect_direct_texts(&a, &mut out);
            assert(out.deep_view() =~= direct_texts(a.deep_view()));
        },
        _ => {},
    }
    out
}

/// The token keys of a document under the given weights, repeats kept.
pub fn text_values(doc: &Value, weights: &Vec<(String, i32)>) -> (r: Vec<Value>)
    ensures
        r.deep_view() == text_keys(doc@, weights.deep_view()),
{
    let ghost wv = weights.deep_view();
    let mut out: Vec<Value> = Vec::new();
    let mut i: usize = 0;
    assert(wv.take(0) =~= Seq::empty());
    assert(out.deep_view() =~= Seq::empty());
    while i < weights.len()
        invariant
            i <= weights.len(),
            wv == weights.deep_view(),
            out.deep_view() == text_keys(doc@, wv.take(i as int)),
        decreases weights.len() - i,
    {
        proof {
            assert(wv.take(i + 1).drop_last() =~= wv.take(i as int));
            assert(wv.take(i + 1).last() == (weights[i as int].0@, weights[i as int].1));
        }
        let w = weights[i].1;
        let found = texts_of_field(doc, &weights[i].0);
        let ghost fv = found.deep_view();
        let ghost done = out.deep_view();
        let ghost added = keyed(all_tokens(fv), w);
        let mut j: usize = 0;
        assert(fv.take(0) =~= Seq::empty());
        assert(done + keyed(Seq::<Seq<char>>::empty(), w) =~= done);
        while j < found.len()
            invariant
                j <= found.len(),
                fv == found.deep_view(),
                out.deep_view() == done + keyed(all_tokens(fv.take(j as int)), w),
            decreases found.len() - j,
        {
            proof {
                assert(fv.take(j + 1).drop_last() =~= fv.take(j as int));
                assert(fv.take(j + 1).last() == found[j as int]@);
            }
            let words = tokenize(found[j].as_str());
            let ghost wordv = words.deep_view();
            let ghost sofar = all_tokens(fv.take(j as int));
            let mut k: usize = 0;
            assert(sofar + wordv.take(0) =~= sofar);
            while k < words.len()
                invariant
                    k <= words.len(),
                    wordv == words.deep_view(),
                    out.deep_view() == done + keyed(sofar + wordv.take(k as int), w),
                decreases words.len() - k,
            {
                let ghost mid = out.deep_view();
                let mut pair: Vec<Value> = Vec::new();
                pair.push(Value::Text(words[k].clone()));
                pair.push(Value::Int32(w));
                proof {
                    crate::value::lemma_array_view(pair);
                    assert(pair.deep_view() =~= seq![Val::Text(words[k as int]@), Val::Int32(w)]);
                }
                out.push(Value::Array(pair));
                assert(out.deep_view() =~= mid.push(token_key(wordv[k as int], w)));
                assert(done + keyed(sofar + wordv.take(k + 1), w) =~= (done + keyed(
                    sofar + wordv.take(k as int),
                    w,
                )).push(token_key(wordv[k as int], w)));
                k += 1;
            }
            assert(wordv.take(words.len() as int) =~= wordv);
            j += 1;
        }
        assert(fv.take(found.len() as int) =~= fv);
        i += 1;
    }
    assert(wv.take(weights.len() as int) =~= wv);
    out
}

/// The entries that `new_doc` occupies in the index with the ordered fields `normspec`,
/// the text weights `weights` and the options `options`. No entry is given twice.
pub fn get_index_entries(
    new_doc: &Value,
    normspec: &Vec<(String, IndexType)>,
    weights: &Option<Vec<(String, i32)>>,
    options: &Value,
) -> (entries: Vec<Vec<(Value, bool)>>)
    ensures
        entries.deep_view() == index_entries(
            new_doc@,
            normspec.deep_view(),
            weights.deep_view(),
            options@,
        ),
{
    let flag = Value::Boolean(true);
    let sparse = match options.find_key("sparse") {
        Some(b) => b.same(&flag),
        None => false,
    };
    let vals = find_index_entry_vals(normspec, new_doc, sparse);
    if sparse && normspec.len() > 0 && vals.len() == 0 {
        let none: Vec<Vec<(Value, bool)>> = Vec::new();
        assert(none.deep_view() =~= Seq::empty());
        return none;
    }
    let bases = expand_arrays(&vals);
    match weights {
        None => bases,
        Some(w) => {
            let keys = dedupe(&text_values(new_doc, w));
            multiply(&bases, &keys, false)
        },
    }
}

} // verus!

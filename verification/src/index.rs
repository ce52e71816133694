//! Index descriptions and their normal form: the ordered scalar fields with their
//! directions, and the weights of the fields that contribute text.

use crate::error::Error;
use crate::seqs::{first_where, lemma_first_where, lemma_first_where_is};
use crate::value::{field, Val, Value};
use vstd::prelude::*;

verus! {

/// How one field of an index is ordered.
#[derive(Debug, Clone, Copy, PartialEq, Eq, Structural)]
pub enum IndexType {
    Forward,
    Backward,
    Geo2d,
}

impl DeepView for IndexType {
    type V = IndexType;

    open spec fn deep_view(&self) -> IndexType {
        *self
    }
}

/// The content of an index description.
pub struct IndexInfoV {
    pub db: Seq<char>,
    pub coll: Seq<char>,
    pub name: Seq<char>,
    pub spec: Val,
    pub options: Val,
}

/// An index as it is declared and persisted: the collection it belongs to, its name, its
/// keys in order (each a field path with a direction or the word `text`), and its options.
#[derive(Debug, PartialEq, Eq)]
pub struct IndexInfo {
    pub db: String,
    pub coll: String,
    pub name: String,
    pub spec: Value,
    pub options: Value,
}

impl View for IndexInfo {
    type V = IndexInfoV;

    open spec fn view(&self) -> IndexInfoV {
        IndexInfoV {
            db: self.db@,
            coll: self.coll@,
            name: self.name@,
            spec: self.spec@,
            options: self.options@,
        }
    }
}

impl DeepView for IndexInfo {
    type V = IndexInfoV;

    open spec fn deep_view(&self) -> IndexInfoV {
        self@
    }
}

impl Clone for IndexInfo {
    fn clone(&self) -> (r: IndexInfo)
        ensures
            r@ == self@,
    {
        IndexInfo {
            db: self.db.clone(),
            coll: self.coll.clone(),
            name: self.name.clone(),
            spec: self.spec.copy(),
            options: self.options.copy(),
        }
    }
}

/// Whether the floating-point number with these bits is below zero: its sign is set, and
/// it is neither zero nor a NaN.
pub open spec fn double_negative(bits: u64) -> bool {
    0x8000_0000_0000_0000 < bits <= 0xfff0_0000_0000_0000
}

/// The floating-point number with these bits, cut to a whole number towards zero and kept
/// within `i32`; a NaN gives zero.
pub open spec fn double_whole(bits: u64) -> i32 {
    let exponent = (bits >> 52) & 0x7ff;
    let fraction = bits & 0xf_ffff_ffff_ffff;
    let negative = bits >> 63 == 1;
    if exponent == 0x7ff && fraction != 0 {
        0
    } else if exponent < 1023 {
        0
    } else if exponent >= 1054 {
        if negative {
            i32::MIN
        } else {
            i32::MAX
        }
    } else {
        let whole = (0x10_0000_0000_0000 | fraction) >> ((1075 - exponent) as u64);
        if negative {
            (0 - whole) as i32
        } else {
            whole as i32
        }
    }
}

/// The direction that a key's value asks for: a negative number orders backward, any other
/// number forward, and the word `2d` names a planar index.
pub open spec fn direction(v: Val) -> Option<IndexType> {
    match v {
        Val::Int32(n) => Some(
            if n < 0 {
                IndexType::Backward
            } else {
                IndexType::Forward
            },
        ),
        Val::Int64(n) => Some(
            if n < 0 {
                IndexType::Backward
            } else {
                IndexType::Forward
            },
        ),
        Val::Double(bits) => Some(
            if double_negative(bits) {
                IndexType::Backward
            } else {
                IndexType::Forward
            },
        ),
        Val::Text(s) => if s == "2d"@ {
            Some(IndexType::Geo2d)
        } else {
            None
        },
        _ => None,
    }
}

/// The weight that a value gives: a number, cut to 32 bits.
pub open spec fn weight(v: Val) -> Option<i32> {
    match v {
        Val::Int32(n) => Some(n),
        Val::Int64(n) => Some(n as i32),
        Val::Double(bits) => Some(double_whole(bits)),
        _ => None,
    }
}

/// Whether a key asks for text indexing of its field.
pub open spec fn is_text(v: Val) -> bool {
    v == Val::Text("text"@)
}

/// The test "this key's value is the text `s`".
pub open spec fn holds_text(s: Seq<char>) -> spec_fn((Seq<char>, Val)) -> bool {
    |p: (Seq<char>, Val)| p.1 == Val::Text(s)
}

/// The test "this weight is for the field `k`".
pub open spec fn is_for(k: Seq<char>) -> spec_fn((Seq<char>, i32)) -> bool {
    |p: (Seq<char>, i32)| p.0 == k
}

/// How many keys stand before the first text key.
pub open spec fn scalar_count(keys: Seq<(Seq<char>, Val)>) -> int {
    first_where(keys, holds_text("text"@))
}

/// The fields of `keys` with their directions, if every key has one.
pub open spec fn decoded(keys: Seq<(Seq<char>, Val)>) -> Option<Seq<(Seq<char>, IndexType)>> {
    if forall|i: int| 0 <= i < keys.len() ==> direction(#[trigger] keys[i].1) is Some {
        Some(Seq::new(keys.len(), |i: int| (keys[i].0, direction(keys[i].1)->0)))
    } else {
        None
    }
}

/// The position of `k` among the weighted fields, or their number where it is not one.
pub open spec fn weight_index(w: Seq<(Seq<char>, i32)>, k: Seq<char>) -> int {
    first_where(w, is_for(k))
}

/// `w` with the weight of `k` set to `n`: in place where `k` has one, at the end otherwise.
pub open spec fn put(w: Seq<(Seq<char>, i32)>, k: Seq<char>, n: i32) -> Seq<(Seq<char>, i32)> {
    let i = weight_index(w, k);
    if 0 <= i < w.len() {
        w.update(i, (k, n))
    } else {
        w.push((k, n))
    }
}

/// The weights that an options document states, a later one for the same field replacing
/// an earlier; `None` where a weight is no number.
pub open spec fn stated_weights(a: Seq<(Seq<char>, Val)>) -> Option<Seq<(Seq<char>, i32)>>
    decreases a.len(),
{
    if a.len() == 0 {
        Some(Seq::empty())
    } else {
        match (stated_weights(a.drop_last()), weight(a.last().1)) {
            (Some(w), Some(n)) => Some(put(w, a.last().0, n)),
            _ => None,
        }
    }
}

/// `w` with weight 1 for every text key that has no weight yet.
pub open spec fn with_text_keys(w: Seq<(Seq<char>, i32)>, keys: Seq<(Seq<char>, Val)>) -> Seq<
    (Seq<char>, i32),
>
    decreases keys.len(),
{
    if keys.len() == 0 {
        w
    } else {
        let p = with_text_keys(w, keys.drop_last());
        let k = keys.last();
        if is_text(k.1) && weight_index(p, k.0) == p.len() {
            p.push((k.0, 1i32))
        } else {
            p
        }
    }
}

/// The normal form of an index: its scalar fields in order with their directions, and the
/// weights of its text fields where it has any. `None` where the keys are no document, a
/// scalar key has no direction, or the stated weights are malformed.
pub open spec fn normalized(info: IndexInfoV) -> Option<
    (Seq<(Seq<char>, IndexType)>, Option<Seq<(Seq<char>, i32)>>),
> {
    match info.spec {
        Val::Document(keys) => {
            let n = scalar_count(keys);
            let stated = match info.options {
                Val::Document(o) => field(o, "weights"@),
                _ => None,
            };
            if n == keys.len() && stated is None {
                match decoded(keys) {
                    Some(f) => Some((f, None)),
                    None => None,
                }
            } else {
                let w = match stated {
                    Some(Val::Document(a)) => stated_weights(a),
                    Some(_) => None,
                    None => Some(Seq::empty()),
                };
                match (decoded(keys.take(n)), w) {
                    (Some(f), Some(w)) => Some((f, Some(with_text_keys(w, keys)))),
                    _ => None,
                }
            }
        },
        _ => None,
    }
}

/// Whether the floating-point number with these bits is below zero.
pub fn is_negative_double(bits: u64) -> (r: bool)
    ensures
        r == double_negative(bits),
{
    0x8000_0000_0000_0000 < bits && bits <= 0xfff0_0000_0000_0000
}

/// Cuts the floating-point number with these bits to a whole number, as a conversion to
/// `i32` does: towards zero, the nearest bound where it is out of range, zero for a NaN.
pub fn truncate_double(bits: u64) -> (r: i32)
    ensures
        r == double_whole(bits),
{
    let exponent: u64 = (bits >> 52) & 0x7ff;
    let fraction: u64 = bits & 0xf_ffff_ffff_ffff;
    let negative = bits >> 63 == 1;
    if exponent == 0x7ff && fraction != 0 {
        0
    } else if exponent < 1023 {
        0
    } else if exponent >= 1054 {
        if negative {
            i32::MIN
        } else {
            i32::MAX
        }
    } else {
        let shift: u64 = 1075 - exponent;
        let whole: u64 = (0x10_0000_0000_0000 | fraction) >> shift;
        assert(whole < 0x8000_0000) by (bit_vector)
            requires
                whole == (0x10_0000_0000_0000u64 | fraction) >> shift,
                fraction == bits & 0xf_ffff_ffff_ffff,
                22 <= shift <= 52,
        ;
        if negative {
            0 - (whole as i32)
        } else {
            whole as i32
        }
    }
}

/// The direction that the value of an index key asks for.
pub fn decode_index_type(v: &Value) -> (r: Result<IndexType, Error>)
    ensures
        match direction(v@) {
            Some(t) => r == Ok::<IndexType, Error>(t),
            None => r == Err::<IndexType, Error>(Error::BadIndexSpec),
        },
{
    match v {
        Value::Int32(n) => Ok(
            if *n < 0 {
                IndexType::Backward
            } else {
                IndexType::Forward
            },
        ),
        Value::Int64(n) => Ok(
            if *n < 0 {
                IndexType::Backward
            } else {
                IndexType::Forward
            },
        ),
        Value::Double(bits) => Ok(
            if is_negative_double(*bits) {
                IndexType::Backward
            } else {
                IndexType::Forward
            },
        ),
        Value::Text(s) => {
            let planar = "2d".to_owned();
            if *s == planar {
                Ok(IndexType::Geo2d)
            } else {
                Err(Error::BadIndexSpec)
            }
        },
        _ => Err(Error::BadIndexSpec),
    }
}

/// The weight that a value gives, where it is a number.
pub fn weight_of(v: &Value) -> (r: Option<i32>)
    ensures
        r == weight(v@),
{
    match v {
        Value::Int32(n) => Some(*n),
        Value::Int64(n) => Some(#[verifier::truncate] (*n as i32)),
        Value::Double(bits) => Some(truncate_double(*bits)),
        _ => None,
    }
}

/// The position of the first pair whose value is the text `s`.
pub fn slice_find(pairs: &Vec<(String, Value)>, s: &str) -> (r: Option<usize>)
    ensures
        match r {
            Some(i) => i < pairs.len() && i == first_where(pairs.deep_view(), holds_text(s@)),
            None => first_where(pairs.deep_view(), holds_text(s@)) == pairs.len(),
        },
{
    let wanted = Value::Text(s.to_owned());
    let mut i: usize = 0;
    while i < pairs.len()
        invariant
            i <= pairs.len(),
            wanted@ == Val::Text(s@),
            forall|j: int| 0 <= j < i ==> !holds_text(s@)(#[trigger] pairs.deep_view()[j]),
        decreases pairs.len() - i,
    {
        if pairs[i].1.same(&wanted) {
            proof {
                lemma_first_where_is(pairs.deep_view(), holds_text(s@), i as int);
            }
            return Some(i);
        }
        i += 1;
    }
    proof {
        lemma_first_where_is(pairs.deep_view(), holds_text(s@), i as int);
    }
    None
}

/// The first `n` keys with their directions.
fn decode_keys(keys: &Vec<(String, Value)>, n: usize) -> (r: Result<Vec<(String, IndexType)>, Error>)
    requires
        n <= keys.len(),
    ensures
        match decoded(keys.deep_view().take(n as int)) {
            Some(f) => r is Ok && r->Ok_0.deep_view() == f,
            None => r == Err::<Vec<(String, IndexType)>, Error>(Error::BadIndexSpec),
        },
{
    let ghost part = keys.deep_view().take(n as int);
    let mut out: Vec<(String, IndexType)> = Vec::new();
    let mut i: usize = 0;
    while i < n
        invariant
            i <= n <= keys.len(),
            part == keys.deep_view().take(n as int),
            out.len() == i,
            forall|j: int| 0 <= j < i ==> direction(#[trigger] part[j].1) is Some,
            forall|j: int|
                0 <= j < i ==> (#[trigger] out[j]).0@ == part[j].0 && out[j].1 == direction(
                    part[j].1,
                )->0,
        decreases n - i,
    {
        assert(part[i as int] == (keys[i as int].0@, keys[i as int].1@));
        match decode_index_type(&keys[i].1) {
            Ok(t) => {
                out.push((keys[i].0.clone(), t));
            },
            Err(e) => {
                assert(direction(part[i as int].1) is None);
                return Err(e);
            },
        }
        i += 1;
    }
    assert(out.deep_view() =~= decoded(part)->0);
    Ok(out)
}

/// Sets the weight of the field `k` to `n`.
fn set_weight(w: &mut Vec<(String, i32)>, k: String, n: i32)
    ensures
        final(w).deep_view() == put(old(w).deep_view(), k@, n),
{
    let ghost before = w.deep_view();
    let mut i: usize = 0;
    while i < w.len()
        invariant
            i <= w.len(),
            w.deep_view() == before,
            before == old(w).deep_view(),
            forall|j: int| 0 <= j < i ==> !is_for(k@)(#[trigger] before[j]),
        decreases w.len() - i,
    {
        assert(before[i as int] == (w[i as int].0@, w[i as int].1));
        if w[i].0 == k {
            proof {
                lemma_first_where_is(before, is_for(k@), i as int);
            }
            let ghost name = k@;
            w.set(i, (k, n));
            assert(w.deep_view() =~= before.update(i as int, (name, n)));
            return ;
        }
        i += 1;
    }
    proof {
        lemma_first_where_is(before, is_for(k@), i as int);
    }
    w.push((k, n));
    assert(w.deep_view() =~= before.push((k@, n)));
}

/// Whether the field `k` has a weight in `w`.
fn has_weight(w: &Vec<(String, i32)>, k: &String) -> (r: bool)
    ensures
        r == (weight_index(w.deep_view(), k@) < w.len()),
{
    let mut i: usize = 0;
    while i < w.len()
        invariant
            i <= w.len(),
            forall|j: int| 0 <= j < i ==> !is_for(k@)(#[trigger] w.deep_view()[j]),
        decreases w.len() - i,
    {
        if w[i].0 == *k {
            proof {
                lemma_first_where_is(w.deep_view(), is_for(k@), i as int);
            }
            return true;
        }
        i += 1;
    }
    proof {
        lemma_first_where_is(w.deep_view(), is_for(k@), i as int);
    }
    false
}

/// Once a prefix of the stated weights is malformed, the whole is.
proof fn lemma_stated_weights_none(a: Seq<(Seq<char>, Val)>, i: int)
    requires
        0 <= i <= a.len(),
        stated_weights(a.take(i)) is None,
    ensures
        stated_weights(a) is None,
    decreases a.len() - i,
{
    if i < a.len() {
        assert(a.take(i + 1).drop_last() =~= a.take(i));
        lemma_stated_weights_none(a, i + 1);
    } else {
        assert(a.take(i) =~= a);
    }
}

/// The weights that an options document states.
fn read_weights(a: &Vec<(String, Value)>) -> (r: Option<Vec<(String, i32)>>)
    ensures
        r.deep_view() == stated_weights(a.deep_view()),
{
    let ghost all = a.deep_view();
    let mut w: Vec<(String, i32)> = Vec::new();
    let mut i: usize = 0;
    assert(all.take(0) =~= Seq::empty());
    assert(w.deep_view() =~= Seq::empty());
    while i < a.len()
        invariant
            i <= a.len(),
            all == a.deep_view(),
            stated_weights(all.take(i as int)) == Some(w.deep_view()),
        decreases a.len() - i,
    {
        proof {
            assert(all.take(i + 1).drop_last() =~= all.take(i as int));
            assert(all.take(i + 1).last() == (a[i as int].0@, a[i as int].1@));
        }
        match weight_of(&a[i].1) {
            Some(n) => {
                set_weight(&mut w, a[i].0.clone(), n);
            },
            None => {
                proof {
                    lemma_stated_weights_none(all, i + 1);
                }
                return None;
            },
        }
        i += 1;
    }
    assert(all.take(a.len() as int) =~= all);
    Some(w)
}

/// Gives weight 1 to every text key that has no weight yet.
fn add_text_keys(w: &mut Vec<(String, i32)>, keys: &Vec<(String, Value)>)
    ensures
        final(w).deep_view() == with_text_keys(old(w).deep_view(), keys.deep_view()),
{
    let ghost all = keys.deep_view();
    let ghost start = w.deep_view();
    let marker = Value::Text("text".to_owned());
    let mut i: usize = 0;
    assert(all.take(0) =~= Seq::empty());
    while i < keys.len()
        invariant
            i <= keys.len(),
            all == keys.deep_view(),
            marker@ == Val::Text("text"@),
            w.deep_view() == with_text_keys(start, all.take(i as int)),
        decreases keys.len() - i,
    {
        proof {
            assert(all.take(i + 1).drop_last() =~= all.take(i as int));
            assert(all.take(i + 1).last() == (keys[i as int].0@, keys[i as int].1@));
        }
        proof {
            lemma_first_where(w.deep_view(), is_for(keys[i as int].0@));
        }
        if keys[i].1.same(&marker) && !has_weight(w, &keys[i].0) {
            let ghost before = w.deep_view();
            w.push((keys[i].0.clone(), 1));
            assert(w.deep_view() =~= before.push((keys[i as int].0@, 1i32)));
        }
        i += 1;
    }
    assert(all.take(keys.len() as int) =~= all);
}

/// Brings an index description into its normal form. Text keys leave the ordered fields
/// and get a weight instead: the one that the option `weights` states, else 1. That option
/// may weight further fields. Keys that follow the first text key are not ordered fields.
pub fn get_normalized_spec(info: &IndexInfo) -> (r: Result<
    (Vec<(String, IndexType)>, Option<Vec<(String, i32)>>),
    Error,
>)
    ensures
        match normalized(info@) {
            Some((f, w)) => r is Ok && r->Ok_0.0.deep_view() == f && r->Ok_0.1.deep_view() == w,
            None => r is Err && r->Err_0 == Error::BadIndexSpec,
        },
{
    let keys = match &info.spec {
        Value::Document(d) => d,
        _ => {
            assert(normalized(info@) is None);
            return Err(Error::BadIndexSpec);
        },
    };
    let ghost kv = keys.deep_view();
    proof {
        crate::value::lemma_document_view(*keys);
        lemma_first_where(keys.deep_view(), holds_text("text"@));
    }
    let first_text = slice_find(keys, "text");
    let stated = info.options.find_key("weights");
    let n = match first_text {
        Some(i) => i,
        None => keys.len(),
    };
    assert(info@.spec == Val::Document(kv));
    assert(n == scalar_count(kv));
    let ghost st = match info@.options {
        Val::Document(o) => field(o, "weights"@),
        _ => None,
    };
    assert(stated is None <==> st is None);
    assert(stated is Some ==> st == Some(stated->0@));
    if first_text.is_none() && stated.is_none() {
        assert(keys.deep_view().take(n as int) =~= keys.deep_view());
        return match decode_keys(keys, n) {
            Ok(fields) => Ok((fields, None)),
            Err(e) => Err(e),
        };
    }
    let mut weights = match stated {
        Some(Value::Document(a)) => {
            proof {
                crate::value::lemma_document_view(*a);
            }
            match read_weights(a) {
                Some(w) => w,
                None => {
                    assert(normalized(info@) is None);
                    return Err(Error::BadIndexSpec);
                },
            }
        },
        Some(_) => {
            assert(normalized(info@) is None);
            return Err(Error::BadIndexSpec);
        },
        None => Vec::new(),
    };
    let ghost w0 = weights.deep_view();
    assert(stated is None ==> w0 =~= Seq::empty());
    assert(match st {
        Some(Val::Document(a)) => stated_weights(a),
        Some(_) => None,
        None => Some(Seq::empty()),
    } == Some(w0));
    match decode_keys(keys, n) {
        Ok(fields) => {
            add_text_keys(&mut weights, keys);
            let r = Ok((fields, Some(weights)));
            assert(normalized(info@) == Some((fields.deep_view(), Some(with_text_keys(w0, kv)))));
            r
        },
        Err(e) => Err(e),
    }
}

} // verus!

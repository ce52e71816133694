//! From the bounds of a query to a range of index keys.
//!
//! A bound gives one value for each leading field of the index. It becomes a key by
//! pairing every value with the descending flag of its field; the key encoding keeps the
//! order of each field, so a descending field is reversed by the encoding and the range
//! condition itself is never flipped.

use crate::error::Error;
use crate::index::{IndexInfo, IndexType};
use crate::value::{same_bytes, Val, Value};
use vstd::prelude::*;

verus! {

/// The content of query bounds.
#[allow(non_camel_case_types)]
pub enum QueryBoundsV {
    EQ(Seq<Val>),
    Text(Seq<Val>, Seq<char>),
    GT(Seq<Val>),
    LT(Seq<Val>),
    GTE(Seq<Val>),
    LTE(Seq<Val>),
    GT_LT(Seq<Val>, Seq<Val>),
    GTE_LT(Seq<Val>, Seq<Val>),
    GT_LTE(Seq<Val>, Seq<Val>),
    GTE_LTE(Seq<Val>, Seq<Val>),
}

/// The logical bounds of a query on an index: equality, one side, both sides, or a text
/// search.
#[allow(non_camel_case_types)]
#[derive(Debug, PartialEq, Eq)]
pub enum QueryBounds {
    EQ(Vec<Value>),
    Text(Vec<Value>, String),
    GT(Vec<Value>),
    LT(Vec<Value>),
    GTE(Vec<Value>),
    LTE(Vec<Value>),
    GT_LT(Vec<Value>, Vec<Value>),
    GTE_LT(Vec<Value>, Vec<Value>),
    GT_LTE(Vec<Value>, Vec<Value>),
    GTE_LTE(Vec<Value>, Vec<Value>),
}

impl DeepView for QueryBounds {
    type V = QueryBoundsV;

    open spec fn deep_view(&self) -> QueryBoundsV {
        match self {
            QueryBounds::EQ(a) => QueryBoundsV::EQ(a.deep_view()),
            QueryBounds::Text(a, s) => QueryBoundsV::Text(a.deep_view(), s@),
            QueryBounds::GT(a) => QueryBoundsV::GT(a.deep_view()),
            QueryBounds::LT(a) => QueryBoundsV::LT(a.deep_view()),
            QueryBounds::GTE(a) => QueryBoundsV::GTE(a.deep_view()),
            QueryBounds::LTE(a) => QueryBoundsV::LTE(a.deep_view()),
            QueryBounds::GT_LT(a, b) => QueryBoundsV::GT_LT(a.deep_view(), b.deep_view()),
            QueryBounds::GTE_LT(a, b) => QueryBoundsV::GTE_LT(a.deep_view(), b.deep_view()),
            QueryBounds::GT_LTE(a, b) => QueryBoundsV::GT_LTE(a.deep_view(), b.deep_view()),
            QueryBounds::GTE_LTE(a, b) => QueryBoundsV::GTE_LTE(a.deep_view(), b.deep_view()),
        }
    }
}

/// The index that a query goes through, and the bounds within it.
#[derive(Debug, PartialEq, Eq)]
pub struct QueryPlan {
    pub ndx: IndexInfo,
    pub bounds: QueryBounds,
}

/// How a key is held against a bound.
#[derive(Debug, Clone, Copy, PartialEq, Eq, Structural)]
pub enum Comparator {
    Gt,
    Gte,
    Lt,
    Lte,
}

/// The content of key bounds.
pub enum KeyBoundsV {
    Point(Seq<(Val, bool)>),
    One(Comparator, Seq<(Val, bool)>),
    Two(Comparator, Seq<(Val, bool)>, Comparator, Seq<(Val, bool)>),
}

/// Bounds on index keys, before the keys are encoded: every key that begins with a given
/// one, one side, or both sides.
#[derive(Debug, PartialEq, Eq)]
pub enum KeyBounds {
    Point(Vec<(Value, bool)>),
    One(Comparator, Vec<(Value, bool)>),
    Two(Comparator, Vec<(Value, bool)>, Comparator, Vec<(Value, bool)>),
}

impl DeepView for KeyBounds {
    type V = KeyBoundsV;

    open spec fn deep_view(&self) -> KeyBoundsV {
        match self {
            KeyBounds::Point(k) => KeyBoundsV::Point(k.deep_view()),
            KeyBounds::One(c, k) => KeyBoundsV::One(*c, k.deep_view()),
            KeyBounds::Two(c, k, d, l) => KeyBoundsV::Two(*c, k.deep_view(), *d, l.deep_view()),
        }
    }
}

/// Each value with the descending flag of the field at its position.
pub open spec fn dirs(fields: Seq<(Seq<char>, IndexType)>, vals: Seq<Val>) -> Seq<(Val, bool)> {
    Seq::new(vals.len(), |i: int| (vals[i], fields[i].1 == IndexType::Backward))
}

/// Whether the bounds can be put to an index with these ordered fields: they are no text
/// search, and no side has more values than the index has fields.
pub open spec fn fits(fields: Seq<(Seq<char>, IndexType)>, b: QueryBoundsV) -> bool {
    match b {
        QueryBoundsV::Text(_, _) => false,
        QueryBoundsV::EQ(a) => a.len() <= fields.len(),
        QueryBoundsV::GT(a) => a.len() <= fields.len(),
        QueryBoundsV::LT(a) => a.len() <= fields.len(),
        QueryBoundsV::GTE(a) => a.len() <= fields.len(),
        QueryBoundsV::LTE(a) => a.len() <= fields.len(),
        QueryBoundsV::GT_LT(a, c) => a.len() <= fields.len() && c.len() <= fields.len(),
        QueryBoundsV::GTE_LT(a, c) => a.len() <= fields.len() && c.len() <= fields.len(),
        QueryBoundsV::GT_LTE(a, c) => a.len() <= fields.len() && c.len() <= fields.len(),
        QueryBoundsV::GTE_LTE(a, c) => a.len() <= fields.len() && c.len() <= fields.len(),
    }
}

/// The key bounds that query bounds stand for.
pub open spec fn key_bounds_of(fields: Seq<(Seq<char>, IndexType)>, b: QueryBoundsV) -> KeyBoundsV {
    match b {
        QueryBoundsV::Text(a, _) => KeyBoundsV::Point(dirs(fields, a)),
        QueryBoundsV::EQ(a) => KeyBoundsV::Point(dirs(fields, a)),
        QueryBoundsV::GT(a) => KeyBoundsV::One(Comparator::Gt, dirs(fields, a)),
        QueryBoundsV::LT(a) => KeyBoundsV::One(Comparator::Lt, dirs(fields, a)),
        QueryBoundsV::GTE(a) => KeyBoundsV::One(Comparator::Gte, dirs(fields, a)),
        QueryBoundsV::LTE(a) => KeyBoundsV::One(Comparator::Lte, dirs(fields, a)),
        QueryBoundsV::GT_LT(a, c) => KeyBoundsV::Two(
            Comparator::Gt,
            dirs(fields, a),
            Comparator::Lt,
            dirs(fields, c),
        ),
        QueryBoundsV::GTE_LT(a, c) => KeyBoundsV::Two(
            Comparator::Gte,
            dirs(fields, a),
            Comparator::Lt,
            dirs(fields, c),
        ),
        QueryBoundsV::GT_LTE(a, c) => KeyBoundsV::Two(
            Comparator::Gt,
            dirs(fields, a),
            Comparator::Lte,
            dirs(fields, c),
        ),
        QueryBoundsV::GTE_LTE(a, c) => KeyBoundsV::Two(
            Comparator::Gte,
            dirs(fields, a),
            Comparator::Lte,
            dirs(fields, c),
        ),
    }
}

/// Whether `a` comes before `b` where byte strings are ordered byte by byte, a string
/// coming before every longer one that it begins.
pub open spec fn lex_lt(a: Seq<u8>, b: Seq<u8>) -> bool
    decreases a.len(),
{
    if b.len() == 0 {
        false
    } else if a.len() == 0 {
        true
    } else if a[0] != b[0] {
        a[0] < b[0]
    } else {
        lex_lt(a.drop_first(), b.drop_first())
    }
}

/// Whether `s` begins with `p`.
pub open spec fn is_prefix(p: Seq<u8>, s: Seq<u8>) -> bool {
    p.len() <= s.len() && s.take(p.len() as int) == p
}

/// The first byte string that comes after every string beginning with `k`, if there is
/// one: `k` without its trailing bytes of value 255 and with its last byte raised by one.
pub open spec fn next_key(k: Seq<u8>) -> Option<Seq<u8>>
    decreases k.len(),
{
    if k.len() == 0 {
        None
    } else {
        match next_key(k.drop_first()) {
            Some(s) => Some(seq![k[0]] + s),
            None => if k[0] < 255 {
                Some(seq![(k[0] + 1) as u8])
            } else {
                None
            },
        }
    }
}

/// The bytes of each byte string.
pub open spec fn each_view(v: Seq<Vec<u8>>) -> Seq<Seq<u8>> {
    Seq::new(v.len(), |i: int| v[i]@)
}

/// The content of a key range.
pub struct KeyRangeV {
    pub lower: Option<(Seq<u8>, bool)>,
    pub upper: Option<(Seq<u8>, bool)>,
}

/// A range of encoded keys: on each side an optional bound, with a flag that says whether
/// the bound itself is inside.
#[derive(Debug, PartialEq, Eq)]
pub struct KeyRange {
    pub lower: Option<(Vec<u8>, bool)>,
    pub upper: Option<(Vec<u8>, bool)>,
}

impl DeepView for KeyRange {
    type V = KeyRangeV;

    open spec fn deep_view(&self) -> KeyRangeV {
        KeyRangeV {
            lower: match self.lower {
                Some((k, inside)) => Some((k@, inside)),
                None => None,
            },
            upper: match self.upper {
                Some((k, inside)) => Some((k@, inside)),
                None => None,
            },
        }
    }
}

impl KeyRangeV {
    /// Whether the key `x` lies in the range.
    pub open spec fn holds(self, x: Seq<u8>) -> bool {
        &&& match self.lower {
            Some((k, inside)) => lex_lt(k, x) || (inside && x == k),
            None => true,
        }
        &&& match self.upper {
            Some((k, inside)) => lex_lt(x, k) || (inside && x == k),
            None => true,
        }
    }

    /// The condition on the key column `k` that selects the range, with one `?` for each
    /// bound, the lower one first. A range without bounds selects everything.
    pub open spec fn condition(self) -> Seq<char> {
        let low = match self.lower {
            Some((_, inside)) => if inside {
                "k >= ?"@
            } else {
                "k > ?"@
            },
            None => Seq::empty(),
        };
        let high = match self.upper {
            Some((_, inside)) => if inside {
                "k <= ?"@
            } else {
                "k < ?"@
            },
            None => Seq::empty(),
        };
        if self.lower is Some && self.upper is Some {
            low + " AND "@ + high
        } else if self.lower is Some {
            low
        } else if self.upper is Some {
            high
        } else {
            "1"@
        }
    }

    /// The bounds in the order of the `?` of the condition.
    pub open spec fn params(self) -> Seq<Seq<u8>> {
        match (self.lower, self.upper) {
            (Some((a, _)), Some((b, _))) => seq![a, b],
            (Some((a, _)), None) => seq![a],
            (None, Some((b, _))) => seq![b],
            (None, None) => Seq::empty(),
        }
    }
}

/// The range that one comparison selects.
pub open spec fn one_sided(c: Comparator, k: Seq<u8>) -> KeyRangeV {
    match c {
        Comparator::Gt => KeyRangeV { lower: Some((k, false)), upper: None },
        Comparator::Gte => KeyRangeV { lower: Some((k, true)), upper: None },
        Comparator::Lt => KeyRangeV { lower: None, upper: Some((k, false)) },
        Comparator::Lte => KeyRangeV { lower: None, upper: Some((k, true)) },
    }
}

/// The keys that lie in both ranges.
pub open spec fn both(a: KeyRangeV, b: KeyRangeV) -> KeyRangeV {
    KeyRangeV {
        lower: if a.lower is Some {
            a.lower
        } else {
            b.lower
        },
        upper: if a.upper is Some {
            a.upper
        } else {
            b.upper
        },
    }
}

/// The range of the keys that begin with `k`: from `k` itself up to, and without, the
/// first key after all of them.
pub open spec fn point(k: Seq<u8>) -> KeyRangeV {
    KeyRangeV {
        lower: Some((k, true)),
        upper: match next_key(k) {
            Some(s) => Some((s, false)),
            None => None,
        },
    }
}

/// Strings with the same first byte are ordered as their rests are.
proof fn lemma_lex_step(a: Seq<u8>, b: Seq<u8>)
    requires
        a.len() > 0,
        b.len() > 0,
        a[0] == b[0],
    ensures
        lex_lt(a, b) == lex_lt(a.drop_first(), b.drop_first()),
        (a == b) == (a.drop_first() == b.drop_first()),
        is_prefix(a, b) == is_prefix(a.drop_first(), b.drop_first()),
{
    if a.drop_first() == b.drop_first() {
        assert(a =~= seq![a[0]] + a.drop_first());
        assert(b =~= seq![b[0]] + b.drop_first());
    }
    let n = a.len() as int;
    if is_prefix(a, b) {
        assert(b.drop_first().take(n - 1) =~= b.take(n).drop_first());
    }
    if is_prefix(a.drop_first(), b.drop_first()) {
        assert(b.take(n) =~= seq![b[0]] + b.drop_first().take(n - 1));
        assert(a =~= seq![a[0]] + a.drop_first());
    }
}

/// The range of a point holds exactly the keys that begin with it.
pub proof fn lemma_point_is_prefix(k: Seq<u8>, x: Seq<u8>)
    ensures
        point(k).holds(x) <==> is_prefix(k, x),
    decreases k.len(),
{
    if k.len() == 0 {
        assert(x.take(0) =~= k);
        if x.len() == 0 {
            assert(x =~= k);
        }
    } else if x.len() == 0 {
        assert(!lex_lt(k, x));
    } else {
        let rest = k.drop_first();
        let tail = x.drop_first();
        if x[0] == k[0] {
            lemma_lex_step(k, x);
            lemma_point_is_prefix(rest, tail);
        } else if is_prefix(k, x) {
            assert(x.take(k.len() as int)[0] == x[0]);
        }
        assert(lex_lt(k, x) == if x[0] == k[0] {
            lex_lt(rest, tail)
        } else {
            k[0] < x[0]
        });
        match next_key(rest) {
            Some(s) => {
                let t = seq![k[0]] + s;
                assert(next_key(k) == Some(t));
                assert(t[0] == k[0]);
                assert(t.drop_first() =~= s);
                assert(lex_lt(x, t) == if x[0] == k[0] {
                    lex_lt(tail, s)
                } else {
                    x[0] < k[0]
                });
            },
            None => {
                if k[0] < 255 {
                    let t = seq![(k[0] + 1) as u8];
                    assert(next_key(k) == Some(t));
                    assert(t[0] == k[0] + 1);
                    assert(t.drop_first().len() == 0);
                    assert(!lex_lt(tail, t.drop_first()));
                    assert(lex_lt(x, t) == (x[0] < k[0] + 1));
                } else {
                    assert(next_key(k) is None);
                }
            },
        }
    }
}

/// Where the bytes after position `i` all are 255 and the one at `i` is not, the next key
/// is the part before `i` followed by that byte raised by one.
proof fn lemma_next_key_at(k: Seq<u8>, i: int)
    requires
        0 <= i < k.len(),
        k[i] < 255,
        forall|j: int| i < j < k.len() ==> k[j] == 255,
    ensures
        next_key(k) == Some(k.take(i).push((k[i] + 1) as u8)),
    decreases k.len(),
{
    let rest = k.drop_first();
    if i == 0 {
        if rest.len() > 0 {
            lemma_next_key_none(rest);
        }
        assert(k.take(0).push((k[0] + 1) as u8) =~= seq![(k[0] + 1) as u8]);
    } else {
        assert(rest[i - 1] == k[i]);
        assert forall|j: int| i - 1 < j < rest.len() implies rest[j] == 255 by {
            assert(rest[j] == k[j + 1]);
        }
        lemma_next_key_at(rest, i - 1);
        assert(seq![k[0]] + rest.take(i - 1).push((k[i] + 1) as u8) =~= k.take(i).push(
            (k[i] + 1) as u8,
        ));
    }
}

/// A key of bytes that all are 255 has no next key.
proof fn lemma_next_key_none(k: Seq<u8>)
    requires
        forall|j: int| 0 <= j < k.len() ==> k[j] == 255,
    ensures
        next_key(k) is None,
    decreases k.len(),
{
    if k.len() > 0 {
        let rest = k.drop_first();
        assert forall|j: int| 0 <= j < rest.len() implies rest[j] == 255 by {
            assert(rest[j] == k[j + 1]);
        }
        lemma_next_key_none(rest);
    }
}

/// Each value paired with the descending flag of the index field at its position.
pub fn get_dirs(normspec: &Vec<(String, IndexType)>, vals: &Vec<Value>) -> (r: Vec<(Value, bool)>)
    requires
        vals.len() <= normspec.len(),
    ensures
        r.deep_view() == dirs(normspec.deep_view(), vals.deep_view()),
{
    let mut a: Vec<(Value, bool)> = Vec::new();
    let mut i: usize = 0;
    while i < vals.len()
        invariant
            i <= vals.len() <= normspec.len(),
            a.len() == i,
            forall|j: int|
                0 <= j < i ==> (#[trigger] a[j]).0@ == vals[j]@ && a[j].1 == (normspec[j].1
                    == IndexType::Backward),
        decreases vals.len() - i,
    {
        let neg = normspec[i].1 == IndexType::Backward;
        a.push((vals[i].copy(), neg));
        i += 1;
    }
    assert(a.deep_view() =~= dirs(normspec.deep_view(), vals.deep_view()));
    a
}

/// Turns query bounds into bounds on the keys of an index with the ordered fields
/// `normspec`. Bounds that do not fit the index are refused.
pub fn key_bounds(normspec: &Vec<(String, IndexType)>, bounds: &QueryBounds) -> (r: Result<
    KeyBounds,
    Error,
>)
    ensures
        fits(normspec.deep_view(), bounds.deep_view()) ==> r is Ok && r->Ok_0.deep_view()
            == key_bounds_of(normspec.deep_view(), bounds.deep_view()),
        !fits(normspec.deep_view(), bounds.deep_view()) ==> r is Err && r->Err_0
            == Error::BadBounds,
{
    let n = normspec.len();
    match bounds {
        QueryBounds::Text(_, _) => Err(Error::BadBounds),
        QueryBounds::EQ(a) => if a.len() <= n {
            Ok(KeyBounds::Point(get_dirs(normspec, a)))
        } else {
            Err(Error::BadBounds)
        },
        QueryBounds::GT(a) => if a.len() <= n {
            Ok(KeyBounds::One(Comparator::Gt, get_dirs(normspec, a)))
        } else {
            Err(Error::BadBounds)
        },
        QueryBounds::LT(a) => if a.len() <= n {
            Ok(KeyBounds::One(Comparator::Lt, get_dirs(normspec, a)))
        } else {
            Err(Error::BadBounds)
        },
        QueryBounds::GTE(a) => if a.len() <= n {
            Ok(KeyBounds::One(Comparator::Gte, get_dirs(normspec, a)))
        } else {
            Err(Error::BadBounds)
        },
        QueryBounds::LTE(a) => if a.len() <= n {
            Ok(KeyBounds::One(Comparator::Lte, get_dirs(normspec, a)))
        } else {
            Err(Error::BadBounds)
        },
        QueryBounds::GT_LT(a, c) => if a.len() <= n && c.len() <= n {
            Ok(
                KeyBounds::Two(
                    Comparator::Gt,
                    get_dirs(normspec, a),
                    Comparator::Lt,
                    get_dirs(normspec, c),
                ),
            )
        } else {
            Err(Error::BadBounds)
        },
        QueryBounds::GTE_LT(a, c) => if a.len() <= n && c.len() <= n {
            Ok(
                KeyBounds::Two(
                    Comparator::Gte,
                    get_dirs(normspec, a),
                    Comparator::Lt,
                    get_dirs(normspec, c),
                ),
            )
        } else {
            Err(Error::BadBounds)
        },
        QueryBounds::GT_LTE(a, c) => if a.len() <= n && c.len() <= n {
            Ok(
                KeyBounds::Two(
                    Comparator::Gt,
                    get_dirs(normspec, a),
                    Comparator::Lte,
                    get_dirs(normspec, c),
                ),
            )
        } else {
            Err(Error::BadBounds)
        },
        QueryBounds::GTE_LTE(a, c) => if a.len() <= n && c.len() <= n {
            Ok(
                KeyBounds::Two(
                    Comparator::Gte,
                    get_dirs(normspec, a),
                    Comparator::Lte,
                    get_dirs(normspec, c),
                ),
            )
        } else {
            Err(Error::BadBounds)
        },
    }
}

/// The first key after all keys that begin with `k`, if there is one.
pub fn add_one(k: &Vec<u8>) -> (r: Option<Vec<u8>>)
    ensures
        match r {
            Some(s) => next_key(k@) == Some(s@),
            None => next_key(k@) is None,
        },
{
    let mut i: usize = k.len();
    while i > 0 && k[i - 1] == 255
        invariant
            i <= k.len(),
            forall|j: int| i <= j < k.len() ==> k[j] == 255,
        decreases i,
    {
        i -= 1;
    }
    if i == 0 {
        proof {
            lemma_next_key_none(k@);
        }
        return None;
    }
    let at = i - 1;
    let mut out: Vec<u8> = Vec::new();
    let mut j: usize = 0;
    while j < at
        invariant
            j <= at < k.len(),
            out@ == k@.take(j as int),
        decreases at - j,
    {
        out.push(k[j]);
        assert(k@.take(j + 1) =~= k@.take(j as int).push(k@[j as int]));
        j += 1;
    }
    out.push(k[at] + 1);
    proof {
        lemma_next_key_at(k@, at as int);
    }
    Some(out)
}

/// Whether `a` comes before `b` in the order of byte strings.
pub fn lex_less(a: &Vec<u8>, b: &Vec<u8>) -> (r: bool)
    ensures
        r == lex_lt(a@, b@),
{
    let mut i: usize = 0;
    assert(a@.skip(0) =~= a@);
    assert(b@.skip(0) =~= b@);
    loop
        invariant
            i <= a.len(),
            i <= b.len(),
            lex_lt(a@, b@) == lex_lt(a@.skip(i as int), b@.skip(i as int)),
        decreases a.len() - i,
    {
        let ghost x = a@.skip(i as int);
        let ghost y = b@.skip(i as int);
        if i == b.len() {
            return false;
        }
        if i == a.len() {
            return true;
        }
        assert(x[0] == a[i as int] && y[0] == b[i as int]);
        if a[i] != b[i] {
            return a[i] < b[i];
        }
        assert(x.drop_first() =~= a@.skip(i + 1));
        assert(y.drop_first() =~= b@.skip(i + 1));
        i += 1;
    }
}

impl KeyRange {
    /// The range that one comparison with the key `k` selects.
    pub fn one(c: Comparator, k: Vec<u8>) -> (r: KeyRange)
        ensures
            r.deep_view() == one_sided(c, k@),
    {
        match c {
            Comparator::Gt => KeyRange { lower: Some((k, false)), upper: None },
            Comparator::Gte => KeyRange { lower: Some((k, true)), upper: None },
            Comparator::Lt => KeyRange { lower: None, upper: Some((k, false)) },
            Comparator::Lte => KeyRange { lower: None, upper: Some((k, true)) },
        }
    }

    /// The range between two comparisons.
    pub fn two(c: Comparator, k: Vec<u8>, d: Comparator, l: Vec<u8>) -> (r: KeyRange)
        ensures
            r.deep_view() == both(one_sided(c, k@), one_sided(d, l@)),
    {
        let a = KeyRange::one(c, k);
        let b = KeyRange::one(d, l);
        KeyRange {
            lower: if a.lower.is_some() {
                a.lower
            } else {
                b.lower
            },
            upper: if a.upper.is_some() {
                a.upper
            } else {
                b.upper
            },
        }
    }

    /// The range of the keys that begin with `k`.
    pub fn eq(k: Vec<u8>) -> (r: KeyRange)
        ensures
            r.deep_view() == point(k@),
            forall|x: Seq<u8>| r.deep_view().holds(x) <==> is_prefix(k@, x),
    {
        let upper = match add_one(&k) {
            Some(s) => Some((s, false)),
            None => None,
        };
        proof {
            assert forall|x: Seq<u8>| point(k@).holds(x) <==> is_prefix(k@, x) by {
                lemma_point_is_prefix(k@, x);
            }
        }
        KeyRange { lower: Some((k, true)), upper }
    }

    /// Whether the key `x` lies in the range.
    pub fn contains(&self, x: &Vec<u8>) -> (r: bool)
        ensures
            r == self.deep_view().holds(x@),
    {
        let low = match &self.lower {
            Some((k, inside)) => lex_less(k, x) || (*inside && same_bytes(x, k)),
            None => true,
        };
        let high = match &self.upper {
            Some((k, inside)) => lex_less(x, k) || (*inside && same_bytes(x, k)),
            None => true,
        };
        low && high
    }

    /// The condition on the key column that selects the range.
    pub fn condition(&self) -> (r: String)
        ensures
            r@ == self.deep_view().condition(),
    {
        let low = match &self.lower {
            Some((_, inside)) => if *inside {
                "k >= ?"
            } else {
                "k > ?"
            },
            None => "",
        };
        let high = match &self.upper {
            Some((_, inside)) => if *inside {
                "k <= ?"
            } else {
                "k < ?"
            },
            None => "",
        };
        proof {
            reveal_strlit("");
        }
        if self.lower.is_some() && self.upper.is_some() {
            low.to_owned().concat(" AND ").concat(high)
        } else if self.lower.is_some() {
            assert(""@ =~= Seq::<char>::empty());
            low.to_owned()
        } else if self.upper.is_some() {
            high.to_owned()
        } else {
            "1".to_owned()
        }
    }

    /// The bounds in the order of the `?` of the condition.
    pub fn params(&self) -> (r: Vec<Vec<u8>>)
        ensures
            each_view(r@) == self.deep_view().params(),
    {
        let mut out: Vec<Vec<u8>> = Vec::new();
        match &self.lower {
            Some((k, _)) => {
                out.push(crate::value::copy_bytes(k));
            },
            None => {},
        }
        match &self.upper {
            Some((k, _)) => {
                out.push(crate::value::copy_bytes(k));
            },
            None => {},
        }
        assert(each_view(out@) =~= self.deep_view().params());
        out
    }
}

} // verus!

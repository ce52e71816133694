//! The document value model: what a stored document is, how two values compare, and how a
//! field is read out of one.

use crate::text::{split, split_at_each};
use vstd::prelude::*;

verus! {

/// The mathematical content of a document value.
pub enum Val {
    /// The field is absent.
    Undefined,
    /// The field is present and explicitly null.
    Null,
    Boolean(bool),
    Int32(i32),
    Int64(i64),
    /// A 64-bit binary floating-point number, by its bits.
    Double(u64),
    Text(Seq<char>),
    Array(Seq<Val>),
    /// Fields in their stored order.
    Document(Seq<(Seq<char>, Val)>),
    /// Any other scalar: its type tag and its payload, both carried through unread.
    Other(u8, Seq<u8>),
}

/// A document value in memory.
#[derive(Debug, PartialEq, Eq)]
pub enum Value {
    Undefined,
    Null,
    Boolean(bool),
    Int32(i32),
    Int64(i64),
    Double(u64),
    Text(String),
    Array(Vec<Value>),
    Document(Vec<(String, Value)>),
    Other(u8, Vec<u8>),
}

/// The mathematical content of `v`.
pub open spec fn model(v: Value) -> Val
    decreases v,
{
    match v {
        Value::Undefined => Val::Undefined,
        Value::Null => Val::Null,
        Value::Boolean(b) => Val::Boolean(b),
        Value::Int32(n) => Val::Int32(n),
        Value::Int64(n) => Val::Int64(n),
        Value::Double(n) => Val::Double(n),
        Value::Text(s) => Val::Text(s@),
        Value::Array(a) => Val::Array(
            Seq::new(
                a.len() as nat,
                |i: int|
                    if 0 <= i < a.len() {
                        model(a[i])
                    } else {
                        Val::Null
                    },
            ),
        ),
        Value::Document(d) => Val::Document(
            Seq::new(
                d.len() as nat,
                |i: int|
                    if 0 <= i < d.len() {
                        (d[i].0@, model(d[i].1))
                    } else {
                        (Seq::empty(), Val::Null)
                    },
            ),
        ),
        Value::Other(t, b) => Val::Other(t, b@),
    }
}

impl View for Value {
    type V = Val;

    open spec fn view(&self) -> Val {
        model(*self)
    }
}

impl DeepView for Value {
    type V = Val;

    open spec fn deep_view(&self) -> Val {
        model(*self)
    }
}

/// An array's content is the contents of its items.
pub proof fn lemma_array_view(a: Vec<Value>)
    ensures
        Value::Array(a)@ == Val::Array(a.deep_view()),
{
    assert(Value::Array(a)@->Array_0 =~= a.deep_view());
}

/// A document's content is its keys with the contents of their values.
pub proof fn lemma_document_view(d: Vec<(String, Value)>)
    ensures
        Value::Document(d)@ == Val::Document(d.deep_view()),
{
    assert(Value::Document(d)@->Document_0 =~= d.deep_view());
}

impl Clone for Value {
    fn clone(&self) -> (r: Value)
        ensures
            r@ == self@,
    {
        self.copy()
    }
}

/// The value under the first field named `key`, if there is one.
pub open spec fn field(d: Seq<(Seq<char>, Val)>, key: Seq<char>) -> Option<Val>
    decreases d.len(),
{
    if d.len() == 0 {
        None
    } else if d[0].0 == key {
        Some(d[0].1)
    } else {
        field(d.drop_first(), key)
    }
}

/// The number that a run of decimal digits writes, if `s` is one.
pub open spec fn decimal(s: Seq<char>) -> Option<nat>
    decreases s.len(),
{
    if s.len() == 0 {
        None
    } else {
        let c = s.last();
        if '0' <= c <= '9' {
            let d = (c as u32 - '0' as u32) as nat;
            if s.len() == 1 {
                Some(d)
            } else {
                match decimal(s.drop_last()) {
                    Some(n) => Some(n * 10 + d),
                    None => None,
                }
            }
        } else {
            None
        }
    }
}

/// The value reached from `v` by following `steps`: a step into a document takes the first
/// field of that name, a step into an array takes the item at that decimal position, and a
/// step that leads nowhere leaves `Undefined`.
pub open spec fn walk(v: Val, steps: Seq<Seq<char>>) -> Val
    decreases steps.len(),
{
    if steps.len() == 0 {
        v
    } else {
        match v {
            Val::Document(d) => match field(d, steps[0]) {
                Some(c) => walk(c, steps.drop_first()),
                None => Val::Undefined,
            },
            Val::Array(a) => match decimal(steps[0]) {
                Some(n) => if n < a.len() {
                    walk(a[n as int], steps.drop_first())
                } else {
                    Val::Undefined
                },
                None => Val::Undefined,
            },
            _ => Val::Undefined,
        }
    }
}

/// The value at a dotted path.
pub open spec fn at_path(v: Val, path: Seq<char>) -> Val {
    walk(v, split(path, '.'))
}

/// Whether `v` is a document whose first field named `key` is the boolean `want`.
pub open spec fn has_flag(v: Val, key: Seq<char>, want: bool) -> bool {
    match v {
        Val::Document(d) => field(d, key) == Some(Val::Boolean(want)),
        _ => false,
    }
}

/// `Null` in place of `Undefined`; any other value as it is.
pub open spec fn or_null(v: Val) -> Val {
    if v is Undefined {
        Val::Null
    } else {
        v
    }
}

/// The values directly inside an array or a document, in order.
pub open spec fn children(v: Val) -> Seq<Val> {
    match v {
        Val::Array(a) => a,
        Val::Document(d) => Seq::new(d.len(), |i: int| d[i].1),
        _ => Seq::empty(),
    }
}

/// Every text found in `v`, at any depth, in document order.
pub open spec fn texts(v: Val) -> Seq<Seq<char>>
    decreases v, children(v).len() + 1,
{
    match v {
        Val::Text(s) => seq![s],
        Val::Array(_) => texts_from(v, 0),
        Val::Document(_) => texts_from(v, 0),
        _ => Seq::empty(),
    }
}

/// Every text found in the children of `v` from the `i`-th on.
pub open spec fn texts_from(v: Val, i: nat) -> Seq<Seq<char>>
    decreases v, children(v).len() - i,
{
    if i < children(v).len() {
        texts(children(v)[i as int]) + texts_from(v, i + 1)
    } else {
        Seq::empty()
    }
}

/// Whether two byte strings hold the same bytes.
pub fn same_bytes(a: &Vec<u8>, b: &Vec<u8>) -> (r: bool)
    ensures
        r == (a@ == b@),
{
    if a.len() != b.len() {
        return false;
    }
    let mut i: usize = 0;
    while i < a.len()
        invariant
            i <= a.len(),
            a.len() == b.len(),
            forall|j: int| 0 <= j < i ==> a[j] == b[j],
        decreases a.len() - i,
    {
        if a[i] != b[i] {
            return false;
        }
        i += 1;
    }
    assert(a@ =~= b@);
    true
}

/// A copy of a byte string.
pub fn copy_bytes(a: &Vec<u8>) -> (r: Vec<u8>)
    ensures
        r@ == a@,
{
    let mut out: Vec<u8> = Vec::new();
    let mut i: usize = 0;
    while i < a.len()
        invariant
            i <= a.len(),
            out@ == a@.take(i as int),
        decreases a.len() - i,
    {
        out.push(a[i]);
        assert(a@.take(i + 1) =~= a@.take(i as int).push(a@[i as int]));
        i += 1;
    }
    assert(a@.take(a.len() as int) =~= a@);
    out
}

/// Reads a run of decimal digits as a position below `limit`.
fn position(s: &str, limit: usize) -> (r: Option<usize>)
    ensures
        match decimal(s@) {
            Some(n) => if n < limit {
                r == Some(n as usize)
            } else {
                r is None
            },
            None => r is None,
        },
{
    let cs = crate::text::chars_of(s);
    if cs.len() == 0 {
        return None;
    }
    let mut n: usize = 0;
    let mut over = false;
    let mut i: usize = 0;
    while i < cs.len()
        invariant
            i <= cs.len(),
            cs@ == s@,
            i > 0 ==> match decimal(cs@.take(i as int)) {
                Some(m) => if over {
                    m >= limit
                } else {
                    m == n && n < limit
                },
                None => false,
            },
            i == 0 ==> n == 0 && !over,
        decreases cs.len() - i,
    {
        let c = cs[i];
        proof {
            let t = cs@.take(i + 1);
            assert(t.last() == c);
            assert(t.drop_last() =~= cs@.take(i as int));
            if !('0' <= c <= '9') {
                lemma_decimal_none(cs@, i as int);
            }
        }
        if c < '0' || c > '9' {
            return None;
        }
        let d: usize = (c as u32 - '0' as u32) as usize;
        if !over {
            if limit < d || n > (limit - d) / 10 {
                over = true;
            } else {
                let m = n * 10 + d;
                if m >= limit {
                    over = true;
                } else {
                    n = m;
                }
            }
        }
        i += 1;
    }
    assert(cs@.take(cs.len() as int) =~= cs@);
    if over {
        None
    } else {
        Some(n)
    }
}

/// A text with a character that is no digit is no decimal number.
proof fn lemma_decimal_none(s: Seq<char>, i: int)
    requires
        0 <= i < s.len(),
        !('0' <= s[i] <= '9'),
    ensures
        decimal(s) is None,
    decreases s.len(),
{
    if i < s.len() - 1 {
        lemma_decimal_none(s.drop_last(), i);
    }
}

impl Value {
    /// Whether `self` and `other` hold the same content.
    pub fn same(&self, other: &Value) -> (r: bool)
        ensures
            r == (self@ == other@),
        decreases self,
    {
        match self {
            Value::Undefined => match other {
                Value::Undefined => true,
                _ => false,
            },
            Value::Null => match other {
                Value::Null => true,
                _ => false,
            },
            Value::Boolean(a) => match other {
                Value::Boolean(b) => *a == *b,
                _ => false,
            },
            Value::Int32(a) => match other {
                Value::Int32(b) => *a == *b,
                _ => false,
            },
            Value::Int64(a) => match other {
                Value::Int64(b) => *a == *b,
                _ => false,
            },
            Value::Double(a) => match other {
                Value::Double(b) => *a == *b,
                _ => false,
            },
            Value::Text(a) => match other {
                Value::Text(b) => *a == *b,
                _ => false,
            },
            Value::Other(t, a) => match other {
                Value::Other(u, b) => *t == *u && same_bytes(a, b),
                _ => false,
            },
            Value::Array(a) => match other {
                Value::Array(b) => {
                    if a.len() != b.len() {
                        assert(self@->Array_0.len() != other@->Array_0.len());
                        return false;
                    }
                    let mut i: usize = 0;
                    while i < a.len()
                        invariant
                            i <= a.len(),
                            a.len() == b.len(),
                            self == Value::Array(*a),
                            other == Value::Array(*b),
                            forall|j: int| 0 <= j < i ==> a[j]@ == b[j]@,
                        decreases a.len() - i,
                    {
                        if !a[i].same(&b[i]) {
                            assert(self@->Array_0[i as int] == a[i as int]@);
                            assert(other@->Array_0[i as int] == b[i as int]@);
                            return false;
                        }
                        i += 1;
                    }
                    assert(self@->Array_0 =~= other@->Array_0);
                    true
                },
                _ => false,
            },
            Value::Document(a) => match other {
                Value::Document(b) => {
                    if a.len() != b.len() {
                        assert(self@->Document_0.len() != other@->Document_0.len());
                        return false;
                    }
                    let mut i: usize = 0;
                    while i < a.len()
                        invariant
                            i <= a.len(),
                            a.len() == b.len(),
                            self == Value::Document(*a),
                            other == Value::Document(*b),
                            forall|j: int|
                                0 <= j < i ==> a[j].0@ == b[j].0@ && a[j].1@ == b[j].1@,
                        decreases a.len() - i,
                    {
                        if !(a[i].0 == b[i].0 && a[i].1.same(&b[i].1)) {
                            assert(self@->Document_0[i as int] == (a[i as int].0@, a[i as int].1@));
                            assert(other@->Document_0[i as int] == (
                                b[i as int].0@,
                                b[i as int].1@,
                            ));
                            return false;
                        }
                        i += 1;
                    }
                    assert(self@->Document_0 =~= other@->Document_0);
                    true
                },
                _ => false,
            },
        }
    }

    /// A value of its own with the same content.
    pub fn copy(&self) -> (r: Value)
        ensures
            r@ == self@,
        decreases self,
    {
        match self {
            Value::Undefined => Value::Undefined,
            Value::Null => Value::Null,
            Value::Boolean(b) => Value::Boolean(*b),
            Value::Int32(n) => Value::Int32(*n),
            Value::Int64(n) => Value::Int64(*n),
            Value::Double(n) => Value::Double(*n),
            Value::Text(s) => Value::Text(s.clone()),
            Value::Other(t, b) => Value::Other(*t, copy_bytes(b)),
            Value::Array(a) => {
                let mut out: Vec<Value> = Vec::new();
                let mut i: usize = 0;
                while i < a.len()
                    invariant
                        i <= a.len(),
                        self == Value::Array(*a),
                        out.len() == i,
                        forall|j: int| 0 <= j < i ==> out[j]@ == a[j]@,
                    decreases a.len() - i,
                {
                    assert(decreases_to!(self => self->Array_0));
                    assert(decreases_to!(*a => a[i as int]));
                    let item = a[i].copy();
                    out.push(item);
                    i += 1;
                }
                let r = Value::Array(out);
                assert(r@->Array_0 =~= self@->Array_0);
                r
            },
            Value::Document(d) => {
                let mut out: Vec<(String, Value)> = Vec::new();
                let mut i: usize = 0;
                while i < d.len()
                    invariant
                        i <= d.len(),
                        self == Value::Document(*d),
                        out.len() == i,
                        forall|j: int| 0 <= j < i ==> out[j].0@ == d[j].0@ && out[j].1@ == d[j].1@,
                    decreases d.len() - i,
                {
                    let name = d[i].0.clone();
                    assert(decreases_to!(self => self->Document_0));
                    assert(decreases_to!(*d => d[i as int]));
                    assert(decreases_to!(d[i as int] => d[i as int].1));
                    let item = d[i].1.copy();
                    out.push((name, item));
                    i += 1;
                }
                let r = Value::Document(out);
                assert(r@->Document_0 =~= self@->Document_0);
                r
            },
        }
    }

    /// The value of the first field named `key`, where `self` is a document that has one.
    pub fn find_key(&self, key: &str) -> (r: Option<&Value>)
        ensures
            match self@ {
                Val::Document(d) => match field(d, key@) {
                    Some(v) => r is Some && r->0@ == v,
                    None => r is None,
                },
                _ => r is None,
            },
    {
        match self {
            Value::Document(d) => {
                let ghost dv = self@->Document_0;
                let wanted = key.to_owned();
                let mut i: usize = 0;
                assert(dv.subrange(0, dv.len() as int) =~= dv);
                while i < d.len()
                    invariant
                        i <= d.len(),
                        self == Value::Document(*d),
                        dv == self@->Document_0,
                        wanted@ == key@,
                        field(dv, key@) == field(dv.subrange(i as int, dv.len() as int), key@),
                    decreases d.len() - i,
                {
                    let ghost rest = dv.subrange(i as int, dv.len() as int);
                    assert(rest[0] == (d[i as int].0@, d[i as int].1@));
                    assert(rest.drop_first() =~= dv.subrange(i + 1, dv.len() as int));
                    if d[i].0 == wanted {
                        return Some(&d[i].1);
                    }
                    i += 1;
                }
                None
            },
            _ => None,
        }
    }

    /// Whether `self` is a document whose first field named `key` is the boolean `want`.
    pub fn flag_is(&self, key: &str, want: bool) -> (r: bool)
        ensures
            r == has_flag(self@, key@, want),
    {
        match self.find_key(key) {
            Some(v) => match v {
                Value::Boolean(b) => *b == want,
                _ => false,
            },
            None => false,
        }
    }

    /// The value that `steps[from..]` lead to, starting at `self`.
    fn follow(&self, steps: &Vec<String>, from: usize) -> (r: Value)
        requires
            from <= steps.len(),
        ensures
            r@ == walk(self@, steps.deep_view().subrange(from as int, steps.len() as int)),
        decreases steps.len() - from,
    {
        let ghost rest = steps.deep_view().subrange(from as int, steps.len() as int);
        if from == steps.len() {
            return self.copy();
        }
        assert(rest[0] == steps[from as int]@);
        assert(rest.drop_first() =~= steps.deep_view().subrange(from + 1, steps.len() as int));
        match self {
            Value::Document(_) => match self.find_key(steps[from].as_str()) {
                Some(c) => c.follow(steps, from + 1),
                None => Value::Undefined,
            },
            Value::Array(a) => {
                assert(self@->Array_0.len() == a.len());
                match position(steps[from].as_str(), a.len()) {
                    Some(n) => {
                        assert(self@->Array_0[n as int] == a[n as int]@);
                        a[n].follow(steps, from + 1)
                    },
                    None => Value::Undefined,
                }
            },
            _ => Value::Undefined,
        }
    }

    /// The value at a dotted path such as `address.city` or `tags.0`; `Undefined` where the
    /// path leads nowhere.
    pub fn find_path(&self, path: &str) -> (r: Value)
        ensures
            r@ == at_path(self@, path@),
    {
        let steps = split_at_each(path, '.');
        assert(steps.deep_view().subrange(0, steps.len() as int) =~= steps.deep_view());
        self.follow(&steps, 0)
    }

    /// Turns `Undefined` into `Null` and keeps any other value.
    pub fn replace_undefined(self) -> (r: Value)
        ensures
            r@ == or_null(self@),
    {
        match self {
            Value::Undefined => Value::Null,
            v => v,
        }
    }

    /// Appends every text found in `self`, at any depth, to `out`.
    pub fn collect_texts(&self, out: &mut Vec<String>)
        ensures
            final(out).deep_view() == old(out).deep_view() + texts(self@),
        decreases self,
    {
        let ghost before = out.deep_view();
        match self {
            Value::Text(s) => {
                out.push(s.clone());
                assert(out.deep_view() =~= before + seq![s@]);
            },
            Value::Array(a) => {
                let mut i: usize = 0;
                assert(out.deep_view() + texts_from(self@, 0) =~= before + texts(self@));
                while i < a.len()
                    invariant
                        i <= a.len(),
                        self == Value::Array(*a),
                        out.deep_view() + texts_from(self@, i as nat) == before + texts(self@),
                    decreases a.len() - i,
                {
                    let ghost mid = out.deep_view();
                    assert(children(self@)[i as int] == a[i as int]@);
                    a[i].collect_texts(out);
                    assert((mid + texts(a[i as int]@)) + texts_from(self@, (i + 1) as nat) =~= mid
                        + texts_from(self@, i as nat));
                    i += 1;
                }
                assert(out.deep_view() + Seq::<Seq<char>>::empty() =~= out.deep_view());
            },
            Value::Document(d) => {
                let mut i: usize = 0;
                assert(out.deep_view() + texts_from(self@, 0) =~= before + texts(self@));
                while i < d.len()
                    invariant
                        i <= d.len(),
                        self == Value::Document(*d),
                        out.deep_view() + texts_from(self@, i as nat) == before + texts(self@),
                    decreases d.len() - i,
                {
                    let ghost mid = out.deep_view();
                    assert(children(self@)[i as int] == d[i as int].1@);
                    d[i].1.collect_texts(out);
                    assert((mid + texts(d[i as int].1@)) + texts_from(self@, (i + 1) as nat) =~= mid
                        + texts_from(self@, i as nat));
                    i += 1;
                }
                assert(out.deep_view() + Seq::<Seq<char>>::empty() =~= out.deep_view());
            },
            _ => {
                assert(before + Seq::<Seq<char>>::empty() =~= before);
            },
        }
    }
}

} // verus!

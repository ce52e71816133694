//! Character-level helpers for names, paths and indexed text.

use vstd::prelude::*;

verus! {

/// The position of the first `c` in `s`, or the length of `s` where it holds none.
pub open spec fn first_index(s: Seq<char>, c: char) -> int
    decreases s.len(),
{
    if s.len() == 0 {
        0
    } else if s[0] == c {
        0
    } else {
        1 + first_index(s.drop_first(), c)
    }
}

/// The pieces of `s` between occurrences of `sep`, in order. There is always at least one
/// piece; a piece is empty where two separators touch or one stands at an end.
pub open spec fn split(s: Seq<char>, sep: char) -> Seq<Seq<char>>
    decreases s.len(),
{
    let i = first_index(s, sep);
    if 0 <= i < s.len() {
        seq![s.subrange(0, i)] + split(s.subrange(i + 1, s.len() as int), sep)
    } else {
        seq![s]
    }
}

/// Whether `p` is how `s` begins.
pub open spec fn starts_with(s: Seq<char>, p: Seq<char>) -> bool {
    p.len() <= s.len() && s.subrange(0, p.len() as int) == p
}

/// The two parts of a full collection name: the database before the first dot, and the
/// collection after it. A name without a dot has no parts.
pub open spec fn name_parts(s: Seq<char>) -> Option<(Seq<char>, Seq<char>)> {
    let i = first_index(s, '.');
    if 0 <= i < s.len() {
        Some((s.subrange(0, i), s.subrange(i + 1, s.len() as int)))
    } else {
        None
    }
}

/// `first_index` is in range, points at `c` unless it is the length, and nothing before it
/// is `c`.
pub proof fn lemma_first_index(s: Seq<char>, c: char)
    ensures
        0 <= first_index(s, c) <= s.len(),
        first_index(s, c) < s.len() ==> s[first_index(s, c)] == c,
        forall|j: int| 0 <= j < first_index(s, c) ==> s[j] != c,
    decreases s.len(),
{
    if s.len() != 0 && s[0] != c {
        let t = s.drop_first();
        lemma_first_index(t, c);
        assert forall|j: int| 0 <= j < first_index(s, c) implies s[j] != c by {
            if j > 0 {
                assert(s[j] == t[j - 1]);
            }
        }
    }
}

/// A position that holds `c` with no `c` before it is the first index.
pub proof fn lemma_first_index_is(s: Seq<char>, c: char, i: int)
    requires
        0 <= i <= s.len(),
        i < s.len() ==> s[i] == c,
        forall|j: int| 0 <= j < i ==> s[j] != c,
    ensures
        first_index(s, c) == i,
{
    lemma_first_index(s, c);
}

/// Appends one character (`String::push` of std): the text afterwards is the text before
/// with `c` at its end.
#[verifier::external_body]
fn push_char(s: &mut String, c: char)
    ensures
        final(s)@ == old(s)@.push(c),
{
    s.push(c)
}

/// The characters of `s`, one by one.
pub fn chars_of(s: &str) -> (r: Vec<char>)
    ensures
        r@ == s@,
{
    let mut out: Vec<char> = Vec::new();
    for c in it: s.chars()
        invariant
            it.seq() == s@,
            out@ == s@.take(it.index() as int),
    {
        out.push(c);
        assert(s@.take(it.index() + 1) =~= s@.take(it.index() as int).push(c));
    }
    assert(s@.take(s@.len() as int) =~= s@);
    out
}

/// The text made of the characters `cs[from..to]`.
pub fn string_of(cs: &Vec<char>, from: usize, to: usize) -> (r: String)
    requires
        from <= to <= cs.len(),
    ensures
        r@ == cs@.subrange(from as int, to as int),
{
    let mut out = String::new();
    let mut i: usize = from;
    while i < to
        invariant
            from <= i <= to <= cs.len(),
            out@ == cs@.subrange(from as int, i as int),
        decreases to - i,
    {
        push_char(&mut out, cs[i]);
        assert(cs@.subrange(from as int, i + 1) =~= cs@.subrange(from as int, i as int).push(
            cs@[i as int],
        ));
        i += 1;
    }
    out
}

/// The first position at or after `from` that holds `c`, or the length where none does.
pub fn find_char(cs: &Vec<char>, from: usize, c: char) -> (i: usize)
    requires
        from <= cs.len(),
    ensures
        from <= i <= cs.len(),
        i == from + first_index(cs@.subrange(from as int, cs.len() as int), c),
{
    let mut i: usize = from;
    while i < cs.len() && cs[i] != c
        invariant
            from <= i <= cs.len(),
            forall|j: int| from <= j < i ==> cs[j] != c,
        decreases cs.len() - i,
    {
        i += 1;
    }
    proof {
        lemma_first_index_is(cs@.subrange(from as int, cs.len() as int), c, i - from);
    }
    i
}

/// Cuts `s` at every `sep`.
pub fn split_at_each(s: &str, sep: char) -> (r: Vec<String>)
    ensures
        r.deep_view() == split(s@, sep),
{
    let cs = chars_of(s);
    let n = cs.len();
    let mut out: Vec<String> = Vec::new();
    let mut start: usize = 0;
    assert(out.deep_view() =~= Seq::empty());
    assert(cs@.subrange(0, n as int) =~= cs@);
    assert(Seq::<Seq<char>>::empty() + split(s@, sep) =~= split(s@, sep));
    loop
        invariant
            cs@ == s@,
            n == cs.len(),
            start <= n,
            out.deep_view() + split(cs@.subrange(start as int, n as int), sep) == split(
                s@,
                sep,
            ),
        decreases n - start,
    {
        let ghost rest = cs@.subrange(start as int, n as int);
        let i = find_char(&cs, start, sep);
        let piece = string_of(&cs, start, i);
        proof {
            assert(rest.subrange(0, i - start) =~= cs@.subrange(start as int, i as int));
            assert(i < n ==> rest.subrange(i - start + 1, rest.len() as int) =~= cs@.subrange(
                i + 1,
                n as int,
            ));
            assert(i == n ==> rest.subrange(0, i - start) =~= rest);
        }
        let ghost before = out.deep_view();
        out.push(piece);
        assert(out.deep_view() =~= before.push(piece@));
        if i == n {
            assert(before + seq![rest] =~= before.push(rest));
            return out;
        }
        assert(before + (seq![piece@] + split(cs@.subrange(i + 1, n as int), sep))
            =~= before.push(piece@) + split(cs@.subrange(i + 1, n as int), sep));
        start = i + 1;
    }
}

/// Cuts a full collection name at its first dot into database and collection.
pub fn split_name(s: &str) -> (r: Option<(String, String)>)
    ensures
        match name_parts(s@) {
            Some((db, coll)) => r is Some && (r->0).0@ == db && (r->0).1@ == coll,
            None => r is None,
        },
{
    let cs = chars_of(s);
    assert(cs@.subrange(0, cs.len() as int) =~= cs@);
    let i = find_char(&cs, 0, '.');
    if i < cs.len() {
        Some((string_of(&cs, 0, i), string_of(&cs, i + 1, cs.len())))
    } else {
        None
    }
}

/// Whether `s` begins with `p`.
pub fn begins_with(s: &str, p: &str) -> (r: bool)
    ensures
        r == starts_with(s@, p@),
{
    let a = chars_of(s);
    let b = chars_of(p);
    if b.len() > a.len() {
        return false;
    }
    let mut i: usize = 0;
    while i < b.len()
        invariant
            i <= b.len() <= a.len(),
            a@ == s@,
            b@ == p@,
            forall|j: int| 0 <= j < i ==> a[j] == b[j],
        decreases b.len() - i,
    {
        if a[i] != b[i] {
            assert(a@.subrange(0, b.len() as int)[i as int] != b@[i as int]);
            return false;
        }
        i += 1;
    }
    assert(a@.subrange(0, b.len() as int) =~= b@);
    true
}

} // verus!

//! Splitting strings at a separator character.

use vstd::prelude::*;

verus! {

/// The parts of `s` between occurrences of `sep`, in order; an empty string
/// has one empty part.
pub open spec fn split_on(s: Seq<char>, sep: char) -> Seq<Seq<char>>
    decreases s.len(),
{
    if s.len() == 0 {
        seq![Seq::<char>::empty()]
    } else {
        let prev = split_on(s.drop_last(), sep);
        if s.last() == sep {
            prev.push(Seq::<char>::empty())
        } else {
            prev.update(prev.len() - 1, prev.last().push(s.last()))
        }
    }
}

/// The parts of `s` between occurrences of `sep`, leaving out a last part
/// that is empty: `a:b:` and `a:b` both split into `a`, `b`.
pub open spec fn split_terminated(s: Seq<char>, sep: char) -> Seq<Seq<char>> {
    let parts = split_on(s, sep);
    if parts.last().len() == 0 {
        parts.drop_last()
    } else {
        parts
    }
}

pub proof fn lemma_split_on_nonempty(s: Seq<char>, sep: char)
    ensures
        split_on(s, sep).len() >= 1,
    decreases s.len(),
{
    if s.len() > 0 {
        lemma_split_on_nonempty(s.drop_last(), sep);
    }
}

/// A string without the separator is a single part; and splitting at an
/// occurrence of the separator splits the parts: the parts of `a`, the
/// separator and `b` are the parts of `a` followed by those of `b`.
pub proof fn law_split_at_separator(a: Seq<char>, sep: char, b: Seq<char>)
    ensures
        !a.contains(sep) ==> split_on(a, sep) == seq![a],
        split_on(a + seq![sep] + b, sep) == split_on(a, sep) + split_on(b, sep),
    decreases a.len() + b.len(),
{
    if !a.contains(sep) && a.len() > 0 {
        assert(!a.drop_last().contains(sep)) by {
            if a.drop_last().contains(sep) {
                let i = choose|i: int| 0 <= i < a.drop_last().len() && a.drop_last()[i] == sep;
                assert(a[i] == sep);
            }
        }
        law_split_at_separator(a.drop_last(), sep, Seq::<char>::empty());
        assert(a.drop_last().push(a.last()) =~= a);
        assert(a.last() == a[a.len() - 1]);
        assert(a.last() != sep);
        assert(split_on(a.drop_last(), sep) == seq![a.drop_last()]);
        assert(seq![a.drop_last()].update(0, a.drop_last().push(a.last())) =~= seq![a]);
    }
    if a.len() == 0 {
        assert(a =~= Seq::<char>::empty());
    }
    let t = a + seq![sep] + b;
    if b.len() == 0 {
        lemma_split_on_nonempty(a, sep);
        assert(t.drop_last() =~= a);
        assert(split_on(b, sep) == seq![Seq::<char>::empty()]);
    } else {
        let b1 = b.drop_last();
        law_split_at_separator(a, sep, b1);
        assert(t.drop_last() =~= a + seq![sep] + b1);
        lemma_split_on_nonempty(b1, sep);
        let p = split_on(a, sep);
        let q = split_on(b1, sep);
        if b.last() == sep {
            assert((p + q).push(Seq::<char>::empty()) =~= p + q.push(Seq::<char>::empty()));
        } else {
            assert((p + q).last() == q.last());
            assert((p + q).update((p + q).len() - 1, q.last().push(b.last())) =~= p + q.update(
                q.len() - 1,
                q.last().push(b.last()),
            ));
        }
    }
}

/// Splits `s` at every occurrence of `sep`.
pub fn split_by(s: &str, sep: char) -> (parts: Vec<String>)
    ensures
        parts@.len() == split_on(s@, sep).len(),
        forall|i: int| 0 <= i < parts@.len() ==> #[trigger] parts@[i]@ == split_on(s@, sep)[i],
{
    let n = s.unicode_len();
    let mut out: Vec<String> = Vec::new();
    let mut start: usize = 0;
    let mut i: usize = 0;
    while i < n
        invariant
            n == s@.len(),
            start <= i <= n,
            out@.len() + 1 == split_on(s@.take(i as int), sep).len(),
            forall|j: int| 0 <= j < out@.len() ==> #[trigger] out@[j]@ == split_on(s@.take(i as int), sep)[j],
            split_on(s@.take(i as int), sep).last() == s@.subrange(start as int, i as int),
        decreases n - i,
    {
        let c = s.get_char(i);
        proof {
            lemma_split_on_nonempty(s@.take(i as int), sep);
            assert(s@.take(i as int + 1).drop_last() =~= s@.take(i as int));
            assert(s@.take(i as int + 1).last() == c);
        }
        if c == sep {
            let part = String::from_str(s.substring_char(start, i));
            out.push(part);
            start = i + 1;
            assert(s@.subrange(start as int, i as int + 1) =~= Seq::<char>::empty());
        } else {
            assert(s@.subrange(start as int, i as int + 1) =~= s@.subrange(start as int, i as int).push(c));
        }
        i = i + 1;
    }
    let last = String::from_str(s.substring_char(start, n));
    out.push(last);
    assert(s@.take(n as int) =~= s@);
    out
}

} // verus!

verus! {

/// Compares two strings character by character.
pub fn str_eq(a: &str, b: &str) -> (r: bool)
    ensures
        r == (a@ == b@),
{
    let n = a.unicode_len();
    let m = b.unicode_len();
    if n != m {
        return false;
    }
    let mut i: usize = 0;
    while i < n
        invariant
            n == a@.len(),
            m == b@.len(),
            n == m,
            i <= n,
            forall|j: int| 0 <= j < i ==> a@[j] == b@[j],
        decreases n - i,
    {
        if a.get_char(i) != b.get_char(i) {
            return false;
        }
        i = i + 1;
    }
    assert(a@ =~= b@);
    true
}

} // verus!

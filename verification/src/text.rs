use vstd::prelude::*;

verus! {

/// The characters of `s`, in order.
pub fn chars_of(s: &str) -> (r: Vec<char>)
    ensures
        r@ == s@,
{
    let mut r: Vec<char> = Vec::new();
    for c in it: s.chars()
        invariant
            it.seq() == s@,
            r@ == it.seq().take(it.index() as int),
    {
        r.push(c);
        assert(r@ =~= it.seq().take(it.index() + 1));
    }
    assert(r@ =~= s@);
    r
}

/// The pieces of `s` between occurrences of `sep`, as `str::split` with a
/// `char` pattern yields them: there is always at least one piece, and `n`
/// separators give `n + 1` pieces, empty ones included.
pub open spec fn split_on(s: Seq<char>, sep: char) -> Seq<Seq<char>>
    decreases s.len(),
{
    if s.len() == 0 {
        seq![Seq::<char>::empty()]
    } else {
        let f = split_on(s.drop_last(), sep);
        if s.last() == sep {
            f.push(Seq::<char>::empty())
        } else {
            f.update(f.len() - 1, f.last().push(s.last()))
        }
    }
}

pub proof fn lemma_split_nonempty(s: Seq<char>, sep: char)
    ensures
        split_on(s, sep).len() >= 1,
    decreases s.len(),
{
    if s.len() > 0 {
        lemma_split_nonempty(s.drop_last(), sep);
    }
}

/// Splitting at a separator placed between `a` and `b` gives the pieces of
/// `a` followed by the pieces of `b`.
pub proof fn lemma_split_concat(a: Seq<char>, b: Seq<char>, sep: char)
    ensures
        split_on(a + seq![sep] + b, sep) == split_on(a, sep) + split_on(b, sep),
    decreases b.len(),
{
    let s = a + seq![sep] + b;
    lemma_split_nonempty(a, sep);
    if b.len() == 0 {
        assert(s.drop_last() =~= a);
        assert(split_on(s, sep) =~= split_on(a, sep) + split_on(b, sep));
    } else {
        let b1 = b.drop_last();
        assert(s.drop_last() =~= a + seq![sep] + b1);
        lemma_split_concat(a, b1, sep);
        lemma_split_nonempty(b1, sep);
        assert(split_on(s, sep) =~= split_on(a, sep) + split_on(b, sep));
    }
}

/// A text without the separator is a single piece.
pub proof fn lemma_split_single(s: Seq<char>, sep: char)
    requires
        !s.contains(sep),
    ensures
        split_on(s, sep) == seq![s],
    decreases s.len(),
{
    if s.len() > 0 {
        let s1 = s.drop_last();
        assert(!s1.contains(sep)) by {
            if s1.contains(sep) {
                let k = choose|k: int| 0 <= k < s1.len() && s1[k] == sep;
                assert(s[k] == sep);
            }
        }
        lemma_split_single(s1, sep);
        assert(s.last() != sep) by {
            assert(s[s.len() - 1] == s.last());
        }
        assert(s1.push(s.last()) =~= s);
        assert(split_on(s, sep) =~= seq![s]);
    } else {
        assert(s =~= Seq::<char>::empty());
    }
}

/// How many times `c` occurs in `s`.
pub open spec fn count_char(s: Seq<char>, c: char) -> nat
    decreases s.len(),
{
    if s.len() == 0 {
        0
    } else {
        count_char(s.drop_last(), c) + if s.last() == c {
            1nat
        } else {
            0nat
        }
    }
}

/// `n` separators give `n + 1` pieces.
pub proof fn lemma_split_len(s: Seq<char>, sep: char)
    ensures
        split_on(s, sep).len() == count_char(s, sep) + 1,
    decreases s.len(),
{
    if s.len() > 0 {
        lemma_split_len(s.drop_last(), sep);
    }
}

/// `s` with every leading `c` removed, as `str::trim_start_matches` with a
/// `char` pattern does.
pub open spec fn strip_leading(s: Seq<char>, c: char) -> Seq<char>
    decreases s.len(),
{
    if s.len() > 0 && s[0] == c {
        strip_leading(s.drop_first(), c)
    } else {
        s
    }
}

/// `s` begins with `p`.
pub open spec fn has_prefix(s: Seq<char>, p: Seq<char>) -> bool {
    p.len() <= s.len() && s.take(p.len() as int) == p
}

/// A range `lo..hi` of positions of a text of length `len`.
pub open spec fn range_in(r: (usize, usize), len: nat) -> bool {
    r.0 <= r.1 <= len
}

/// The positions of the pieces of `v` between occurrences of `sep`.
pub fn split_ranges(v: &[char], sep: char) -> (r: Vec<(usize, usize)>)
    ensures
        r@.len() == split_on(v@, sep).len(),
        forall|k: int|
            0 <= k < r@.len() ==> range_in(#[trigger] r@[k], v@.len()) && v@.subrange(
                r@[k].0 as int,
                r@[k].1 as int,
            ) == split_on(v@, sep)[k],
{
    let mut done: Vec<(usize, usize)> = Vec::new();
    let mut cur: usize = 0;
    let mut i: usize = 0;
    assert(v@.take(0) =~= Seq::<char>::empty());
    assert(v@.subrange(0, 0) =~= Seq::<char>::empty());
    while i < v.len()
        invariant
            i <= v@.len(),
            cur <= i,
            done@.len() + 1 == split_on(v@.take(i as int), sep).len(),
            forall|k: int|
                0 <= k < done@.len() ==> range_in(#[trigger] done@[k], i as nat) && v@.subrange(
                    done@[k].0 as int,
                    done@[k].1 as int,
                ) == split_on(v@.take(i as int), sep)[k],
            v@.subrange(cur as int, i as int) == split_on(v@.take(i as int), sep).last(),
        decreases v@.len() - i,
    {
        let c = v[i];
        let ghost f = split_on(v@.take(i as int), sep);
        assert(v@.take(i + 1).drop_last() =~= v@.take(i as int));
        assert(v@.take(i + 1).last() == c);
        proof {
            lemma_split_nonempty(v@.take(i as int), sep);
        }
        if c == sep {
            done.push((cur, i));
            cur = i + 1;
            assert(v@.subrange(cur as int, i + 1) =~= Seq::<char>::empty());
        } else {
            assert(v@.subrange(cur as int, i + 1) =~= v@.subrange(cur as int, i as int).push(c));
        }
        i = i + 1;
    }
    assert(v@.take(v@.len() as int) =~= v@);
    done.push((cur, i));
    done
}

/// Where the text left after `strip_leading(v, c)` begins.
pub fn skip_leading(v: &[char], c: char) -> (r: usize)
    ensures
        r <= v@.len(),
        v@.subrange(r as int, v@.len() as int) == strip_leading(v@, c),
{
    let mut i: usize = 0;
    assert(v@.subrange(0, v@.len() as int) =~= v@);
    while i < v.len() && v[i] == c
        invariant
            i <= v@.len(),
            strip_leading(v@.subrange(i as int, v@.len() as int), c) == strip_leading(v@, c),
        decreases v@.len() - i,
    {
        assert(v@.subrange(i as int, v@.len() as int).drop_first() =~= v@.subrange(
            i + 1,
            v@.len() as int,
        ));
        i = i + 1;
    }
    i
}

/// Whether the characters of `v` in `lo..hi` spell `p`.
pub fn range_equals(v: &[char], lo: usize, hi: usize, p: &[char]) -> (r: bool)
    requires
        lo <= hi <= v@.len(),
    ensures
        r == (v@.subrange(lo as int, hi as int) == p@),
{
    if hi - lo != p.len() {
        return false;
    }
    let mut k: usize = 0;
    while k < p.len()
        invariant
            lo <= hi <= v@.len(),
            hi - lo == p@.len(),
            k <= p@.len(),
            forall|j: int| 0 <= j < k ==> v@[lo + j] == p@[j],
        decreases p@.len() - k,
    {
        if v[lo + k] != p[k] {
            assert(v@.subrange(lo as int, hi as int)[k as int] != p@[k as int]);
            return false;
        }
        k = k + 1;
    }
    assert(v@.subrange(lo as int, hi as int) =~= p@);
    true
}

} // verus!

use vstd::prelude::*;
use crate::text::{is_ws, char_is_ws, slice_range, seqs};

verus! {

/// The pieces of `s` between occurrences of `c` (`str::split` with a char):
/// one more piece than there are occurrences, empty pieces included.
pub open spec fn split_char(s: Seq<char>, c: char) -> Seq<Seq<char>>
    decreases s.len(),
{
    if s.len() == 0 {
        seq![Seq::<char>::empty()]
    } else {
        let prev = split_char(s.drop_last(), c);
        if s.last() == c {
            prev.push(Seq::<char>::empty())
        } else {
            prev.update(prev.len() - 1, prev.last().push(s.last()))
        }
    }
}

pub proof fn lemma_split_char_len(s: Seq<char>, c: char)
    ensures
        split_char(s, c).len() >= 1,
    decreases s.len(),
{
    if s.len() > 0 {
        lemma_split_char_len(s.drop_last(), c);
    }
}

/// The last piece of a split is what follows the last separator: it ends the
/// text, holds no separator, and is the whole text or comes right after a
/// separator.
pub proof fn lemma_split_char_last(s: Seq<char>, c: char)
    ensures
        split_char(s, c).len() >= 1,
        split_char(s, c).last().len() <= s.len(),
        split_char(s, c).last() == s.skip(s.len() - split_char(s, c).last().len()),
        forall|i: int|
            0 <= i < split_char(s, c).last().len() ==> #[trigger] split_char(s, c).last()[i] != c,
        split_char(s, c).last().len() < s.len() ==> s[s.len() - split_char(s, c).last().len() - 1]
            == c,
    decreases s.len(),
{
    lemma_split_char_len(s, c);
    if s.len() > 0 {
        let d = s.drop_last();
        lemma_split_char_last(d, c);
        let prev = split_char(d, c);
        let pl = prev.last();
        if s.last() != c {
            let x = pl.push(s.last());
            assert(split_char(s, c) == prev.update(prev.len() - 1, x));
            assert(split_char(s, c).last() == x);
            assert(x =~= s.skip(s.len() - x.len()));
            assert forall|i: int| 0 <= i < x.len() implies #[trigger] x[i] != c by {
                if i < pl.len() {
                    assert(x[i] == pl[i]);
                }
            }
            if x.len() < s.len() {
                assert(s[s.len() - x.len() - 1] == d[d.len() - pl.len() - 1]);
            }
        } else {
            assert(split_char(s, c).last() == Seq::<char>::empty());
            assert(s.skip(s.len() as int) =~= Seq::<char>::empty());
        }
    } else {
        assert(s.skip(0) =~= s);
    }
}

/// A piece ends in a carriage return only when the line ending was `\r\n`.
pub open spec fn strip_cr(p: Seq<char>) -> Seq<char> {
    if p.len() > 0 && p.last() == '\r' {
        p.drop_last()
    } else {
        p
    }
}

/// `str::lines`: pieces split at `\n`, a `\r` before the `\n` removed, and no
/// final empty line after a trailing newline.
pub open spec fn lines(s: Seq<char>) -> Seq<Seq<char>> {
    let p = split_char(s, '\n');
    let body = p.drop_last().map_values(|x: Seq<char>| strip_cr(x));
    if p.last().len() == 0 {
        body
    } else {
        body.push(p.last())
    }
}

pub fn split_on(v: &[char], c: char) -> (r: Vec<Vec<char>>)
    ensures
        seqs(r@) == split_char(v@, c),
{
    let mut done: Vec<Vec<char>> = Vec::new();
    let mut cur: Vec<char> = Vec::new();
    let mut i: usize = 0;
    assert(v@.take(0) == Seq::<char>::empty());
    assert(seqs(done@).push(cur@) =~= split_char(v@.take(0), c));
    while i < v.len()
        invariant
            i <= v@.len(),
            seqs(done@).push(cur@) == split_char(v@.take(i as int), c),
        decreases v@.len() - i,
    {
        let ghost before = seqs(done@);
        let ghost before_cur = cur@;
        assert(v@.take(i + 1).drop_last() == v@.take(i as int));
        assert(v@.take(i + 1).last() == v@[i as int]);
        if v[i] == c {
            done.push(cur);
            cur = Vec::new();
            assert(seqs(done@) =~= before.push(before_cur));
            assert(seqs(done@).push(cur@) =~= split_char(v@.take(i + 1), c));
        } else {
            cur.push(v[i]);
            assert(seqs(done@).push(cur@) =~= split_char(v@.take(i + 1), c));
        }
        i = i + 1;
    }
    let ghost before = seqs(done@);
    let ghost before_cur = cur@;
    done.push(cur);
    assert(v@.take(v@.len() as int) == v@);
    assert(seqs(done@) =~= before.push(before_cur));
    done
}

fn strip_cr_exec(p: Vec<char>) -> (r: Vec<char>)
    ensures
        r@ == strip_cr(p@),
{
    let mut p = p;
    if p.len() > 0 && p[p.len() - 1] == '\r' {
        p.pop();
    }
    p
}

/// The lines of `v`, as `str::lines` yields them.
pub fn lines_of(v: &[char]) -> (r: Vec<Vec<char>>)
    ensures
        seqs(r@) == lines(v@),
{
    let pieces = split_on(v, '\n');
    proof {
        lemma_split_char_len(v@, '\n');
    }
    let ghost p = seqs(pieces@);
    let n = pieces.len();
    let mut out: Vec<Vec<char>> = Vec::new();
    let mut k: usize = 0;
    while k + 1 < n
        invariant
            p == seqs(pieces@),
            p.len() == n,
            n >= 1,
            k + 1 <= n,
            seqs(out@) == p.take(k as int).map_values(|x: Seq<char>| strip_cr(x)),
        decreases n - k,
    {
        let ghost ob = seqs(out@);
        let piece = &pieces[k];
        assert(piece@ == p[k as int]);
        let x = slice_range(piece.as_slice(), 0, piece.len());
        assert(x@ == p[k as int]);
        let y = strip_cr_exec(x);
        out.push(y);
        assert(seqs(out@) =~= ob.push(y@));
        assert(p.take(k + 1) == p.take(k as int).push(p[k as int]));
        assert(p.take(k + 1).map_values(|x: Seq<char>| strip_cr(x)) =~= p.take(k as int).map_values(
            |x: Seq<char>| strip_cr(x),
        ).push(strip_cr(p[k as int])));
        assert(seqs(out@) =~= p.take(k + 1).map_values(|x: Seq<char>| strip_cr(x)));
        k = k + 1;
    }
    let piece = &pieces[n - 1];
    assert(piece@ == p.last());
    assert(p.take(k as int) == p.drop_last());
    if piece.len() > 0 {
        let x = slice_range(piece.as_slice(), 0, piece.len());
        let ghost ob = seqs(out@);
        let ghost xv = x@;
        assert(xv =~= p.last());
        out.push(x);
        assert(seqs(out@) =~= ob.push(xv));
        assert(seqs(out@) =~= lines(v@));
    } else {
        assert(seqs(out@) =~= lines(v@));
    }
    out
}

/// `str::split_whitespace`: the maximal runs of non-whitespace characters.
pub open spec fn words(s: Seq<char>) -> Seq<Seq<char>>
    decreases s.len(),
{
    if s.len() == 0 {
        seq![]
    } else {
        let prev = words(s.drop_last());
        let c = s.last();
        if is_ws(c) {
            prev
        } else if s.len() == 1 || is_ws(s[s.len() - 2]) {
            prev.push(seq![c])
        } else {
            prev.update(prev.len() - 1, prev.last().push(c))
        }
    }
}

pub proof fn lemma_words_nonempty(s: Seq<char>)
    requires
        s.len() > 0,
        !is_ws(s.last()),
    ensures
        words(s).len() > 0,
    decreases s.len(),
{
    if s.len() > 1 && !is_ws(s[s.len() - 2]) {
        assert(s.drop_last().last() == s[s.len() - 2]);
        lemma_words_nonempty(s.drop_last());
    }
}

/// Number of whitespace-separated words (`split_whitespace().count()`).
pub fn word_count(v: &[char]) -> (n: usize)
    ensures
        n == words(v@).len(),
{
    let mut n: usize = 0;
    let mut i: usize = 0;
    assert(v@.take(0) == Seq::<char>::empty());
    while i < v.len()
        invariant
            i <= v@.len(),
            n == words(v@.take(i as int)).len(),
            n <= i,
        decreases v@.len() - i,
    {
        let ghost t = v@.take(i + 1);
        assert(t.drop_last() == v@.take(i as int));
        assert(t.last() == v@[i as int]);
        if !char_is_ws(v[i]) {
            if i == 0 || char_is_ws(v[i - 1]) {
                if i > 0 {
                    assert(t[t.len() - 2] == v@[i - 1]);
                }
                n = n + 1;
            } else {
                assert(t[t.len() - 2] == v@[i - 1]);
                assert(v@.take(i as int).last() == v@[i - 1]);
                proof {
                    lemma_words_nonempty(v@.take(i as int));
                }
            }
        }
        i = i + 1;
    }
    assert(v@.take(v@.len() as int) == v@);
    n
}

/// The whitespace-separated words of `v`.
pub fn split_whitespace(v: &[char]) -> (r: Vec<Vec<char>>)
    ensures
        seqs(r@) == words(v@),
{
    let mut r: Vec<Vec<char>> = Vec::new();
    let mut cur: Vec<char> = Vec::new();
    let mut in_word = false;
    let mut i: usize = 0;
    assert(v@.take(0) == Seq::<char>::empty());
    while i < v.len()
        invariant
            i <= v@.len(),
            in_word == (i > 0 && !is_ws(v@[i - 1])),
            in_word ==> seqs(r@).push(cur@) == words(v@.take(i as int)),
            !in_word ==> seqs(r@) == words(v@.take(i as int)),
        decreases v@.len() - i,
    {
        let ghost t = v@.take(i + 1);
        assert(t.drop_last() == v@.take(i as int));
        assert(t.last() == v@[i as int]);
        if i > 0 {
            assert(t[t.len() - 2] == v@[i - 1]);
        }
        let ghost rb = seqs(r@);
        let ghost cb = cur@;
        if char_is_ws(v[i]) {
            if in_word {
                r.push(cur);
                cur = Vec::new();
                assert(seqs(r@) =~= rb.push(cb));
            }
            in_word = false;
        } else {
            if in_word {
                cur.push(v[i]);
                assert(seqs(r@).push(cur@) =~= words(t));
            } else {
                cur = Vec::new();
                cur.push(v[i]);
                assert(seqs(r@).push(cur@) =~= words(t));
            }
            in_word = true;
        }
        i = i + 1;
    }
    if in_word {
        let ghost rb = seqs(r@);
        let ghost cb = cur@;
        r.push(cur);
        assert(seqs(r@) =~= rb.push(cb));
    }
    assert(v@.take(v@.len() as int) == v@);
    r
}

} // verus!

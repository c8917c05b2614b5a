//! Text predicates used by the task queries: substring search, splitting a
//! semicolon-joined list into its terms, and the lexical order of two texts.
use vstd::prelude::*;

verus! {

/// `needle` stands in `hay` at position `i`.
pub open spec fn occurs_at(hay: Seq<char>, needle: Seq<char>, i: int) -> bool {
    0 <= i && i + needle.len() <= hay.len() && hay.subrange(i, i + needle.len()) == needle
}

/// `needle` occurs somewhere in `hay` as a contiguous run of characters.
/// The comparison is exact: case matters and no character is a wildcard.
pub open spec fn spec_contains(hay: Seq<char>, needle: Seq<char>) -> bool {
    exists|i: int| occurs_at(hay, needle, i)
}

/// The pieces of `s` between occurrences of `sep`. A text with `n` separators
/// has `n + 1` pieces; the empty text has the one empty piece.
pub open spec fn spec_split(s: Seq<char>, sep: char) -> Seq<Seq<char>>
    decreases s.len(),
{
    if s.len() == 0 {
        seq![Seq::<char>::empty()]
    } else if s.last() == sep {
        spec_split(s.drop_last(), sep).push(Seq::<char>::empty())
    } else {
        let before = spec_split(s.drop_last(), sep);
        before.drop_last().push(before.last().push(s.last()))
    }
}

/// The pieces joined again, with `sep` between neighbours.
pub open spec fn spec_join(pieces: Seq<Seq<char>>, sep: char) -> Seq<char>
    decreases pieces.len(),
{
    if pieces.len() == 0 {
        Seq::<char>::empty()
    } else if pieces.len() == 1 {
        pieces[0]
    } else {
        spec_join(pieces.drop_last(), sep).push(sep) + pieces.last()
    }
}

/// Every term occurs in `hay`.
pub open spec fn contains_all(hay: Seq<char>, terms: Seq<Seq<char>>) -> bool {
    forall|k: int| 0 <= k < terms.len() ==> spec_contains(hay, #[trigger] terms[k])
}

/// `a` comes before `b`, or equals it, in the lexical order of their characters.
pub open spec fn lex_le(a: Seq<char>, b: Seq<char>) -> bool
    decreases a.len(),
{
    if a.len() == 0 {
        true
    } else if b.len() == 0 {
        false
    } else if a[0] != b[0] {
        (a[0] as int) < (b[0] as int)
    } else {
        lex_le(a.drop_first(), b.drop_first())
    }
}

/// The text of an optional field: an absent field reads as the empty text, so
/// the only pattern that occurs in it is the empty one.
pub open spec fn text_of(field: Option<String>) -> Seq<char> {
    match field {
        Some(s) => s@,
        None => Seq::<char>::empty(),
    }
}

/// An optional text as its characters.
pub open spec fn text_view(t: Option<String>) -> Option<Seq<char>> {
    match t {
        Some(s) => Some(s@),
        None => None,
    }
}

/// Splitting never yields an empty list, no piece holds the separator, and
/// joining the pieces gives the text back.
pub proof fn lemma_split_join(s: Seq<char>, sep: char)
    ensures
        spec_split(s, sep).len() >= 1,
        forall|k: int, j: int|
            0 <= k < spec_split(s, sep).len() && 0 <= j < spec_split(s, sep)[k].len()
                ==> #[trigger] spec_split(s, sep)[k][j] != sep,
        spec_join(spec_split(s, sep), sep) == s,
    decreases s.len(),
{
    let pieces = spec_split(s, sep);
    if s.len() == 0 {
        assert(pieces =~= seq![Seq::<char>::empty()]);
        assert(spec_join(pieces, sep) =~= s);
    } else {
        let before = spec_split(s.drop_last(), sep);
        lemma_split_join(s.drop_last(), sep);
        if s.last() == sep {
            assert(pieces.drop_last() =~= before);
            assert(spec_join(pieces, sep) =~= s);
        } else {
            let grown = before.last().push(s.last());
            assert(pieces.last() == grown);
            if before.len() == 1 {
                assert(spec_join(before, sep) == before[0]);
                assert(spec_join(pieces, sep) == grown);
                assert(grown =~= s);
            } else {
                assert(pieces.drop_last() =~= before.drop_last());
                assert(spec_join(pieces, sep) == spec_join(before.drop_last(), sep).push(sep)
                    + grown);
                assert(spec_join(before, sep) == spec_join(before.drop_last(), sep).push(sep)
                    + before.last());
                assert(spec_join(pieces, sep) =~= spec_join(before, sep).push(s.last()));
                assert(s =~= s.drop_last().push(s.last()));
            }
        }
    }
}

/// The lexical order is total: of two texts one comes before the other, or
/// they are equal.
pub proof fn lemma_lex_le_total(a: Seq<char>, b: Seq<char>)
    ensures
        lex_le(a, b) || lex_le(b, a),
    decreases a.len(),
{
    if a.len() > 0 && b.len() > 0 {
        if a[0] == b[0] {
            lemma_lex_le_total(a.drop_first(), b.drop_first());
        }
    }
}

/// The lexical order is transitive.
pub proof fn lemma_lex_le_trans(a: Seq<char>, b: Seq<char>, c: Seq<char>)
    requires
        lex_le(a, b),
        lex_le(b, c),
    ensures
        lex_le(a, c),
    decreases a.len(),
{
    if a.len() > 0 && a[0] == b[0] && b[0] == c[0] {
        lemma_lex_le_trans(a.drop_first(), b.drop_first(), c.drop_first());
    }
}

/// The characters of a string, in order.
pub fn chars_of(s: &str) -> (r: Vec<char>)
    ensures
        r@ == s@,
{
    let n = s.unicode_len();
    let mut out: Vec<char> = Vec::new();
    let mut i: usize = 0;
    while i < n
        invariant
            i <= n,
            n == s@.len(),
            out@ == s@.subrange(0, i as int),
        decreases n - i,
    {
        let c = s.get_char(i);
        out.push(c);
        proof {
            assert(s@.subrange(0, i + 1) =~= s@.subrange(0, i as int).push(c));
        }
        i += 1;
    }
    proof {
        assert(s@.subrange(0, n as int) =~= s@);
    }
    out
}

/// Whether the characters are those of the string.
pub fn same_text(a: &Vec<char>, b: &str) -> (r: bool)
    ensures
        r == (a@ == b@),
{
    let other = chars_of(b);
    if a.len() != other.len() {
        return false;
    }
    let mut i: usize = 0;
    while i < a.len()
        invariant
            i <= a.len(),
            a.len() == other.len(),
            other@ == b@,
            forall|k: int| 0 <= k < i ==> a@[k] == other@[k],
        decreases a.len() - i,
    {
        if a[i] != other[i] {
            return false;
        }
        i += 1;
    }
    proof {
        assert(a@ =~= other@);
    }
    true
}

/// The `;`-separated terms of a text, each as its characters.
pub fn split_terms(s: &str) -> (r: Vec<Vec<char>>)
    ensures
        r.len() == spec_split(s@, ';').len(),
        forall|k: int| 0 <= k < r.len() ==> (#[trigger] r[k])@ == spec_split(s@, ';')[k],
{
    let p = chars_of(s);
    let mut done: Vec<Vec<char>> = Vec::new();
    let mut current: Vec<char> = Vec::new();
    let mut i: usize = 0;
    proof {
        assert(p@.subrange(0, 0) =~= Seq::<char>::empty());
    }
    while i < p.len()
        invariant
            i <= p.len(),
            p@ == s@,
            spec_split(p@.subrange(0, i as int), ';').len() == done.len() + 1,
            spec_split(p@.subrange(0, i as int), ';').last() == current@,
            forall|k: int|
                0 <= k < done.len() ==> (#[trigger] done[k])@ == spec_split(
                    p@.subrange(0, i as int),
                    ';',
                )[k],
        decreases p.len() - i,
    {
        let ghost before = spec_split(p@.subrange(0, i as int), ';');
        proof {
            assert(p@.subrange(0, i + 1).drop_last() =~= p@.subrange(0, i as int));
            assert(p@.subrange(0, i + 1).last() == p@[i as int]);
        }
        if p[i] == ';' {
            done.push(current);
            current = Vec::new();
        } else {
            current.push(p[i]);
        }
        i += 1;
    }
    proof {
        assert(p@.subrange(0, p@.len() as int) =~= p@);
    }
    done.push(current);
    done
}

/// Whether the characters `pat[lo..hi]` stand in `hay` at position `at`.
fn range_occurs_at(hay: &Vec<char>, pat: &Vec<char>, lo: usize, hi: usize, at: usize) -> (r: bool)
    requires
        lo <= hi <= pat.len(),
        at + (hi - lo) <= hay.len(),
    ensures
        r == occurs_at(hay@, pat@.subrange(lo as int, hi as int), at as int),
{
    let len = hi - lo;
    let ghost needle = pat@.subrange(lo as int, hi as int);
    let mut j: usize = 0;
    while j < len
        invariant
            j <= len,
            len == hi - lo,
            lo <= hi <= pat.len(),
            at + len <= hay.len(),
            needle == pat@.subrange(lo as int, hi as int),
            forall|k: int| 0 <= k < j ==> hay@[at + k] == needle[k],
        decreases len - j,
    {
        if hay[at + j] != pat[lo + j] {
            proof {
                assert(hay@.subrange(at as int, at + needle.len())[j as int] != needle[j as int]);
            }
            return false;
        }
        j += 1;
    }
    proof {
        assert(hay@.subrange(at as int, at + needle.len()) =~= needle);
    }
    true
}

/// Whether the characters `pat[lo..hi]` occur in `hay`.
fn range_occurs(hay: &Vec<char>, pat: &Vec<char>, lo: usize, hi: usize) -> (r: bool)
    requires
        lo <= hi <= pat.len(),
    ensures
        r == spec_contains(hay@, pat@.subrange(lo as int, hi as int)),
{
    let len = hi - lo;
    let ghost needle = pat@.subrange(lo as int, hi as int);
    if len > hay.len() {
        return false;
    }
    let last = hay.len() - len;
    let mut at: usize = 0;
    loop
        invariant
            at <= last,
            last + len == hay.len(),
            len == hi - lo,
            lo <= hi <= pat.len(),
            needle == pat@.subrange(lo as int, hi as int),
            forall|k: int| 0 <= k < at ==> !occurs_at(hay@, needle, k),
        decreases last - at,
    {
        if range_occurs_at(hay, pat, lo, hi, at) {
            return true;
        }
        if at == last {
            return false;
        }
        at += 1;
    }
}

/// Substring test: `true` exactly when `needle` occurs in `hay`.
pub fn contains(hay: &str, needle: &str) -> (r: bool)
    ensures
        r == spec_contains(hay@, needle@),
{
    let h = chars_of(hay);
    let n = chars_of(needle);
    proof {
        assert(n@.subrange(0, n@.len() as int) =~= n@);
    }
    range_occurs(&h, &n, 0, n.len())
}

/// Whether every semicolon-separated term of `pattern` occurs in `hay`.
pub fn contains_all_terms(hay: &str, pattern: &str) -> (r: bool)
    ensures
        r == contains_all(hay@, spec_split(pattern@, ';')),
{
    let h = chars_of(hay);
    let p = chars_of(pattern);
    let n = p.len();
    let mut ok = true;
    let mut start: usize = 0;
    let mut i: usize = 0;
    proof {
        assert(spec_split(p@.subrange(0, 0), ';') =~= seq![Seq::<char>::empty()]);
        assert(p@.subrange(0, 0) =~= Seq::<char>::empty());
    }
    while i < n
        invariant
            start <= i <= n,
            n == p.len(),
            h@ == hay@,
            p@ == pattern@,
            spec_split(p@.subrange(0, i as int), ';').len() >= 1,
            spec_split(p@.subrange(0, i as int), ';').last() == p@.subrange(
                start as int,
                i as int,
            ),
            ok == contains_all(h@, spec_split(p@.subrange(0, i as int), ';').drop_last()),
        decreases n - i,
    {
        let ghost before = spec_split(p@.subrange(0, i as int), ';');
        let ghost after = spec_split(p@.subrange(0, i + 1), ';');
        proof {
            assert(p@.subrange(0, i + 1).drop_last() =~= p@.subrange(0, i as int));
            assert(p@.subrange(0, i + 1).last() == p@[i as int]);
        }
        if p[i] == ';' {
            let found = range_occurs(&h, &p, start, i);
            proof {
                assert(after == before.push(Seq::<char>::empty()));
                assert(after.drop_last() =~= before);
                assert(before =~= before.drop_last().push(before.last()));
                assert(p@.subrange(i + 1, i + 1) =~= Seq::<char>::empty());
                if ok && found {
                    assert forall|k: int| 0 <= k < before.len() implies spec_contains(
                        h@,
                        #[trigger] before[k],
                    ) by {
                        if k < before.len() - 1 {
                            assert(before[k] == before.drop_last()[k]);
                        }
                    }
                } else if !found {
                    assert(!spec_contains(h@, before[before.len() - 1]));
                } else {
                    let k = choose|k: int|
                        0 <= k < before.drop_last().len() && !spec_contains(
                            h@,
                            #[trigger] before.drop_last()[k],
                        );
                    assert(before[k] == before.drop_last()[k]);
                }
            }
            ok = ok && found;
            start = i + 1;
        } else {
            proof {
                assert(after == before.drop_last().push(before.last().push(p@[i as int])));
                assert(after.drop_last() =~= before.drop_last());
                assert(p@.subrange(start as int, i + 1) =~= p@.subrange(
                    start as int,
                    i as int,
                ).push(p@[i as int]));
            }
        }
        i += 1;
    }
    let found = range_occurs(&h, &p, start, n);
    proof {
        assert(p@.subrange(0, n as int) =~= p@);
        let pieces = spec_split(p@, ';');
        assert(pieces =~= pieces.drop_last().push(pieces.last()));
        if ok && found {
            assert forall|k: int| 0 <= k < pieces.len() implies spec_contains(
                h@,
                #[trigger] pieces[k],
            ) by {
                if k < pieces.len() - 1 {
                    assert(pieces[k] == pieces.drop_last()[k]);
                }
            }
        } else if !found {
            assert(!spec_contains(h@, pieces[pieces.len() - 1]));
        } else {
            let k = choose|k: int|
                0 <= k < pieces.drop_last().len() && !spec_contains(
                    h@,
                    #[trigger] pieces.drop_last()[k],
                );
            assert(pieces[k] == pieces.drop_last()[k]);
        }
    }
    ok && found
}

/// Lexical comparison: `true` exactly when `a` is before `b` or equal to it.
pub fn str_le(a: &str, b: &str) -> (r: bool)
    ensures
        r == lex_le(a@, b@),
{
    let x = chars_of(a);
    let y = chars_of(b);
    let mut i: usize = 0;
    proof {
        assert(x@.subrange(0, x@.len() as int) =~= x@);
        assert(y@.subrange(0, y@.len() as int) =~= y@);
    }
    while i < x.len() && i < y.len()
        invariant
            i <= x.len(),
            i <= y.len(),
            x@ == a@,
            y@ == b@,
            lex_le(x@, y@) == lex_le(
                x@.subrange(i as int, x@.len() as int),
                y@.subrange(i as int, y@.len() as int),
            ),
        decreases x.len() - i,
    {
        let ghost xs = x@.subrange(i as int, x@.len() as int);
        let ghost ys = y@.subrange(i as int, y@.len() as int);
        proof {
            assert(xs[0] == x@[i as int]);
            assert(ys[0] == y@[i as int]);
            assert(xs.drop_first() =~= x@.subrange(i + 1, x@.len() as int));
            assert(ys.drop_first() =~= y@.subrange(i + 1, y@.len() as int));
        }
        if x[i] != y[i] {
            return x[i] < y[i];
        }
        i += 1;
    }
    i >= x.len()
}

} // verus!

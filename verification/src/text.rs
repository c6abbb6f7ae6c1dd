//! Character-level helpers for the strings that selectors and product names
//! come in: white space, trimming, splitting at a separator and substring
//! search, each stated over `Seq<char>`.

use vstd::prelude::*;
use vstd::std_specs::iter::IteratorSpec;

verus! {

/// White space as Unicode defines it: the characters that are `White_Space`.
pub open spec fn is_space(c: char) -> bool {
    let u = c as u32;
    ||| 0x09 <= u <= 0x0D
    ||| u == 0x20
    ||| u == 0x85
    ||| u == 0xA0
    ||| u == 0x1680
    ||| 0x2000 <= u <= 0x200A
    ||| u == 0x2028
    ||| u == 0x2029
    ||| u == 0x202F
    ||| u == 0x205F
    ||| u == 0x3000
}

/// `s` without the white space it begins with.
pub open spec fn trim_start(s: Seq<char>) -> Seq<char>
    decreases s.len(),
{
    if s.len() > 0 && is_space(s.first()) {
        trim_start(s.drop_first())
    } else {
        s
    }
}

/// `s` without the white space it ends with.
pub open spec fn trim_end(s: Seq<char>) -> Seq<char>
    decreases s.len(),
{
    if s.len() > 0 && is_space(s.last()) {
        trim_end(s.drop_last())
    } else {
        s
    }
}

/// `s` without the white space at either end.
pub open spec fn trim(s: Seq<char>) -> Seq<char> {
    trim_end(trim_start(s))
}

/// The pieces of `s` between the occurrences of `sep`, in order. There is
/// always one piece more than there are separators, so the empty string has
/// one empty piece.
pub open spec fn split(s: Seq<char>, sep: char) -> Seq<Seq<char>>
    decreases s.len(),
{
    if s.len() == 0 {
        seq![Seq::empty()]
    } else {
        let before = split(s.drop_last(), sep);
        if s.last() == sep {
            before.push(Seq::empty())
        } else {
            before.drop_last().push(before.last().push(s.last()))
        }
    }
}

/// `word` stands in `text` at index `i`.
pub open spec fn occurs_at(text: Seq<char>, word: Seq<char>, i: int) -> bool {
    0 <= i && i + word.len() <= text.len() && text.subrange(i, i + word.len()) == word
}

/// `word` stands somewhere in `text`.
pub open spec fn contains(text: Seq<char>, word: Seq<char>) -> bool {
    exists|i: int| occurs_at(text, word, i)
}

/// The pieces put together again, with `sep` between one piece and the next.
pub open spec fn join(pieces: Seq<Seq<char>>, sep: char) -> Seq<char>
    decreases pieces.len(),
{
    if pieces.len() == 0 {
        Seq::empty()
    } else if pieces.len() == 1 {
        pieces[0]
    } else {
        join(pieces.drop_last(), sep) + seq![sep] + pieces.last()
    }
}

/// What `split` gives: at least one piece, no piece that holds the
/// separator, and pieces that give the string back when they are joined.
pub proof fn lemma_split(s: Seq<char>, sep: char)
    ensures
        split(s, sep).len() >= 1,
        forall|i: int, j: int|
            0 <= i < split(s, sep).len() && 0 <= j < split(s, sep)[i].len() ==> split(
                s,
                sep,
            )[i][j] != sep,
        join(split(s, sep), sep) == s,
    decreases s.len(),
{
    if s.len() > 0 {
        let before = split(s.drop_last(), sep);
        lemma_split(s.drop_last(), sep);
        if s.last() == sep {
            assert(before.push(Seq::empty()).drop_last() =~= before);
        } else {
            let grown = before.last().push(s.last());
            let after = before.drop_last().push(grown);
            if before.len() == 1 {
                assert(join(after, sep) =~= s);
            } else {
                assert(after.drop_last() =~= before.drop_last());
                assert(join(before.drop_last(), sep) + seq![sep] + grown =~= (join(
                    before.drop_last(),
                    sep,
                ) + seq![sep] + before.last()).push(s.last()));
            }
            assert forall|i: int, j: int|
                0 <= i < after.len() && 0 <= j < after[i].len() implies after[i][j] != sep by {
                if i < after.len() - 1 {
                    assert(after[i] == before[i]);
                } else if j < before.last().len() {
                    assert(after[i][j] == before[i][j]);
                }
            }
        }
    } else {
        assert(split(s, sep)[0] =~= s);
    }
}

/// `split` is the only way to cut a string at a separator: pieces that do
/// not hold the separator are what `split` makes of their join.
pub proof fn lemma_split_of_join(pieces: Seq<Seq<char>>, sep: char)
    requires
        pieces.len() >= 1,
        forall|i: int, j: int|
            0 <= i < pieces.len() && 0 <= j < pieces[i].len() ==> pieces[i][j] != sep,
    ensures
        split(join(pieces, sep), sep) == pieces,
    decreases join(pieces, sep).len(),
{
    let s = join(pieces, sep);
    let last = pieces.last();
    if last.len() > 0 {
        let shorter = pieces.drop_last().push(last.drop_last());
        assert(shorter.drop_last() =~= pieces.drop_last());
        assert(s.drop_last() =~= join(shorter, sep)) by {
            if pieces.len() > 1 {
                assert(s =~= join(pieces.drop_last(), sep) + seq![sep] + last);
            }
        }
        assert forall|i: int, j: int|
            0 <= i < shorter.len() && 0 <= j < shorter[i].len() implies shorter[i][j] != sep by {
            if i < shorter.len() - 1 {
                assert(shorter[i] == pieces[i]);
            } else {
                assert(shorter[i][j] == pieces[i][j]);
            }
        }
        lemma_split_of_join(shorter, sep);
        assert(shorter.drop_last().push(shorter.last().push(s.last())) =~= pieces) by {
            assert(last.drop_last().push(last.last()) =~= last);
        }
    } else if pieces.len() > 1 {
        let shorter = pieces.drop_last();
        assert(last =~= Seq::<char>::empty());
        assert(s.drop_last() =~= join(shorter, sep));
        lemma_split_of_join(shorter, sep);
    } else {
        assert(last =~= Seq::<char>::empty());
    }
}

/// What `trim_start` gives: the string from some index on, with white space
/// alone before that index and none at it.
pub proof fn lemma_trim_start(s: Seq<char>) -> (from: int)
    ensures
        0 <= from <= s.len(),
        trim_start(s) == s.skip(from),
        forall|i: int| 0 <= i < from ==> is_space(s[i]),
        from < s.len() ==> !is_space(s[from]),
    decreases s.len(),
{
    if s.len() > 0 && is_space(s.first()) {
        let rest = lemma_trim_start(s.drop_first());
        assert forall|i: int| 0 <= i < rest + 1 implies is_space(s[i]) by {
            if i > 0 {
                assert(s[i] == s.drop_first()[i - 1]);
            }
        }
        rest + 1
    } else {
        0
    }
}

/// What `trim_end` gives: the string up to some index, with white space
/// alone from that index on and none before it.
pub proof fn lemma_trim_end(s: Seq<char>) -> (to: int)
    ensures
        0 <= to <= s.len(),
        trim_end(s) == s.take(to),
        forall|i: int| to <= i < s.len() ==> is_space(s[i]),
        to > 0 ==> !is_space(s[to - 1]),
    decreases s.len(),
{
    if s.len() > 0 && is_space(s.last()) {
        let to = lemma_trim_end(s.drop_last());
        assert forall|i: int| to <= i < s.len() implies is_space(s[i]) by {
            if i < s.len() - 1 {
                assert(s[i] == s.drop_last()[i]);
            }
        }
        to
    } else {
        s.len() as int
    }
}

/// What `trim` gives: a part of the string that neither begins nor ends
/// with white space, and outside of which the string holds white space
/// alone.
pub proof fn lemma_trim(s: Seq<char>) -> (range: (int, int))
    ensures
        0 <= range.0 <= range.1 <= s.len(),
        trim(s) == s.subrange(range.0, range.1),
        forall|i: int| 0 <= i < range.0 || range.1 <= i < s.len() ==> is_space(s[i]),
        range.0 < range.1 ==> !is_space(s[range.0]) && !is_space(s[range.1 - 1]),
{
    let from = lemma_trim_start(s);
    let rest = s.skip(from);
    let to = lemma_trim_end(rest);
    assert forall|i: int| from + to <= i < s.len() implies is_space(s[i]) by {
        assert(s[i] == rest[i - from]);
    }
    if to > 0 {
        assert(rest[0] == s[from]);
    }
    (from, from + to)
}

/// Whether `c` is white space.
pub fn space(c: char) -> (r: bool)
    ensures
        r == is_space(c),
{
    let u: u32 = c as u32;
    (0x09 <= u && u <= 0x0D) || u == 0x20 || u == 0x85 || u == 0xA0 || u == 0x1680 || (0x2000 <= u
        && u <= 0x200A) || u == 0x2028 || u == 0x2029 || u == 0x202F || u == 0x205F || u == 0x3000
}

/// The characters of a string.
pub fn to_chars(s: &str) -> (r: Vec<char>)
    ensures
        r@ == s@,
{
    broadcast use vstd::string::group_string_axioms;

    let mut out: Vec<char> = Vec::new();
    let mut it = s.chars();
    loop
        invariant
            out@ + it.remaining() == s@,
            it.decrease() is Some,
        ensures
            out@ == s@,
        decreases it.decrease()->0,
    {
        let ghost before = it.remaining();
        match it.next() {
            Some(c) => {
                out.push(c);
                assert(out@ + it.remaining() =~= s@) by {
                    assert(before =~= seq![c] + it.remaining());
                }
            },
            None => {
                break ;
            },
        }
    }
    out
}

/// The part of `chars[lo..hi]` that is left when the white space at either
/// end is taken away, as a range of indices.
pub fn trim_range(chars: &Vec<char>, lo: usize, hi: usize) -> (r: (usize, usize))
    requires
        lo <= hi <= chars.len(),
    ensures
        lo <= r.0 <= r.1 <= hi,
        chars@.subrange(r.0 as int, r.1 as int) == trim(chars@.subrange(lo as int, hi as int)),
{
    let ghost s = chars@;
    let mut a: usize = lo;
    while a < hi && space(chars[a])
        invariant
            lo <= a <= hi <= chars.len(),
            s == chars@,
            trim_start(s.subrange(lo as int, hi as int)) == trim_start(
                s.subrange(a as int, hi as int),
            ),
        decreases hi - a,
    {
        assert(s.subrange(a as int, hi as int).drop_first() =~= s.subrange(a as int + 1, hi as int));
        a += 1;
    }
    let mut b: usize = hi;
    while a < b && space(chars[b - 1])
        invariant
            a <= b <= hi <= chars.len(),
            s == chars@,
            trim_end(s.subrange(a as int, hi as int)) == trim_end(s.subrange(a as int, b as int)),
        decreases b - a,
    {
        assert(s.subrange(a as int, b as int).drop_last() =~= s.subrange(a as int, b as int - 1));
        b -= 1;
    }
    (a, b)
}

/// The ranges of the pieces that `chars[lo..hi]` falls into at the
/// occurrences of `sep`.
pub fn split_ranges(chars: &Vec<char>, lo: usize, hi: usize, sep: char) -> (r: Vec<(usize, usize)>)
    requires
        lo <= hi <= chars.len(),
    ensures
        r.len() == split(chars@.subrange(lo as int, hi as int), sep).len(),
        forall|j: int|
            0 <= j < r.len() ==> lo <= (#[trigger] r[j]).0 <= r[j].1 <= hi && chars@.subrange(
                r[j].0 as int,
                r[j].1 as int,
            ) == split(chars@.subrange(lo as int, hi as int), sep)[j],
{
    let ghost s = chars@;
    let mut out: Vec<(usize, usize)> = Vec::new();
    let mut start: usize = lo;
    let mut i: usize = lo;
    while i < hi
        invariant
            lo <= start <= i <= hi <= chars.len(),
            s == chars@,
            out.len() + 1 == split(s.subrange(lo as int, i as int), sep).len(),
            split(s.subrange(lo as int, i as int), sep).last() == s.subrange(
                start as int,
                i as int,
            ),
            forall|j: int|
                0 <= j < out.len() ==> lo <= (#[trigger] out[j]).0 <= out[j].1 <= hi && s.subrange(
                    out[j].0 as int,
                    out[j].1 as int,
                ) == split(s.subrange(lo as int, i as int), sep)[j],
        decreases hi - i,
    {
        assert(s.subrange(lo as int, i as int + 1).drop_last() =~= s.subrange(lo as int, i as int));
        if chars[i] == sep {
            out.push((start, i));
            start = i + 1;
        } else {
            assert(s.subrange(start as int, i as int + 1) =~= s.subrange(
                start as int,
                i as int,
            ).push(s[i as int]));
        }
        i += 1;
    }
    out.push((start, hi));
    out
}

/// Whether `word` stands somewhere in `text`.
pub fn has_substring(text: &Vec<char>, word: &Vec<char>) -> (r: bool)
    ensures
        r == contains(text@, word@),
{
    let n = text.len();
    let m = word.len();
    if m > n {
        return false;
    }
    let mut i: usize = 0;
    while i <= n - m
        invariant
            m <= n,
            n == text.len(),
            m == word.len(),
            i <= n - m + 1,
            forall|k: int| 0 <= k < i ==> !occurs_at(text@, word@, k),
        decreases n - m + 1 - i,
    {
        let mut j: usize = 0;
        while j < m && text[i + j] == word[j]
            invariant
                m <= n,
                n == text.len(),
                m == word.len(),
                i <= n - m,
                j <= m,
                forall|l: int| 0 <= l < j ==> text@[i + l] == word@[l],
            decreases m - j,
        {
            j += 1;
        }
        if j == m {
            assert(text@.subrange(i as int, i + m) =~= word@);
            assert(occurs_at(text@, word@, i as int));
            return true;
        }
        i += 1;
    }
    false
}

} // verus!

//! Character-level helpers shared by the parsers of this crate.

use vstd::prelude::*;
use vstd::string::*;

verus! {

/// The pieces of `s` that lie between occurrences of `sep`, in order.
///
/// Text without `sep` is one piece, the empty text included; each
/// occurrence of `sep` ends a piece and begins the next, which may be empty.
pub open spec fn split(s: Seq<char>, sep: char) -> Seq<Seq<char>>
    decreases s.len(),
{
    if s.len() == 0 {
        seq![Seq::empty()]
    } else {
        let before = split(s.drop_last(), sep);
        if s.last() == sep {
            before.push(Seq::empty())
        } else {
            before.update(before.len() - 1, before.last().push(s.last()))
        }
    }
}

/// Splitting always yields at least one piece.
pub proof fn lemma_split_nonempty(s: Seq<char>, sep: char)
    ensures
        split(s, sep).len() >= 1,
    decreases s.len(),
{
    if s.len() > 0 {
        lemma_split_nonempty(s.drop_last(), sep);
    }
}

/// No piece of a split holds the separator.
pub proof fn lemma_split_pieces_lack_separator(s: Seq<char>, sep: char)
    ensures
        forall|k: int, i: int|
            0 <= k < split(s, sep).len() && 0 <= i < split(s, sep)[k].len() ==> split(
                s,
                sep,
            )[k][i] != sep,
    decreases s.len(),
{
    if s.len() > 0 {
        lemma_split_nonempty(s.drop_last(), sep);
        lemma_split_pieces_lack_separator(s.drop_last(), sep);
    }
}

/// Text without the separator is a single piece: itself.
pub proof fn lemma_split_without_separator(s: Seq<char>, sep: char)
    requires
        forall|i: int| 0 <= i < s.len() ==> s[i] != sep,
    ensures
        split(s, sep) == seq![s],
    decreases s.len(),
{
    if s.len() > 0 {
        let front = s.drop_last();
        lemma_split_without_separator(front, sep);
        assert(front.push(s.last()) == s);
        assert(split(s, sep) =~= seq![s]);
    } else {
        assert(s == Seq::<char>::empty());
    }
}

/// The pieces `pieces` with `sep` between each two neighbours.
pub open spec fn join(pieces: Seq<Seq<char>>, sep: char) -> Seq<char>
    decreases pieces.len(),
{
    if pieces.len() == 0 {
        Seq::empty()
    } else if pieces.len() == 1 {
        pieces[0]
    } else {
        join(pieces.drop_last(), sep).push(sep) + pieces.last()
    }
}

/// Joining the pieces of a split gives the text back.
pub proof fn lemma_join_undoes_split(s: Seq<char>, sep: char)
    ensures
        join(split(s, sep), sep) == s,
    decreases s.len(),
{
    if s.len() == 0 {
        assert(join(split(s, sep), sep) =~= s);
    } else {
        let front = s.drop_last();
        let before = split(front, sep);
        let pieces = split(s, sep);
        lemma_split_nonempty(front, sep);
        lemma_join_undoes_split(front, sep);
        if s.last() == sep {
            assert(pieces.drop_last() =~= before);
            assert(join(pieces, sep) =~= front.push(sep));
        } else if before.len() == 1 {
            assert(join(pieces, sep) =~= front.push(s.last()));
        } else {
            assert(pieces.drop_last() =~= before.drop_last());
            assert(join(pieces, sep) =~= join(before, sep).push(s.last()));
        }
        assert(front.push(s.last()) =~= s);
    }
}

/// Splitting what was joined gives the pieces back, provided there is at
/// least one piece and none of them holds the separator. With
/// [`lemma_join_undoes_split`] and [`lemma_split_pieces_lack_separator`]
/// this says that splitting is the inverse of joining.
pub proof fn lemma_split_undoes_join(pieces: Seq<Seq<char>>, sep: char)
    requires
        pieces.len() >= 1,
        forall|k: int, i: int|
            0 <= k < pieces.len() && 0 <= i < pieces[k].len() ==> pieces[k][i] != sep,
    ensures
        split(join(pieces, sep), sep) == pieces,
    decreases pieces.len(), pieces.last().len(),
{
    let last = pieces.last();
    let n = pieces.len() as int;
    if last.len() > 0 {
        let shorter = pieces.update(n - 1, last.drop_last());
        assert forall|k: int, i: int|
            0 <= k < shorter.len() && 0 <= i < shorter[k].len() implies shorter[k][i] != sep by {
            if k == n - 1 {
                assert(shorter[k][i] == pieces[k][i]);
            } else {
                assert(shorter[k] == pieces[k]);
            }
        }
        lemma_split_undoes_join(shorter, sep);
        assert(last[last.len() - 1] != sep);
        if n == 1 {
            assert(join(pieces, sep) =~= join(shorter, sep).push(last.last()));
        } else {
            assert(shorter.drop_last() =~= pieces.drop_last());
            assert(join(pieces, sep) =~= join(shorter, sep).push(last.last()));
        }
        let joined = join(pieces, sep);
        assert(joined.drop_last() =~= join(shorter, sep));
        assert(joined.last() == last.last());
        assert(last.drop_last().push(last.last()) =~= last);
        assert(joined.len() > 0);
        assert(split(joined.drop_last(), sep) == shorter);
        assert(shorter.last() == last.drop_last());
        assert(split(joined, sep) == shorter.update(
            shorter.len() - 1,
            shorter.last().push(joined.last()),
        ));
        assert(shorter.last().push(joined.last()) == last);
        assert(pieces.update(n - 1, last) =~= pieces);
        assert(shorter.update(n - 1, last) =~= pieces.update(n - 1, last));
    } else if n >= 2 {
        let fewer = pieces.drop_last();
        assert forall|k: int, i: int|
            0 <= k < fewer.len() && 0 <= i < fewer[k].len() implies fewer[k][i] != sep by {
            assert(fewer[k] == pieces[k]);
        }
        lemma_split_undoes_join(fewer, sep);
        let joined = join(pieces, sep);
        assert(joined =~= join(fewer, sep).push(sep));
        assert(joined.drop_last() =~= join(fewer, sep));
        assert(joined.last() == sep);
        assert(split(joined.drop_last(), sep) == fewer);
        assert(last =~= Seq::<char>::empty());
        assert(fewer.push(last) =~= pieces);
    } else {
        assert(join(pieces, sep) =~= Seq::<char>::empty());
        assert(split(join(pieces, sep), sep) =~= pieces);
    }
}

/// The lowercase form of `text` that `str::to_lowercase` returns: each
/// character replaced by its lowercase mapping in the Unicode character
/// database, which may be more than one character long.
pub uninterp spec fn lowercased(text: Seq<char>) -> Seq<char>;

/// `str::to_lowercase` of the standard library.
///
/// Trusted: the result depends on the characters of `text` alone.
pub assume_specification[ str::to_lowercase ](text: &str) -> (lower: String)
    ensures
        lower@ == lowercased(text@),
;

/// The characters of `s`, in order.
pub fn chars_of(s: &str) -> (out: Vec<char>)
    ensures
        out@ == s@,
{
    let mut out: Vec<char> = Vec::new();
    for c in it: s.chars()
        invariant
            out@ == it.seq().take(it.index()),
            it.seq() == s@,
    {
        out.push(c);
    }
    out
}

/// Whether `ranges` marks, piece by piece, the split of
/// `chars.subrange(from, to)` at `sep`: each range lies inside
/// `from..to` and covers exactly its piece.
pub open spec fn ranges_mark_split(
    ranges: Seq<(usize, usize)>,
    chars: Seq<char>,
    from: int,
    to: int,
    sep: char,
) -> bool {
    let pieces = split(chars.subrange(from, to), sep);
    &&& ranges.len() == pieces.len()
    &&& forall|k: int|
        0 <= k < ranges.len() ==> {
            &&& from <= (#[trigger] ranges[k]).0 <= ranges[k].1 <= to
            &&& chars.subrange(ranges[k].0 as int, ranges[k].1 as int) == pieces[k]
        }
}

/// Finds the pieces of `chars[from..to]` between occurrences of `sep`, each
/// as the pair of positions where it starts and where it ends.
pub fn split_ranges(chars: &[char], from: usize, to: usize, sep: char) -> (ranges: Vec<
    (usize, usize),
>)
    requires
        from <= to <= chars@.len(),
    ensures
        ranges_mark_split(ranges@, chars@, from as int, to as int, sep),
{
    let mut ranges: Vec<(usize, usize)> = Vec::new();
    let mut start: usize = from;
    let mut i: usize = from;
    assert(chars@.subrange(from as int, from as int) == Seq::<char>::empty());
    while i < to
        invariant
            from <= start <= i <= to <= chars@.len(),
            ranges@.len() + 1 == split(chars@.subrange(from as int, i as int), sep).len(),
            chars@.subrange(start as int, i as int) == split(
                chars@.subrange(from as int, i as int),
                sep,
            ).last(),
            forall|k: int|
                0 <= k < ranges@.len() ==> {
                    &&& from <= (#[trigger] ranges@[k]).0 <= ranges@[k].1 <= to
                    &&& chars@.subrange(ranges@[k].0 as int, ranges@[k].1 as int) == split(
                        chars@.subrange(from as int, i as int),
                        sep,
                    )[k]
                },
        decreases to - i,
    {
        let ghost seen = chars@.subrange(from as int, i as int);
        let ghost grown = chars@.subrange(from as int, i + 1);
        proof {
            assert(grown.drop_last() == seen);
            assert(grown.last() == chars@[i as int]);
        }
        if chars[i] == sep {
            ranges.push((start, i));
            start = i + 1;
            proof {
                assert(chars@.subrange(start as int, start as int) == Seq::<char>::empty());
            }
        } else {
            proof {
                assert(chars@.subrange(start as int, i + 1) == chars@.subrange(
                    start as int,
                    i as int,
                ).push(chars@[i as int]));
            }
        }
        i = i + 1;
    }
    ranges.push((start, to));
    ranges
}

/// Splits `s` at each occurrence of `sep`.
pub fn split_text<'a>(s: &'a str, sep: char) -> (pieces: Vec<&'a str>)
    ensures
        pieces@.len() == split(s@, sep).len(),
        forall|k: int| 0 <= k < pieces@.len() ==> (#[trigger] pieces@[k])@ == split(s@, sep)[k],
{
    let chars = chars_of(s);
    let n = chars.len();
    let ranges = split_ranges(chars.as_slice(), 0, n, sep);
    assert(chars@.subrange(0, n as int) == s@);
    let mut pieces: Vec<&'a str> = Vec::new();
    let mut k: usize = 0;
    while k < ranges.len()
        invariant
            k <= ranges@.len(),
            n == s@.len(),
            chars@ == s@,
            ranges_mark_split(ranges@, chars@, 0, n as int, sep),
            chars@.subrange(0, n as int) == s@,
            pieces@.len() == k,
            forall|j: int| 0 <= j < k ==> (#[trigger] pieces@[j])@ == split(s@, sep)[j],
        decreases ranges@.len() - k,
    {
        let (start, end) = ranges[k];
        pieces.push(s.substring_char(start, end));
        k = k + 1;
    }
    pieces
}

} // verus!

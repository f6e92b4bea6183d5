use vstd::prelude::*;
use crate::text::copy_range;

verus! {

/// The byte that separates the components of a path.
pub const SEPARATOR: u8 = 0x2f;

/// The views of a list of byte strings, in order.
pub open spec fn components_view(components: Seq<Vec<u8>>) -> Seq<Seq<u8>> {
    components.map_values(|c: Vec<u8>| c@)
}

/// The offset of the first `b` in `s`, or the length of `s` where it holds none.
pub open spec fn first_index(s: Seq<u8>, b: u8) -> int
    decreases s.len(),
{
    if s.len() == 0 || s[0] == b {
        0
    } else {
        1 + first_index(s.skip(1), b)
    }
}

/// The pieces of `s` between occurrences of `sep`: one more than there are
/// separators, some of them possibly empty.
pub open spec fn split(s: Seq<u8>, sep: u8) -> Seq<Seq<u8>>
    decreases s.len(),
{
    let at = first_index(s, sep);
    if 0 <= at < s.len() {
        seq![s.take(at)] + split(s.skip(at + 1), sep)
    } else {
        seq![s]
    }
}

/// `s` without the slashes it begins with.
pub open spec fn trim_start(s: Seq<u8>) -> Seq<u8>
    decreases s.len(),
{
    if s.len() > 0 && s[0] == SEPARATOR {
        trim_start(s.skip(1))
    } else {
        s
    }
}

/// `s` without the slashes it ends with.
pub open spec fn trim_end(s: Seq<u8>) -> Seq<u8>
    decreases s.len(),
{
    if s.len() > 0 && s.last() == SEPARATOR {
        trim_end(s.drop_last())
    } else {
        s
    }
}

/// Whether `b` is taken out of a request path: `:` `\` `"` `*` `?` `<` `>` `|`.
pub open spec fn is_stripped(b: u8) -> bool {
    b == 0x3a || b == 0x5c || b == 0x22 || b == 0x2a || b == 0x3f || b == 0x3c || b == 0x3e || b
        == 0x7c
}

/// `s` without the bytes that are taken out of a request path.
pub open spec fn without_stripped(s: Seq<u8>) -> Seq<u8>
    decreases s.len(),
{
    if s.len() == 0 {
        s
    } else if is_stripped(s.last()) {
        without_stripped(s.drop_last())
    } else {
        without_stripped(s.drop_last()).push(s.last())
    }
}

/// A request path made ready for the file system: the slashes at both ends
/// go first, then the bytes that no file name may hold.
pub open spec fn cleaned(path: Seq<u8>) -> Seq<u8> {
    without_stripped(trim_end(trim_start(path)))
}

/// `first_index` is the one offset that holds `b` with no `b` before it.
pub proof fn lemma_first_index(s: Seq<u8>, b: u8, at: int)
    requires
        0 <= at <= s.len(),
        forall|j: int| 0 <= j < at ==> s[j] != b,
        at < s.len() ==> s[at] == b,
    ensures
        first_index(s, b) == at,
    decreases s.len(),
{
    if s.len() > 0 && s[0] != b {
        lemma_first_index(s.skip(1), b, at - 1);
    }
}

/// Skipping `n` slashes at the start of `s` is what `trim_start` does.
pub proof fn lemma_trim_start(s: Seq<u8>, n: int)
    requires
        0 <= n <= s.len(),
        forall|j: int| 0 <= j < n ==> s[j] == SEPARATOR,
        n < s.len() ==> s[n] != SEPARATOR,
    ensures
        trim_start(s) == s.skip(n),
    decreases n,
{
    if n == 0 {
        assert(s.skip(0) == s);
    } else {
        lemma_trim_start(s.skip(1), n - 1);
        assert(s.skip(1).skip(n - 1) == s.skip(n));
    }
}

/// Keeping all but the slashes at the end of `s` is what `trim_end` does.
pub proof fn lemma_trim_end(s: Seq<u8>, n: int)
    requires
        0 <= n <= s.len(),
        forall|j: int| n <= j < s.len() ==> s[j] == SEPARATOR,
        n > 0 ==> s[n - 1] != SEPARATOR,
    ensures
        trim_end(s) == s.take(n),
    decreases s.len() - n,
{
    if n == s.len() {
        assert(s.take(n) == s);
    } else {
        lemma_trim_end(s.drop_last(), n);
        assert(s.drop_last().take(n) == s.take(n));
    }
}

/// Whether `b` is taken out of a request path.
pub fn stripped(b: u8) -> (r: bool)
    ensures
        r == is_stripped(b),
{
    b == 0x3a || b == 0x5c || b == 0x22 || b == 0x2a || b == 0x3f || b == 0x3c || b == 0x3e || b
        == 0x7c
}

/// A request path made ready for the file system.
pub fn clean(path: &[u8]) -> (r: Vec<u8>)
    ensures
        r@ == cleaned(path@),
{
    let mut start: usize = 0;
    while start < path.len() && path[start] == SEPARATOR
        invariant
            start <= path.len(),
            forall|j: int| 0 <= j < start ==> path@[j] == SEPARATOR,
        decreases path.len() - start,
    {
        start += 1;
    }
    let mut end: usize = path.len();
    while end > start && path[end - 1] == SEPARATOR
        invariant
            start <= end <= path.len(),
            forall|j: int| end <= j < path.len() ==> path@[j] == SEPARATOR,
        decreases end,
    {
        end -= 1;
    }
    let ghost inner = path@.subrange(start as int, end as int);
    proof {
        lemma_trim_start(path@, start as int);
        let tail = path@.skip(start as int);
        assert(tail.take(end - start) == inner);
        lemma_trim_end(tail, end - start);
    }
    let mut out: Vec<u8> = Vec::new();
    let mut i: usize = start;
    assert(inner.take(0).len() == 0);
    while i < end
        invariant
            start <= i <= end <= path.len(),
            inner == path@.subrange(start as int, end as int),
            out@ == without_stripped(inner.take(i - start)),
        decreases end - i,
    {
        let b = path[i];
        assert(inner.take(i - start + 1).drop_last() == inner.take(i - start));
        assert(inner.take(i - start + 1).last() == b);
        if !stripped(b) {
            out.push(b);
        }
        i += 1;
    }
    assert(inner.take(end - start) == inner);
    out
}

/// The pieces of `s` between occurrences of `sep`.
pub fn split_on(s: &[u8], sep: u8) -> (r: Vec<Vec<u8>>)
    ensures
        components_view(r@) == split(s@, sep),
{
    let mut out: Vec<Vec<u8>> = Vec::new();
    let mut start: usize = 0;
    let mut i: usize = 0;
    assert(s@.skip(0) == s@);
    while i < s.len()
        invariant
            start <= i <= s.len(),
            forall|j: int| start <= j < i ==> s@[j] != sep,
            split(s@, sep) == components_view(out@) + split(s@.skip(start as int), sep),
        decreases s.len() - i,
    {
        if s[i] == sep {
            let piece = copy_range(s, start, i);
            let ghost rest = s@.skip(start as int);
            proof {
                lemma_first_index(rest, sep, i - start);
                assert(rest.take(i - start) == piece@);
                assert(rest.skip(i - start + 1) == s@.skip(i + 1));
                assert(components_view(out@.push(piece)) == components_view(out@).push(piece@));
                assert(components_view(out@).push(piece@) + split(s@.skip(i + 1), sep)
                    == components_view(out@) + (seq![piece@] + split(s@.skip(i + 1), sep)));
            }
            out.push(piece);
            start = i + 1;
        }
        i += 1;
    }
    let piece = copy_range(s, start, s.len());
    proof {
        let rest = s@.skip(start as int);
        lemma_first_index(rest, sep, rest.len() as int);
        assert(rest == piece@);
        assert(components_view(out@.push(piece)) == components_view(out@).push(piece@));
        assert(components_view(out@).push(piece@) == components_view(out@) + seq![piece@]);
    }
    out.push(piece);
    out
}

/// The pieces put together again, with `sep` between neighbours.
pub open spec fn rejoined(pieces: Seq<Seq<u8>>, sep: u8) -> Seq<u8>
    decreases pieces.len(),
{
    if pieces.len() == 0 {
        Seq::empty()
    } else if pieces.len() == 1 {
        pieces[0]
    } else {
        pieces[0] + seq![sep] + rejoined(pieces.skip(1), sep)
    }
}

/// `first_index` lies within the sequence or at its end, no `b` stands
/// before it, and where it lies within, a `b` stands at it.
pub proof fn lemma_first_index_is_first(s: Seq<u8>, b: u8)
    ensures
        0 <= first_index(s, b) <= s.len(),
        forall|j: int| 0 <= j < first_index(s, b) ==> s[j] != b,
        first_index(s, b) < s.len() ==> s[first_index(s, b)] == b,
    decreases s.len(),
{
    if s.len() > 0 && s[0] != b {
        let rest = s.skip(1);
        lemma_first_index_is_first(rest, b);
        assert forall|j: int| 0 <= j < first_index(s, b) implies s[j] != b by {
            if j > 0 {
                assert(rest[j - 1] == s[j]);
            }
        }
    }
}

/// Splitting loses nothing: there is at least one piece, no piece holds a
/// separator, and the pieces joined by the separator give the sequence back.
pub proof fn lemma_split_rejoins(s: Seq<u8>, sep: u8)
    ensures
        split(s, sep).len() >= 1,
        forall|i: int, j: int|
            0 <= i < split(s, sep).len() && 0 <= j < split(s, sep)[i].len() ==> split(
                s,
                sep,
            )[i][j] != sep,
        rejoined(split(s, sep), sep) == s,
    decreases s.len(),
{
    lemma_first_index_is_first(s, sep);
    let at = first_index(s, sep);
    if at < s.len() {
        let rest = s.skip(at + 1);
        let tail = split(rest, sep);
        let all = split(s, sep);
        lemma_split_rejoins(rest, sep);
        assert(all == seq![s.take(at)] + tail);
        assert(all.skip(1) == tail);
        assert(all[0] == s.take(at));
        assert(s.take(at) + seq![sep] + rest == s);
        assert forall|i: int, j: int| 0 <= i < all.len() && 0 <= j < all[i].len() implies all[i][j]
            != sep by {
            if i > 0 {
                assert(all[i] == tail[i - 1]);
            }
        }
    }
}

/// A byte that the sequence does not hold is in none of its pieces.
pub proof fn lemma_split_keeps_absent(s: Seq<u8>, sep: u8, b: u8)
    requires
        forall|i: int| 0 <= i < s.len() ==> s[i] != b,
    ensures
        forall|i: int, j: int|
            0 <= i < split(s, sep).len() && 0 <= j < split(s, sep)[i].len() ==> split(
                s,
                sep,
            )[i][j] != b,
    decreases s.len(),
{
    lemma_first_index_is_first(s, sep);
    let at = first_index(s, sep);
    if at < s.len() {
        let rest = s.skip(at + 1);
        let tail = split(rest, sep);
        let all = split(s, sep);
        assert forall|i: int| 0 <= i < rest.len() implies rest[i] != b by {
            assert(rest[i] == s[i + at + 1]);
        }
        lemma_split_keeps_absent(rest, sep, b);
        assert(all == seq![s.take(at)] + tail);
        assert forall|i: int, j: int| 0 <= i < all.len() && 0 <= j < all[i].len() implies all[i][j]
            != b by {
            if i > 0 {
                assert(all[i] == tail[i - 1]);
            } else {
                assert(all[0][j] == s[j]);
            }
        }
    }
}

} // verus!

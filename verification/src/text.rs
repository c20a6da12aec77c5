//! Sequences of bytes and characters as the rest of the library reads them:
//! splitting at a separator, trimming, prefixes, and the first place where an
//! element or a run of elements occurs.

use vstd::prelude::*;

verus! {

/// Drops the leading elements for which `skip` holds.
pub open spec fn trim_start_by<T>(s: Seq<T>, skip: spec_fn(T) -> bool) -> Seq<T>
    decreases s.len(),
{
    if s.len() > 0 && skip(s[0]) {
        trim_start_by(s.drop_first(), skip)
    } else {
        s
    }
}

/// Drops the trailing elements for which `skip` holds.
pub open spec fn trim_end_by<T>(s: Seq<T>, skip: spec_fn(T) -> bool) -> Seq<T>
    decreases s.len(),
{
    if s.len() > 0 && skip(s.last()) {
        trim_end_by(s.drop_last(), skip)
    } else {
        s
    }
}

/// Drops the leading and the trailing elements for which `skip` holds.
pub open spec fn trim_by<T>(s: Seq<T>, skip: spec_fn(T) -> bool) -> Seq<T> {
    trim_end_by(trim_start_by(s, skip), skip)
}

/// `i` is the first position of `s` that holds `x`.
pub open spec fn is_first_index_of<T>(s: Seq<T>, x: T, i: int) -> bool {
    &&& 0 <= i < s.len()
    &&& s[i] == x
    &&& forall|k: int| 0 <= k < i ==> s[k] != x
}

/// The first position of `s` that holds `x`, or the length of `s` when none does.
pub open spec fn first_index_of<T>(s: Seq<T>, x: T) -> int {
    if exists|i: int| is_first_index_of(s, x, i) {
        choose|i: int| is_first_index_of(s, x, i)
    } else {
        s.len() as int
    }
}

/// The elements of `s` before the first `x` (all of `s` when it holds no `x`).
pub open spec fn before_first<T>(s: Seq<T>, x: T) -> Seq<T> {
    s.take(first_index_of(s, x))
}

/// The pieces of `s` between the occurrences of `sep`, as `str::split` yields
/// them: one more piece than there are separators, empty pieces included.
pub open spec fn split_on<T>(s: Seq<T>, sep: T) -> Seq<Seq<T>>
    decreases s.len(),
{
    let i = first_index_of(s, sep);
    if 0 <= i < s.len() {
        seq![s.take(i)] + split_on(s.skip(i + 1), sep)
    } else {
        seq![s]
    }
}

/// `s` begins with `p`.
pub open spec fn has_prefix<T>(s: Seq<T>, p: Seq<T>) -> bool {
    p.len() <= s.len() && s.take(p.len() as int) == p
}

/// `s` with `p` removed from its front as many times as it occurs there, as
/// `str::trim_start_matches` does with a non-empty pattern.
pub open spec fn strip_prefix_repeatedly<T>(s: Seq<T>, p: Seq<T>) -> Seq<T>
    decreases s.len(),
{
    if p.len() > 0 && has_prefix(s, p) {
        strip_prefix_repeatedly(s.skip(p.len() as int), p)
    } else {
        s
    }
}

/// `i` is the first position at which `needle` occurs in `hay`.
pub open spec fn is_first_occurrence<T>(hay: Seq<T>, needle: Seq<T>, i: int) -> bool {
    &&& 0 <= i && i + needle.len() <= hay.len()
    &&& hay.subrange(i, i + needle.len()) == needle
    &&& forall|k: int|
        0 <= k < i ==> #[trigger] hay.subrange(k, k + needle.len()) != needle
}

/// The first position at which `needle` occurs in `hay`, as `str::find` gives it.
pub open spec fn first_occurrence<T>(hay: Seq<T>, needle: Seq<T>) -> Option<int> {
    if exists|i: int| is_first_occurrence(hay, needle, i) {
        Some(choose|i: int| is_first_occurrence(hay, needle, i))
    } else {
        None
    }
}

/// An ASCII byte that `char::is_whitespace` accepts.
pub open spec fn is_ascii_space(b: u8) -> bool {
    b == 9 || b == 10 || b == 11 || b == 12 || b == 13 || b == 32
}

/// The bytes of ASCII text without its leading and trailing white space, as
/// `str::trim` leaves them.
pub open spec fn trim_ascii(s: Seq<u8>) -> Seq<u8> {
    trim_by(s, |b: u8| is_ascii_space(b))
}

/// The pieces of `s` that `ranges` delimit, in order.
pub open spec fn pieces_of(s: Seq<u8>, ranges: Seq<(usize, usize)>) -> Seq<Seq<u8>> {
    ranges.map_values(|r: (usize, usize)| s.subrange(r.0 as int, r.1 as int))
}

pub proof fn lemma_first_index_bounds<T>(s: Seq<T>, x: T)
    ensures
        0 <= first_index_of(s, x) <= s.len(),
        first_index_of(s, x) < s.len() ==> is_first_index_of(s, x, first_index_of(s, x)),
        first_index_of(s, x) == s.len() ==> forall|k: int| 0 <= k < s.len() ==> s[k] != x,
{
    if exists|i: int| is_first_index_of(s, x, i) {
    } else {
        assert forall|k: int| 0 <= k < s.len() implies s[k] != x by {
            if s[k] == x {
                lemma_first_index_exists(s, x, k);
            }
        }
    }
}

proof fn lemma_first_index_exists<T>(s: Seq<T>, x: T, k: int)
    requires
        0 <= k < s.len(),
        s[k] == x,
    ensures
        exists|i: int| is_first_index_of(s, x, i),
    decreases k,
{
    if forall|j: int| 0 <= j < k ==> s[j] != x {
        assert(is_first_index_of(s, x, k));
    } else {
        let j = choose|j: int| 0 <= j < k && s[j] == x;
        lemma_first_index_exists(s, x, j);
    }
}

/// The first position of `x` is `i` when no earlier position holds `x` and
/// `i` holds it or is the end.
pub proof fn lemma_first_index_at<T>(s: Seq<T>, x: T, i: int)
    requires
        0 <= i <= s.len(),
        forall|k: int| 0 <= k < i ==> s[k] != x,
        i == s.len() || s[i] == x,
    ensures
        first_index_of(s, x) == i,
{
    lemma_first_index_bounds(s, x);
    if i < s.len() {
        assert(is_first_index_of(s, x, i));
        let j = first_index_of(s, x);
        assert(is_first_index_of(s, x, j));
    }
}

pub proof fn lemma_trim_start_at<T>(s: Seq<T>, skip: spec_fn(T) -> bool, a: int)
    requires
        0 <= a <= s.len(),
        forall|k: int| 0 <= k < a ==> skip(#[trigger] s[k]),
        a == s.len() || !skip(s[a]),
    ensures
        trim_start_by(s, skip) == s.skip(a),
    decreases a,
{
    if a == 0 {
        assert(s.skip(0) =~= s);
    } else {
        let t = s.drop_first();
        assert forall|k: int| 0 <= k < a - 1 implies skip(#[trigger] t[k]) by {
            assert(t[k] == s[k + 1]);
        }
        lemma_trim_start_at(t, skip, a - 1);
        assert(t.skip(a - 1) =~= s.skip(a));
    }
}

pub proof fn lemma_trim_end_at<T>(s: Seq<T>, skip: spec_fn(T) -> bool, b: int)
    requires
        0 <= b <= s.len(),
        forall|k: int| b <= k < s.len() ==> skip(#[trigger] s[k]),
        b == 0 || !skip(s[b - 1]),
    ensures
        trim_end_by(s, skip) == s.take(b),
    decreases s.len() - b,
{
    if b == s.len() {
        assert(s.take(b) =~= s);
    } else {
        let t = s.drop_last();
        assert forall|k: int| b <= k < t.len() implies skip(#[trigger] t[k]) by {
            assert(t[k] == s[k]);
        }
        lemma_trim_end_at(t, skip, b);
        assert(t.take(b) =~= s.take(b));
    }
}

/// Where the first piece of a split ends at the first separator.
pub proof fn lemma_split_step<T>(s: Seq<T>, sep: T, i: int)
    requires
        0 <= i < s.len(),
        s[i] == sep,
        forall|k: int| 0 <= k < i ==> s[k] != sep,
    ensures
        split_on(s, sep) == seq![s.take(i)] + split_on(s.skip(i + 1), sep),
{
    lemma_first_index_at(s, sep, i);
}

/// A sequence without the separator is a single piece.
pub proof fn lemma_split_last<T>(s: Seq<T>, sep: T)
    requires
        forall|k: int| 0 <= k < s.len() ==> s[k] != sep,
    ensures
        split_on(s, sep) == seq![s],
{
    lemma_first_index_at(s, sep, s.len() as int);
}

/// Bytes below 0x80 form valid UTF-8.
pub proof fn lemma_ascii_valid_utf8(bytes: Seq<u8>)
    requires
        forall|i: int| 0 <= i < bytes.len() ==> bytes[i] < 0x80,
    ensures
        vstd::utf8::valid_utf8(bytes),
{
    assert(bytes.subrange(0, 0) =~= Seq::<u8>::empty());
    assert(vstd::utf8::partial_valid_utf8(bytes, 0));
    assert forall|i: int| 0 <= 0 <= i < bytes.len() <= bytes.len() implies
        #[trigger] vstd::utf8::is_leading_byte_width_1(bytes[i]) by {}
    vstd::utf8::partial_valid_utf8_extend_ascii_block(bytes, 0, bytes.len() as int);
    assert(bytes.subrange(0, bytes.len() as int) =~= bytes);
}

/// The position of the first `x` in `s[start..end]`, counted from the start of
/// `s`; `end` when there is none.
pub fn index_in(s: &[u8], start: usize, end: usize, x: u8) -> (i: usize)
    requires
        start <= end <= s@.len(),
    ensures
        start <= i <= end,
        i - start == first_index_of(s@.subrange(start as int, end as int), x),
{
    let mut i = start;
    while i < end && s[i] != x
        invariant
            start <= i <= end <= s@.len(),
            forall|k: int| start <= k < i ==> s@[k] != x,
        decreases end - i,
    {
        i = i + 1;
    }
    proof {
        let sub = s@.subrange(start as int, end as int);
        assert forall|k: int| 0 <= k < i - start implies sub[k] != x by {
            assert(sub[k] == s@[start + k]);
        }
        lemma_first_index_at(sub, x, i - start);
    }
    i
}

/// Whether `s[start..end]` begins with `p`.
pub fn has_prefix_in(s: &[u8], start: usize, end: usize, p: &[u8]) -> (b: bool)
    requires
        start <= end <= s@.len(),
    ensures
        b == has_prefix(s@.subrange(start as int, end as int), p@),
{
    let ghost sub = s@.subrange(start as int, end as int);
    if p.len() > end - start {
        return false;
    }
    let mut k: usize = 0;
    while k < p.len()
        invariant
            start <= end <= s@.len(),
            p@.len() <= end - start,
            sub == s@.subrange(start as int, end as int),
            k <= p@.len(),
            forall|j: int| 0 <= j < k ==> sub[j] == p@[j],
        decreases p@.len() - k,
    {
        if s[start + k] != p[k] {
            assert(sub[k as int] == s@[start + k]);
            assert(sub.take(p@.len() as int)[k as int] != p@[k as int]);
            return false;
        }
        k = k + 1;
    }
    assert(sub.take(p@.len() as int) =~= p@);
    true
}

/// Where `s[start..end]` begins once `p` has been removed from its front as
/// often as it occurs there.
pub fn strip_prefixes_in(s: &[u8], start: usize, end: usize, p: &[u8]) -> (c: usize)
    requires
        start <= end <= s@.len(),
    ensures
        start <= c <= end,
        s@.subrange(c as int, end as int) == strip_prefix_repeatedly(
            s@.subrange(start as int, end as int),
            p@,
        ),
{
    let mut c = start;
    if p.len() == 0 {
        return c;
    }
    while has_prefix_in(s, c, end, p)
        invariant
            start <= c <= end <= s@.len(),
            p@.len() > 0,
            strip_prefix_repeatedly(s@.subrange(start as int, end as int), p@)
                == strip_prefix_repeatedly(s@.subrange(c as int, end as int), p@),
        decreases end - c,
    {
        let ghost sub = s@.subrange(c as int, end as int);
        assert(sub.skip(p@.len() as int) =~= s@.subrange(c + p@.len(), end as int));
        c = c + p.len();
    }
    c
}

/// The bounds of `s[start..end]` once leading and trailing ASCII white space
/// is gone.
pub fn trim_ascii_in(s: &[u8], start: usize, end: usize) -> (bounds: (usize, usize))
    requires
        start <= end <= s@.len(),
    ensures
        start <= bounds.0 <= bounds.1 <= end,
        s@.subrange(bounds.0 as int, bounds.1 as int) == trim_ascii(
            s@.subrange(start as int, end as int),
        ),
{
    let ghost skip = |b: u8| is_ascii_space(b);
    let ghost sub = s@.subrange(start as int, end as int);
    let mut a = start;
    while a < end && is_space_byte(s[a])
        invariant
            start <= a <= end <= s@.len(),
            forall|k: int| start <= k < a ==> is_ascii_space(s@[k]),
        decreases end - a,
    {
        a = a + 1;
    }
    proof {
        assert forall|k: int| 0 <= k < a - start implies skip(#[trigger] sub[k]) by {
            assert(sub[k] == s@[start + k]);
        }
        lemma_trim_start_at(sub, skip, a - start);
        assert(sub.skip(a - start) =~= s@.subrange(a as int, end as int));
    }
    let mut b = end;
    while b > a && is_space_byte(s[b - 1])
        invariant
            start <= a <= b <= end <= s@.len(),
            forall|k: int| b <= k < end ==> is_ascii_space(s@[k]),
        decreases b - a,
    {
        b = b - 1;
    }
    proof {
        let t = s@.subrange(a as int, end as int);
        assert forall|k: int| b - a <= k < t.len() implies skip(#[trigger] t[k]) by {
            assert(t[k] == s@[a + k]);
        }
        if b > a {
            assert(t[b - a - 1] == s@[b - 1]);
        }
        lemma_trim_end_at(t, skip, b - a);
        assert(t.take(b - a) =~= s@.subrange(a as int, b as int));
    }
    (a, b)
}

fn is_space_byte(b: u8) -> (r: bool)
    ensures
        r == is_ascii_space(b),
{
    b == 9 || b == 10 || b == 11 || b == 12 || b == 13 || b == 32
}

/// The ranges of the pieces of `s[start..end]` between the occurrences of
/// `sep`, in order.
pub fn split_ranges(s: &[u8], start: usize, end: usize, sep: u8) -> (ranges: Vec<(usize, usize)>)
    requires
        start <= end <= s@.len(),
    ensures
        pieces_of(s@, ranges@) == split_on(s@.subrange(start as int, end as int), sep),
        forall|j: int|
            0 <= j < ranges@.len() ==> start <= (#[trigger] ranges@[j]).0 <= ranges@[j].1 <= end,
{
    let mut ranges: Vec<(usize, usize)> = Vec::new();
    let mut piece = start;
    let mut i = start;
    while i < end
        invariant
            start <= piece <= i <= end <= s@.len(),
            forall|k: int| piece <= k < i ==> s@[k] != sep,
            pieces_of(s@, ranges@) + split_on(s@.subrange(piece as int, end as int), sep)
                == split_on(s@.subrange(start as int, end as int), sep),
            forall|j: int|
                0 <= j < ranges@.len() ==> start <= (#[trigger] ranges@[j]).0 <= ranges@[j].1
                    <= end,
        decreases end - i,
    {
        if s[i] == sep {
            proof {
                let rest = s@.subrange(piece as int, end as int);
                assert forall|k: int| 0 <= k < i - piece implies rest[k] != sep by {
                    assert(rest[k] == s@[piece + k]);
                }
                lemma_split_step(rest, sep, i - piece);
                assert(rest.take(i - piece) =~= s@.subrange(piece as int, i as int));
                assert(rest.skip(i - piece + 1) =~= s@.subrange(i + 1, end as int));
            }
            let ghost before = ranges@;
            ranges.push((piece, i));
            proof {
                assert(pieces_of(s@, ranges@) =~= pieces_of(s@, before).push(
                    s@.subrange(piece as int, i as int),
                ));
                assert(pieces_of(s@, ranges@) + split_on(s@.subrange(i + 1, end as int), sep)
                    =~= pieces_of(s@, before) + split_on(
                    s@.subrange(piece as int, end as int),
                    sep,
                ));
            }
            piece = i + 1;
        }
        i = i + 1;
    }
    proof {
        let rest = s@.subrange(piece as int, end as int);
        assert forall|k: int| 0 <= k < rest.len() implies rest[k] != sep by {
            assert(rest[k] == s@[piece + k]);
        }
        lemma_split_last(rest, sep);
    }
    let ghost before = ranges@;
    ranges.push((piece, end));
    assert(pieces_of(s@, ranges@) =~= pieces_of(s@, before).push(
        s@.subrange(piece as int, end as int),
    ));
    ranges
}

/// A copy of `s[start..end]`.
pub fn copy_range(s: &[u8], start: usize, end: usize) -> (out: Vec<u8>)
    requires
        start <= end <= s@.len(),
    ensures
        out@ == s@.subrange(start as int, end as int),
{
    let mut out: Vec<u8> = Vec::new();
    let mut i = start;
    while i < end
        invariant
            start <= i <= end <= s@.len(),
            out@ == s@.subrange(start as int, i as int),
        decreases end - i,
    {
        out.push(s[i]);
        assert(out@ =~= s@.subrange(start as int, i + 1));
        i = i + 1;
    }
    out
}

/// The first position at which `needle` occurs in `hay`.
pub fn find_bytes(hay: &[u8], needle: &[u8]) -> (found: Option<usize>)
    ensures
        first_occurrence(hay@, needle@) == match found {
            Some(i) => Some(i as int),
            None => None::<int>,
        },
{
    if needle.len() > hay.len() {
        proof {
            assert forall|i: int| !is_first_occurrence(hay@, needle@, i) by {}
        }
        return None;
    }
    if needle.len() == 0 {
        proof {
            assert(hay@.subrange(0, 0) =~= needle@);
            assert(is_first_occurrence(hay@, needle@, 0));
            let j = choose|j: int| is_first_occurrence(hay@, needle@, j);
            if j > 0 {
                assert(hay@.subrange(0, 0) =~= needle@);
            }
        }
        return Some(0);
    }
    let last = hay.len() - needle.len();
    let mut i: usize = 0;
    while i <= last
        invariant
            last + needle@.len() == hay@.len(),
            needle@.len() > 0,
            hay@.len() <= usize::MAX,
            i <= last + 1,
            forall|k: int|
                0 <= k < i ==> #[trigger] hay@.subrange(k, k + needle@.len()) != needle@,
        decreases last + 1 - i,
    {
        let matched = has_prefix_in(hay, i, hay.len(), needle);
        if matched {
            proof {
                let sub = hay@.subrange(i as int, hay@.len() as int);
                assert(sub.take(needle@.len() as int) =~= hay@.subrange(
                    i as int,
                    i + needle@.len(),
                ));
                assert(is_first_occurrence(hay@, needle@, i as int));
                let j = choose|j: int| is_first_occurrence(hay@, needle@, j);
                if j < i {
                } else if j > i {
                    assert(hay@.subrange(i as int, i + needle@.len()) != needle@);
                }
            }
            return Some(i);
        }
        proof {
            let sub = hay@.subrange(i as int, hay@.len() as int);
            assert(sub.take(needle@.len() as int) =~= hay@.subrange(
                i as int,
                i + needle@.len(),
            ));
        }
        i = i + 1;
    }
    proof {
        assert forall|j: int| !is_first_occurrence(hay@, needle@, j) by {
            if is_first_occurrence(hay@, needle@, j) {
                assert(hay@.subrange(j, j + needle@.len()) == needle@);
            }
        }
    }
    None
}

} // verus!

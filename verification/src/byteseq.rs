//! The mathematical model of the byte-level edits: spec functions describing
//! windows, overwrites, structural edits and diff positions, with the laws
//! that relate them.
use vstd::prelude::*;

verus! {

/// `s` with the window starting at `at` replaced by `w`.
pub open spec fn overwrite(s: Seq<u8>, at: int, w: Seq<u8>) -> Seq<u8>
    recommends
        0 <= at,
        at + w.len() <= s.len(),
{
    Seq::new(s.len(), |i: int| if at <= i < at + w.len() { w[i - at] } else { s[i] })
}

/// `n` copies of `val`.
pub open spec fn repeated(val: u8, n: nat) -> Seq<u8> {
    Seq::new(n, |i: int| val)
}

/// `s` with the span `[off, off + n)` removed.
pub open spec fn delete_at(s: Seq<u8>, off: int, n: int) -> Seq<u8>
    recommends
        0 <= off,
        0 <= n,
        off + n <= s.len(),
{
    s.subrange(0, off) + s.subrange(off + n, s.len() as int)
}

/// `s` grown by `n` bytes at `off`: the suffix from `off` is shifted right,
/// and the gap keeps whatever the grow operation left there — the old bytes
/// that used to sit in `[off, off + n)`, zero-padded past the old end.
pub open spec fn expand_at(s: Seq<u8>, off: int, n: int) -> Seq<u8>
    recommends
        0 <= off <= s.len(),
        0 <= n,
{
    s.subrange(0, off) + Seq::new(n as nat, |j: int| if off + j < s.len() { s[off + j] } else { 0u8 })
        + s.subrange(off, s.len() as int)
}

/// `s` with `n` copies of `val` inserted at `off`.
pub open spec fn insert_at(s: Seq<u8>, off: int, n: int, val: u8) -> Seq<u8>
    recommends
        0 <= off <= s.len(),
        0 <= n,
{
    s.subrange(0, off) + repeated(val, n as nat) + s.subrange(off, s.len() as int)
}

/// The two spans `[a, a + n)` and `[b, b + n)` exchanged, through a temporary
/// copy of the first span: first `[a, a + n)` takes the bytes of `[b, b + n)`,
/// then `[b, b + n)` takes the original bytes of `[a, a + n)`.
pub open spec fn swap_spans(s: Seq<u8>, a: int, b: int, n: int) -> Seq<u8>
    recommends
        0 <= a,
        a + n <= s.len(),
        0 <= b,
        b + n <= s.len(),
{
    overwrite(overwrite(s, a, s.subrange(b, b + n)), b, s.subrange(a, a + n))
}

/// Swapping the same two spans twice restores the original content when the
/// spans do not overlap.
pub proof fn lemma_swap_spans_roundtrip(s: Seq<u8>, a: int, b: int, n: int)
    requires
        0 <= a,
        a + n <= s.len(),
        0 <= b,
        b + n <= s.len(),
        0 <= n,
        a + n <= b || b + n <= a,
    ensures
        swap_spans(swap_spans(s, a, b, n), a, b, n) == s,
{
    let s1 = swap_spans(s, a, b, n);
    assert(s1.subrange(b, b + n) =~= s.subrange(a, a + n));
    assert(s1.subrange(a, a + n) =~= s.subrange(b, b + n));
    assert(swap_spans(s1, a, b, n) =~= s);
}

/// The number of byte positions the diff scan looks at: the length of the
/// shorter of the two sequences.
pub open spec fn min_len(a: Seq<u8>, b: Seq<u8>) -> int {
    if a.len() <= b.len() {
        a.len() as int
    } else {
        b.len() as int
    }
}

/// `f` is the first position, within the scanned prefix, where `a` and `b`
/// differ.
pub open spec fn is_first_diff(a: Seq<u8>, b: Seq<u8>, f: int) -> bool {
    &&& 0 <= f < min_len(a, b)
    &&& a[f] != b[f]
    &&& forall|i: int| 0 <= i < f ==> a[i] == b[i]
}

/// `l` is the last position, within the scanned prefix, where `a` and `b`
/// differ.
pub open spec fn is_last_diff(a: Seq<u8>, b: Seq<u8>, l: int) -> bool {
    &&& 0 <= l < min_len(a, b)
    &&& a[l] != b[l]
    &&& forall|i: int| l < i < min_len(a, b) ==> a[i] == b[i]
}

/// The diff span between `a` and `b` is usable for splicing: first and last
/// diff positions exist, are distinct, and the last one is at least 2.
pub open spec fn splice_usable(a: Seq<u8>, b: Seq<u8>) -> bool {
    exists|f: int, l: int|
        is_first_diff(a, b, f) && is_last_diff(a, b, l) && f != l && l >= 2
}

/// `post` is `a` with everything from `split` onward replaced by `b`'s bytes
/// from `split` onward, the split point lying inside the diff span of `a`
/// and `b`.
pub open spec fn splice_applied(a: Seq<u8>, b: Seq<u8>, post: Seq<u8>, split: int) -> bool {
    &&& exists|f: int, l: int|
        is_first_diff(a, b, f) && is_last_diff(a, b, l) && f != l && l >= 2 && f <= split <= l
    &&& post == a.subrange(0, split) + b.subrange(split, b.len() as int)
}

/// The first diff position is unique.
pub proof fn lemma_first_diff_unique(a: Seq<u8>, b: Seq<u8>, x: int, y: int)
    requires
        is_first_diff(a, b, x),
        is_first_diff(a, b, y),
    ensures
        x == y,
{
}

/// The last diff position is unique.
pub proof fn lemma_last_diff_unique(a: Seq<u8>, b: Seq<u8>, x: int, y: int)
    requires
        is_last_diff(a, b, x),
        is_last_diff(a, b, y),
    ensures
        x == y,
{
}

/// The 2-byte little-endian integer at `i`.
pub open spec fn word_le(s: Seq<u8>, i: int) -> int
    recommends
        0 <= i,
        i + 2 <= s.len(),
{
    s[i] + 0x100 * s[i + 1]
}

/// The 2-byte big-endian integer at `i`.
pub open spec fn word_be(s: Seq<u8>, i: int) -> int
    recommends
        0 <= i,
        i + 2 <= s.len(),
{
    s[i + 1] + 0x100 * s[i]
}

/// The 4-byte little-endian integer at `i`.
pub open spec fn dword_le(s: Seq<u8>, i: int) -> int
    recommends
        0 <= i,
        i + 4 <= s.len(),
{
    s[i] + 0x100 * s[i + 1] + 0x10000 * s[i + 2] + 0x1000000 * s[i + 3]
}

/// The 4-byte big-endian integer at `i`.
pub open spec fn dword_be(s: Seq<u8>, i: int) -> int
    recommends
        0 <= i,
        i + 4 <= s.len(),
{
    s[i + 3] + 0x100 * s[i + 2] + 0x10000 * s[i + 1] + 0x1000000 * s[i]
}

/// The 8-byte little-endian integer at `i`.
pub open spec fn qword_le(s: Seq<u8>, i: int) -> int
    recommends
        0 <= i,
        i + 8 <= s.len(),
{
    s[i] + 0x100 * s[i + 1] + 0x10000 * s[i + 2] + 0x1000000 * s[i + 3] + 0x100000000 * s[i + 4]
        + 0x10000000000 * s[i + 5] + 0x1000000000000 * s[i + 6] + 0x100000000000000 * s[i + 7]
}

/// The 8-byte big-endian integer at `i`.
pub open spec fn qword_be(s: Seq<u8>, i: int) -> int
    recommends
        0 <= i,
        i + 8 <= s.len(),
{
    s[i + 7] + 0x100 * s[i + 6] + 0x10000 * s[i + 5] + 0x1000000 * s[i + 4] + 0x100000000 * s[i + 3]
        + 0x10000000000 * s[i + 2] + 0x1000000000000 * s[i + 1] + 0x100000000000000 * s[i]
}

/// The span `[start, start + n)` was overwritten with `n` copies of `val`.
pub open spec fn span_set_applied(pre: Seq<u8>, post: Seq<u8>, start: int, n: int, val: u8) -> bool {
    post == overwrite(pre, start, repeated(val, n as nat))
}

/// The span `[to, to + n)` was overwritten with the original bytes of
/// `[from, from + n)`.
pub open spec fn span_copy_applied(pre: Seq<u8>, post: Seq<u8>, from: int, to: int, n: int) -> bool {
    post == overwrite(pre, to, pre.subrange(from, from + n))
}

/// The byte at `i` had `delta` added or subtracted, with wraparound; nothing
/// else moved.
pub open spec fn byte_delta_applied(pre: Seq<u8>, post: Seq<u8>, i: int, delta: int) -> bool {
    ||| post == pre.update(i, (((pre[i] + delta) % 256) as u8))
    ||| post == pre.update(i, (((pre[i] - delta) % 256) as u8))
}

/// The 2-byte window at `i` had `delta` added or subtracted, with wraparound,
/// in little- or big-endian orientation; bytes outside the window kept.
pub open spec fn word_delta_applied(pre: Seq<u8>, post: Seq<u8>, i: int, delta: int) -> bool {
    &&& post.len() == pre.len()
    &&& forall|j: int| 0 <= j < pre.len() && !(i <= j < i + 2) ==> post[j] == pre[j]
    &&& {
        ||| word_le(post, i) == (word_le(pre, i) + delta) % 0x10000
        ||| word_le(post, i) == (word_le(pre, i) - delta) % 0x10000
        ||| word_be(post, i) == (word_be(pre, i) + delta) % 0x10000
        ||| word_be(post, i) == (word_be(pre, i) - delta) % 0x10000
    }
}

/// The 4-byte window at `i` had `delta` added or subtracted, with wraparound,
/// in little- or big-endian orientation; bytes outside the window kept.
pub open spec fn dword_delta_applied(pre: Seq<u8>, post: Seq<u8>, i: int, delta: int) -> bool {
    &&& post.len() == pre.len()
    &&& forall|j: int| 0 <= j < pre.len() && !(i <= j < i + 4) ==> post[j] == pre[j]
    &&& {
        ||| dword_le(post, i) == (dword_le(pre, i) + delta) % 0x100000000
        ||| dword_le(post, i) == (dword_le(pre, i) - delta) % 0x100000000
        ||| dword_be(post, i) == (dword_be(pre, i) + delta) % 0x100000000
        ||| dword_be(post, i) == (dword_be(pre, i) - delta) % 0x100000000
    }
}

/// The 8-byte window at `i` had `delta` added or subtracted, with wraparound,
/// in little- or big-endian orientation; bytes outside the window kept.
pub open spec fn qword_delta_applied(pre: Seq<u8>, post: Seq<u8>, i: int, delta: int) -> bool {
    &&& post.len() == pre.len()
    &&& forall|j: int| 0 <= j < pre.len() && !(i <= j < i + 8) ==> post[j] == pre[j]
    &&& {
        ||| qword_le(post, i) == (qword_le(pre, i) + delta) % 0x10000000000000000
        ||| qword_le(post, i) == (qword_le(pre, i) - delta) % 0x10000000000000000
        ||| qword_be(post, i) == (qword_be(pre, i) + delta) % 0x10000000000000000
        ||| qword_be(post, i) == (qword_be(pre, i) - delta) % 0x10000000000000000
    }
}

} // verus!

//! The mutation operators: randomized byte-level transformations of one
//! input, all sharing the uniform call shape
//! `(mutator, random source, corpus, input) -> Result<MutationResult, AflError>`.
use vstd::prelude::*;

use crate::byteseq::{
    byte_delta_applied, delete_at, dword_be, dword_delta_applied, dword_le, expand_at, insert_at,
    is_first_diff, is_last_diff, min_len, overwrite, qword_be, qword_delta_applied, qword_le,
    repeated, span_copy_applied, span_set_applied, splice_applied, splice_usable, swap_spans,
    word_be, word_delta_applied, word_le,
};
use crate::byteseq::{lemma_first_diff_unique, lemma_last_diff_unique};
use crate::corpus::InMemoryCorpus;
use crate::inputs::BytesInput;
use crate::rand::Rand;
use crate::AflError;

verus! {

/// The outcome of one mutation call: either the input was changed, or no
/// change was possible (for example because the input was too short).
/// `Skipped` is an expected, recoverable outcome, never an error.
#[derive(Clone, Copy, Debug, PartialEq, Eq, Structural)]
pub enum MutationResult {
    Mutated,
    Skipped,
}

/// The result every operator hands back when it made no change.
pub open spec fn skipped() -> Result<MutationResult, AflError> {
    Ok(MutationResult::Skipped)
}

/// The result every operator hands back when it changed the input.
pub open spec fn mutated() -> Result<MutationResult, AflError> {
    Ok(MutationResult::Mutated)
}

/// The inclusive upper bound on the random delta used by the
/// arithmetic-width operators.
pub const ARITH_MAX: u64 = 35;

/// A mutator exposes at least a configured maximum size, used by the
/// length-growing operators to cap how much an input may expand in one step.
pub trait HasMaxSize {
    spec fn spec_max_size(&self) -> u64;

    fn max_size(&self) -> (r: u64)
        ensures
            r == self.spec_max_size(),
    ;
}

/// A copy of `data[from..from + len]` as a fresh vector.
fn copy_range(data: &Vec<u8>, from: usize, len: usize) -> (r: Vec<u8>)
    requires
        from + len <= data.len(),
    ensures
        r@ == data@.subrange(from as int, from + len),
{
    let mut out: Vec<u8> = Vec::new();
    let mut i: usize = 0;
    while i < len
        invariant
            i <= len,
            from + len <= data.len(),
            out@ == data@.subrange(from as int, from + i),
        decreases len - i,
    {
        out.push(data[from + i]);
        proof {
            assert(out@ =~= data@.subrange(from as int, from + i + 1));
        }
        i = i + 1;
    }
    out
}

/// Copies `len` bytes starting at `from` to start at `to` within one buffer,
/// handling overlap like a memmove.
fn self_mem_move(data: &mut Vec<u8>, from: usize, to: usize, len: usize)
    requires
        from + len <= old(data).len(),
        to + len <= old(data).len(),
    ensures
        final(data)@ == overwrite(old(data)@, to as int, old(data)@.subrange(from as int, from + len)),
{
    let tmp = copy_range(data, from, len);
    mem_move(data, &tmp, 0, to, len);
    proof {
        assert(tmp@.subrange(0, len as int) =~= tmp@);
    }
}

/// Copies `len` bytes from `src[from..]` over `dst[to..]`.
fn mem_move(dst: &mut Vec<u8>, src: &Vec<u8>, from: usize, to: usize, len: usize)
    requires
        from + len <= src.len(),
        to + len <= old(dst).len(),
    ensures
        final(dst)@ == overwrite(old(dst)@, to as int, src@.subrange(from as int, from + len)),
{
    let mut i: usize = 0;
    while i < len
        invariant
            i <= len,
            from + len <= src.len(),
            to + len <= dst.len(),
            dst.len() == old(dst).len(),
            forall|j: int| 0 <= j < dst@.len() && !(to <= j < to + i) ==> dst@[j] == old(dst)@[j],
            forall|j: int| to <= j < to + i ==> dst@[j] == src@[from + (j - to)],
        decreases len - i,
    {
        let v = src[from + i];
        dst[to + i] = v;
        i = i + 1;
    }
    proof {
        assert(dst@ =~= overwrite(old(dst)@, to as int, src@.subrange(from as int, from + len)));
    }
}

/// Writes `val` into `len` consecutive bytes starting at `from`.
fn mem_set(data: &mut Vec<u8>, from: usize, len: usize, val: u8)
    requires
        from + len <= old(data).len(),
    ensures
        final(data)@ == overwrite(old(data)@, from as int, repeated(val, len as nat)),
{
    let mut i: usize = 0;
    while i < len
        invariant
            i <= len,
            from + len <= data.len(),
            data.len() == old(data).len(),
            forall|j: int| 0 <= j < data@.len() && !(from <= j < from + i) ==> data@[j] == old(data)@[j],
            forall|j: int| from <= j < from + i ==> data@[j] == val,
        decreases len - i,
    {
        data[from + i] = val;
        i = i + 1;
    }
    proof {
        assert(data@ =~= overwrite(old(data)@, from as int, repeated(val, len as nat)));
    }
}

/// `v + 1` with native wraparound.
pub open spec fn byte_inc(v: u8) -> u8 {
    (((v as int) + 1) % 256) as u8
}

/// `v - 1` with native wraparound.
pub open spec fn byte_dec(v: u8) -> u8 {
    (((v as int) - 1) % 256) as u8
}

/// Flips one uniformly random bit of the buffer, drawn as a random byte
/// index plus a random bit offset within that byte.
pub fn mutation_bitflip<M, R: Rand>(
    _mutator: &mut M,
    rand: &mut R,
    _corpus: &InMemoryCorpus,
    input: &mut BytesInput,
) -> (r: Result<MutationResult, AflError>)
    ensures
        old(input)@.len() == 0 ==> r == skipped() && final(input)@ == old(input)@,
        old(input)@.len() > 0 ==> r == mutated() && exists|i: int, b: u8|
            0 <= i < old(input)@.len() && b < 8
                && final(input)@ == old(input)@.update(i, old(input)@[i] ^ (128u8 >> b))
                && final(input)@[i] != old(input)@[i],
{
    let size = input.bytes.len();
    if size == 0 {
        return Ok(MutationResult::Skipped);
    }
    let idx = rand.below(size as u64) as usize;
    let bit = rand.below(8) as u8;
    let mask: u8 = 128u8 >> bit;
    let v = input.bytes[idx];
    input.bytes[idx] = v ^ mask;
    proof {
        assert((v ^ (128u8 >> bit)) != v) by (bit_vector)
            requires
                bit < 8,
        ;
        assert(input@ == old(input)@.update(idx as int, old(input)@[idx as int] ^ (128u8 >> bit)));
    }
    Ok(MutationResult::Mutated)
}

/// XORs one uniformly random byte with `0xff`.
pub fn mutation_byteflip<M, R: Rand>(
    _mutator: &mut M,
    rand: &mut R,
    _corpus: &InMemoryCorpus,
    input: &mut BytesInput,
) -> (r: Result<MutationResult, AflError>)
    ensures
        old(input)@.len() == 0 ==> r == skipped() && final(input)@ == old(input)@,
        old(input)@.len() > 0 ==> r == mutated() && exists|i: int|
            0 <= i < old(input)@.len()
                && final(input)@ == old(input)@.update(i, old(input)@[i] ^ 0xff)
                && final(input)@[i] != old(input)@[i],
{
    let size = input.bytes.len();
    if size == 0 {
        return Ok(MutationResult::Skipped);
    }
    let idx = rand.below(size as u64) as usize;
    let v = input.bytes[idx];
    input.bytes[idx] = v ^ 0xff;
    proof {
        assert((v ^ 0xffu8) != v) by (bit_vector);
        assert(input@ == old(input)@.update(idx as int, old(input)@[idx as int] ^ 0xff));
    }
    Ok(MutationResult::Mutated)
}

/// Adds 1, with wraparound, to one uniformly random byte.
pub fn mutation_byteinc<M, R: Rand>(
    _mutator: &mut M,
    rand: &mut R,
    _corpus: &InMemoryCorpus,
    input: &mut BytesInput,
) -> (r: Result<MutationResult, AflError>)
    ensures
        old(input)@.len() == 0 ==> r == skipped() && final(input)@ == old(input)@,
        old(input)@.len() > 0 ==> r == mutated() && exists|i: int|
            0 <= i < old(input)@.len()
                && final(input)@ == old(input)@.update(i, byte_inc(old(input)@[i]))
                && final(input)@[i] != old(input)@[i],
{
    let size = input.bytes.len();
    if size == 0 {
        return Ok(MutationResult::Skipped);
    }
    let idx = rand.below(size as u64) as usize;
    let v = input.bytes[idx];
    let nv: u8 = if v == 255 { 0 } else { v + 1 };
    input.bytes[idx] = nv;
    proof {
        assert(nv == byte_inc(v));
        assert(input@ == old(input)@.update(idx as int, byte_inc(old(input)@[idx as int])));
    }
    Ok(MutationResult::Mutated)
}

/// Subtracts 1, with wraparound, from one uniformly random byte.
pub fn mutation_bytedec<M, R: Rand>(
    _mutator: &mut M,
    rand: &mut R,
    _corpus: &InMemoryCorpus,
    input: &mut BytesInput,
) -> (r: Result<MutationResult, AflError>)
    ensures
        old(input)@.len() == 0 ==> r == skipped() && final(input)@ == old(input)@,
        old(input)@.len() > 0 ==> r == mutated() && exists|i: int|
            0 <= i < old(input)@.len()
                && final(input)@ == old(input)@.update(i, byte_dec(old(input)@[i]))
                && final(input)@[i] != old(input)@[i],
{
    let size = input.bytes.len();
    if size == 0 {
        return Ok(MutationResult::Skipped);
    }
    let idx = rand.below(size as u64) as usize;
    let v = input.bytes[idx];
    let nv: u8 = if v == 0 { 255 } else { v - 1 };
    input.bytes[idx] = nv;
    proof {
        assert(nv == byte_dec(v));
        assert(input@ == old(input)@.update(idx as int, byte_dec(old(input)@[idx as int])));
    }
    Ok(MutationResult::Mutated)
}

/// Replaces one uniformly random byte with its bitwise complement.
pub fn mutation_byteneg<M, R: Rand>(
    _mutator: &mut M,
    rand: &mut R,
    _corpus: &InMemoryCorpus,
    input: &mut BytesInput,
) -> (r: Result<MutationResult, AflError>)
    ensures
        old(input)@.len() == 0 ==> r == skipped() && final(input)@ == old(input)@,
        old(input)@.len() > 0 ==> r == mutated() && exists|i: int|
            0 <= i < old(input)@.len()
                && final(input)@ == old(input)@.update(i, !old(input)@[i])
                && final(input)@[i] != old(input)@[i],
{
    let size = input.bytes.len();
    if size == 0 {
        return Ok(MutationResult::Skipped);
    }
    let idx = rand.below(size as u64) as usize;
    let v = input.bytes[idx];
    input.bytes[idx] = !v;
    proof {
        assert((!v) != v) by (bit_vector);
        assert(input@ == old(input)@.update(idx as int, !old(input)@[idx as int]));
    }
    Ok(MutationResult::Mutated)
}

/// Overwrites one uniformly random byte with a uniformly random value. The
/// drawn value may coincide with the old one, so at most one byte changes.
pub fn mutation_byterand<M, R: Rand>(
    _mutator: &mut M,
    rand: &mut R,
    _corpus: &InMemoryCorpus,
    input: &mut BytesInput,
) -> (r: Result<MutationResult, AflError>)
    ensures
        old(input)@.len() == 0 ==> r == skipped() && final(input)@ == old(input)@,
        old(input)@.len() > 0 ==> r == mutated() && exists|i: int|
            0 <= i < old(input)@.len() && final(input)@ == old(input)@.update(
                i,
                final(input)@[i],
            ),
{
    let size = input.bytes.len();
    if size == 0 {
        return Ok(MutationResult::Skipped);
    }
    let idx = rand.below(size as u64) as usize;
    let nv = rand.below(256) as u8;
    input.bytes[idx] = nv;
    proof {
        assert(input@ == old(input)@.update(idx as int, input@[idx as int]));
    }
    Ok(MutationResult::Mutated)
}

/// `(v + delta) % m`, for a modulus up to `2^32`.
fn wrap_add(v: u64, delta: u64, m: u64) -> (r: u64)
    requires
        v < m,
        delta <= m,
        m <= 0x100000000,
    ensures
        r == ((v as int) + delta) % (m as int),
        r < m,
{
    let x = (v + delta) % m;
    proof {
        vstd::arithmetic::div_mod::lemma_mod_bound((v + delta) as int, m as int);
    }
    x
}

/// `(v - delta) % m` with wraparound, for a modulus up to `2^32`.
fn wrap_sub(v: u64, delta: u64, m: u64) -> (r: u64)
    requires
        v < m,
        1 <= delta <= m,
        m <= 0x100000000,
    ensures
        r == ((v as int) - delta) % (m as int),
        r < m,
{
    let x = (v + m - delta) % m;
    proof {
        vstd::arithmetic::div_mod::lemma_mod_add_multiples_vanish((v as int) - delta, m as int);
        vstd::arithmetic::div_mod::lemma_mod_bound((v as int) - delta, m as int);
    }
    x
}

/// `(v + delta) % 2^64`.
fn qword_wrap_add(v: u64, delta: u64) -> (r: u64)
    ensures
        r == ((v as int) + delta) % 0x10000000000000000,
{
    if delta <= u64::MAX - v {
        let s = v + delta;
        proof {
            vstd::arithmetic::div_mod::lemma_small_mod((v + delta) as nat, 0x10000000000000000nat);
        }
        s
    } else {
        let s = v - (u64::MAX - delta) - 1;
        proof {
            vstd::arithmetic::div_mod::lemma_mod_add_multiples_vanish(s as int, 0x10000000000000000);
            vstd::arithmetic::div_mod::lemma_small_mod(s as nat, 0x10000000000000000nat);
        }
        s
    }
}

/// `(v - delta) % 2^64` with wraparound.
fn qword_wrap_sub(v: u64, delta: u64) -> (r: u64)
    ensures
        r == ((v as int) - delta) % 0x10000000000000000,
{
    if v >= delta {
        let s = v - delta;
        proof {
            vstd::arithmetic::div_mod::lemma_small_mod((v - delta) as nat, 0x10000000000000000nat);
        }
        s
    } else {
        let s = v + (u64::MAX - delta) + 1;
        proof {
            vstd::arithmetic::div_mod::lemma_mod_add_multiples_vanish((v as int) - delta, 0x10000000000000000);
            vstd::arithmetic::div_mod::lemma_small_mod(s as nat, 0x10000000000000000nat);
        }
        s
    }
}

fn read_word_le(data: &Vec<u8>, i: usize) -> (r: u64)
    requires
        i + 2 <= data.len(),
    ensures
        r == word_le(data@, i as int),
        r < 0x10000,
{
    data[i] as u64 + 0x100 * (data[i + 1] as u64)
}

fn read_word_be(data: &Vec<u8>, i: usize) -> (r: u64)
    requires
        i + 2 <= data.len(),
    ensures
        r == word_be(data@, i as int),
        r < 0x10000,
{
    data[i + 1] as u64 + 0x100 * (data[i] as u64)
}

fn read_dword_le(data: &Vec<u8>, i: usize) -> (r: u64)
    requires
        i + 4 <= data.len(),
    ensures
        r == dword_le(data@, i as int),
        r < 0x100000000,
{
    data[i] as u64 + 0x100 * (data[i + 1] as u64) + 0x10000 * (data[i + 2] as u64) + 0x1000000 * (
    data[i + 3] as u64)
}

fn read_dword_be(data: &Vec<u8>, i: usize) -> (r: u64)
    requires
        i + 4 <= data.len(),
    ensures
        r == dword_be(data@, i as int),
        r < 0x100000000,
{
    data[i + 3] as u64 + 0x100 * (data[i + 2] as u64) + 0x10000 * (data[i + 1] as u64) + 0x1000000
        * (data[i] as u64)
}

fn read_qword_le(data: &Vec<u8>, i: usize) -> (r: u64)
    requires
        i + 8 <= data.len(),
    ensures
        r == qword_le(data@, i as int),
{
    data[i] as u64 + 0x100 * (data[i + 1] as u64) + 0x10000 * (data[i + 2] as u64) + 0x1000000 * (
    data[i + 3] as u64) + 0x100000000 * (data[i + 4] as u64) + 0x10000000000 * (data[i + 5] as u64)
        + 0x1000000000000 * (data[i + 6] as u64) + 0x100000000000000 * (data[i + 7] as u64)
}

fn read_qword_be(data: &Vec<u8>, i: usize) -> (r: u64)
    requires
        i + 8 <= data.len(),
    ensures
        r == qword_be(data@, i as int),
{
    data[i + 7] as u64 + 0x100 * (data[i + 6] as u64) + 0x10000 * (data[i + 5] as u64) + 0x1000000
        * (data[i + 4] as u64) + 0x100000000 * (data[i + 3] as u64) + 0x10000000000 * (
    data[i + 2] as u64) + 0x1000000000000 * (data[i + 1] as u64) + 0x100000000000000 * (
    data[i] as u64)
}

fn write_word_le(data: &mut Vec<u8>, i: usize, v: u64)
    requires
        i + 2 <= old(data).len(),
        v < 0x10000,
    ensures
        final(data)@.len() == old(data)@.len(),
        word_le(final(data)@, i as int) == v,
        forall|j: int|
            0 <= j < old(data)@.len() && !(i <= j < i + 2) ==> final(data)@[j] == old(data)@[j],
{
    proof {
        vstd::arithmetic::div_mod::lemma_fundamental_div_mod(v as int, 0x100);
        vstd::arithmetic::div_mod::lemma_mod_bound(v as int, 0x100);
    }
    let b0 = (v % 0x100) as u8;
    let b1 = (v / 0x100) as u8;
    data[i] = b0;
    data[i + 1] = b1;
}

fn write_word_be(data: &mut Vec<u8>, i: usize, v: u64)
    requires
        i + 2 <= old(data).len(),
        v < 0x10000,
    ensures
        final(data)@.len() == old(data)@.len(),
        word_be(final(data)@, i as int) == v,
        forall|j: int|
            0 <= j < old(data)@.len() && !(i <= j < i + 2) ==> final(data)@[j] == old(data)@[j],
{
    proof {
        vstd::arithmetic::div_mod::lemma_fundamental_div_mod(v as int, 0x100);
        vstd::arithmetic::div_mod::lemma_mod_bound(v as int, 0x100);
    }
    let b0 = (v % 0x100) as u8;
    let b1 = (v / 0x100) as u8;
    data[i + 1] = b0;
    data[i] = b1;
}

fn write_dword_le(data: &mut Vec<u8>, i: usize, v: u64)
    requires
        i + 4 <= old(data).len(),
        v < 0x100000000,
    ensures
        final(data)@.len() == old(data)@.len(),
        dword_le(final(data)@, i as int) == v,
        forall|j: int|
            0 <= j < old(data)@.len() && !(i <= j < i + 4) ==> final(data)@[j] == old(data)@[j],
{
    let r1 = v / 0x100;
    let r2 = r1 / 0x100;
    proof {
        vstd::arithmetic::div_mod::lemma_fundamental_div_mod(v as int, 0x100);
        vstd::arithmetic::div_mod::lemma_mod_bound(v as int, 0x100);
        vstd::arithmetic::div_mod::lemma_fundamental_div_mod(r1 as int, 0x100);
        vstd::arithmetic::div_mod::lemma_mod_bound(r1 as int, 0x100);
        vstd::arithmetic::div_mod::lemma_fundamental_div_mod(r2 as int, 0x100);
        vstd::arithmetic::div_mod::lemma_mod_bound(r2 as int, 0x100);
    }
    let b0 = (v % 0x100) as u8;
    let b1 = (r1 % 0x100) as u8;
    let b2 = (r2 % 0x100) as u8;
    let b3 = (r2 / 0x100) as u8;
    data[i] = b0;
    data[i + 1] = b1;
    data[i + 2] = b2;
    data[i + 3] = b3;
}

fn write_dword_be(data: &mut Vec<u8>, i: usize, v: u64)
    requires
        i + 4 <= old(data).len(),
        v < 0x100000000,
    ensures
        final(data)@.len() == old(data)@.len(),
        dword_be(final(data)@, i as int) == v,
        forall|j: int|
            0 <= j < old(data)@.len() && !(i <= j < i + 4) ==> final(data)@[j] == old(data)@[j],
{
    let r1 = v / 0x100;
    let r2 = r1 / 0x100;
    proof {
        vstd::arithmetic::div_mod::lemma_fundamental_div_mod(v as int, 0x100);
        vstd::arithmetic::div_mod::lemma_mod_bound(v as int, 0x100);
        vstd::arithmetic::div_mod::lemma_fundamental_div_mod(r1 as int, 0x100);
        vstd::arithmetic::div_mod::lemma_mod_bound(r1 as int, 0x100);
        vstd::arithmetic::div_mod::lemma_fundamental_div_mod(r2 as int, 0x100);
        vstd::arithmetic::div_mod::lemma_mod_bound(r2 as int, 0x100);
    }
    let b0 = (v % 0x100) as u8;
    let b1 = (r1 % 0x100) as u8;
    let b2 = (r2 % 0x100) as u8;
    let b3 = (r2 / 0x100) as u8;
    data[i + 3] = b0;
    data[i + 2] = b1;
    data[i + 1] = b2;
    data[i] = b3;
}

fn write_qword_le(data: &mut Vec<u8>, i: usize, v: u64)
    requires
        i + 8 <= old(data).len(),
    ensures
        final(data)@.len() == old(data)@.len(),
        qword_le(final(data)@, i as int) == v,
        forall|j: int|
            0 <= j < old(data)@.len() && !(i <= j < i + 8) ==> final(data)@[j] == old(data)@[j],
{
    let r1 = v / 0x100;
    let r2 = r1 / 0x100;
    let r3 = r2 / 0x100;
    let r4 = r3 / 0x100;
    let r5 = r4 / 0x100;
    let r6 = r5 / 0x100;
    proof {
        vstd::arithmetic::div_mod::lemma_fundamental_div_mod(v as int, 0x100);
        vstd::arithmetic::div_mod::lemma_mod_bound(v as int, 0x100);
        vstd::arithmetic::div_mod::lemma_fundamental_div_mod(r1 as int, 0x100);
        vstd::arithmetic::div_mod::lemma_mod_bound(r1 as int, 0x100);
        vstd::arithmetic::div_mod::lemma_fundamental_div_mod(r2 as int, 0x100);
        vstd::arithmetic::div_mod::lemma_mod_bound(r2 as int, 0x100);
        vstd::arithmetic::div_mod::lemma_fundamental_div_mod(r3 as int, 0x100);
        vstd::arithmetic::div_mod::lemma_mod_bound(r3 as int, 0x100);
        vstd::arithmetic::div_mod::lemma_fundamental_div_mod(r4 as int, 0x100);
        vstd::arithmetic::div_mod::lemma_mod_bound(r4 as int, 0x100);
        vstd::arithmetic::div_mod::lemma_fundamental_div_mod(r5 as int, 0x100);
        vstd::arithmetic::div_mod::lemma_mod_bound(r5 as int, 0x100);
        vstd::arithmetic::div_mod::lemma_fundamental_div_mod(r6 as int, 0x100);
        vstd::arithmetic::div_mod::lemma_mod_bound(r6 as int, 0x100);
    }
    data[i] = (v % 0x100) as u8;
    data[i + 1] = (r1 % 0x100) as u8;
    data[i + 2] = (r2 % 0x100) as u8;
    data[i + 3] = (r3 % 0x100) as u8;
    data[i + 4] = (r4 % 0x100) as u8;
    data[i + 5] = (r5 % 0x100) as u8;
    data[i + 6] = (r6 % 0x100) as u8;
    data[i + 7] = (r6 / 0x100) as u8;
}

fn write_qword_be(data: &mut Vec<u8>, i: usize, v: u64)
    requires
        i + 8 <= old(data).len(),
    ensures
        final(data)@.len() == old(data)@.len(),
        qword_be(final(data)@, i as int) == v,
        forall|j: int|
            0 <= j < old(data)@.len() && !(i <= j < i + 8) ==> final(data)@[j] == old(data)@[j],
{
    let r1 = v / 0x100;
    let r2 = r1 / 0x100;
    let r3 = r2 / 0x100;
    let r4 = r3 / 0x100;
    let r5 = r4 / 0x100;
    let r6 = r5 / 0x100;
    proof {
        vstd::arithmetic::div_mod::lemma_fundamental_div_mod(v as int, 0x100);
        vstd::arithmetic::div_mod::lemma_mod_bound(v as int, 0x100);
        vstd::arithmetic::div_mod::lemma_fundamental_div_mod(r1 as int, 0x100);
        vstd::arithmetic::div_mod::lemma_mod_bound(r1 as int, 0x100);
        vstd::arithmetic::div_mod::lemma_fundamental_div_mod(r2 as int, 0x100);
        vstd::arithmetic::div_mod::lemma_mod_bound(r2 as int, 0x100);
        vstd::arithmetic::div_mod::lemma_fundamental_div_mod(r3 as int, 0x100);
        vstd::arithmetic::div_mod::lemma_mod_bound(r3 as int, 0x100);
        vstd::arithmetic::div_mod::lemma_fundamental_div_mod(r4 as int, 0x100);
        vstd::arithmetic::div_mod::lemma_mod_bound(r4 as int, 0x100);
        vstd::arithmetic::div_mod::lemma_fundamental_div_mod(r5 as int, 0x100);
        vstd::arithmetic::div_mod::lemma_mod_bound(r5 as int, 0x100);
        vstd::arithmetic::div_mod::lemma_fundamental_div_mod(r6 as int, 0x100);
        vstd::arithmetic::div_mod::lemma_mod_bound(r6 as int, 0x100);
    }
    data[i + 7] = (v % 0x100) as u8;
    data[i + 6] = (r1 % 0x100) as u8;
    data[i + 5] = (r2 % 0x100) as u8;
    data[i + 4] = (r3 % 0x100) as u8;
    data[i + 3] = (r4 % 0x100) as u8;
    data[i + 2] = (r5 % 0x100) as u8;
    data[i + 1] = (r6 % 0x100) as u8;
    data[i] = (r6 / 0x100) as u8;
}

/// Adds or subtracts a random delta in `[1, ARITH_MAX]`, with wraparound, to
/// the byte at a random offset.
pub fn mutation_byteadd<M, R: Rand>(
    _mutator: &mut M,
    rand: &mut R,
    _corpus: &InMemoryCorpus,
    input: &mut BytesInput,
) -> (r: Result<MutationResult, AflError>)
    ensures
        old(input)@.len() <= 1 ==> r == skipped() && final(input)@ == old(input)@,
        old(input)@.len() > 1 ==> r == mutated() && exists|i: int, delta: int|
            0 <= i < old(input)@.len() - 1 && 1 <= delta <= ARITH_MAX && byte_delta_applied(
                old(input)@,
                final(input)@,
                i,
                delta,
            ),
{
    let size = input.bytes.len();
    if size <= 1 {
        return Ok(MutationResult::Skipped);
    }
    let idx = rand.below((size - 1) as u64) as usize;
    let delta = 1 + rand.below(ARITH_MAX);
    let v = input.bytes[idx] as u64;
    let coin = rand.below(2);
    let nv = if coin == 0 {
        wrap_add(v, delta, 0x100)
    } else {
        wrap_sub(v, delta, 0x100)
    };
    input.bytes[idx] = nv as u8;
    proof {
        if coin == 0 {
            assert(input@ == old(input)@.update(
                idx as int,
                (((old(input)@[idx as int] + delta) % 256) as u8),
            ));
        } else {
            assert(input@ == old(input)@.update(
                idx as int,
                (((old(input)@[idx as int] - delta) % 256) as u8),
            ));
        }
        assert(byte_delta_applied(old(input)@, input@, idx as int, delta as int));
    }
    Ok(MutationResult::Mutated)
}

/// Adds or subtracts a random delta in `[1, ARITH_MAX]`, with wraparound, to
/// the 2-byte integer at a random offset, read and written in little- or
/// big-endian order, chosen uniformly among the four variants.
pub fn mutation_wordadd<M, R: Rand>(
    _mutator: &mut M,
    rand: &mut R,
    _corpus: &InMemoryCorpus,
    input: &mut BytesInput,
) -> (r: Result<MutationResult, AflError>)
    ensures
        old(input)@.len() <= 1 ==> r == skipped() && final(input)@ == old(input)@,
        old(input)@.len() > 1 ==> r == mutated() && exists|i: int, delta: int|
            0 <= i < old(input)@.len() - 1 && 1 <= delta <= ARITH_MAX && word_delta_applied(
                old(input)@,
                final(input)@,
                i,
                delta,
            ),
{
    let size = input.bytes.len();
    if size <= 1 {
        return Ok(MutationResult::Skipped);
    }
    let idx = rand.below((size - 1) as u64) as usize;
    let delta = 1 + rand.below(ARITH_MAX);
    let choice = rand.below(4);
    if choice == 0 {
        let v = read_word_le(&input.bytes, idx);
        let nv = wrap_add(v, delta, 0x10000);
        write_word_le(&mut input.bytes, idx, nv);
    } else if choice == 1 {
        let v = read_word_le(&input.bytes, idx);
        let nv = wrap_sub(v, delta, 0x10000);
        write_word_le(&mut input.bytes, idx, nv);
    } else if choice == 2 {
        let v = read_word_be(&input.bytes, idx);
        let nv = wrap_add(v, delta, 0x10000);
        write_word_be(&mut input.bytes, idx, nv);
    } else {
        let v = read_word_be(&input.bytes, idx);
        let nv = wrap_sub(v, delta, 0x10000);
        write_word_be(&mut input.bytes, idx, nv);
    }
    proof {
        assert(word_delta_applied(old(input)@, input@, idx as int, delta as int));
    }
    Ok(MutationResult::Mutated)
}

/// Adds or subtracts a random delta in `[1, ARITH_MAX]`, with wraparound, to
/// the 4-byte integer at a random offset, in little- or big-endian order.
/// The offset is drawn so the whole window fits; inputs shorter than the
/// window are skipped.
pub fn mutation_dwordadd<M, R: Rand>(
    _mutator: &mut M,
    rand: &mut R,
    _corpus: &InMemoryCorpus,
    input: &mut BytesInput,
) -> (r: Result<MutationResult, AflError>)
    ensures
        old(input)@.len() < 4 ==> r == skipped() && final(input)@ == old(input)@,
        old(input)@.len() >= 4 ==> r == mutated() && exists|i: int, delta: int|
            0 <= i < old(input)@.len() - 3 && 1 <= delta <= ARITH_MAX && dword_delta_applied(
                old(input)@,
                final(input)@,
                i,
                delta,
            ),
{
    let size = input.bytes.len();
    if size < 4 {
        return Ok(MutationResult::Skipped);
    }
    let idx = rand.below((size - 3) as u64) as usize;
    let delta = 1 + rand.below(ARITH_MAX);
    let choice = rand.below(4);
    if choice == 0 {
        let v = read_dword_le(&input.bytes, idx);
        let nv = wrap_add(v, delta, 0x100000000);
        write_dword_le(&mut input.bytes, idx, nv);
    } else if choice == 1 {
        let v = read_dword_le(&input.bytes, idx);
        let nv = wrap_sub(v, delta, 0x100000000);
        write_dword_le(&mut input.bytes, idx, nv);
    } else if choice == 2 {
        let v = read_dword_be(&input.bytes, idx);
        let nv = wrap_add(v, delta, 0x100000000);
        write_dword_be(&mut input.bytes, idx, nv);
    } else {
        let v = read_dword_be(&input.bytes, idx);
        let nv = wrap_sub(v, delta, 0x100000000);
        write_dword_be(&mut input.bytes, idx, nv);
    }
    proof {
        assert(dword_delta_applied(old(input)@, input@, idx as int, delta as int));
    }
    Ok(MutationResult::Mutated)
}

/// Adds or subtracts a random delta in `[1, ARITH_MAX]`, with wraparound, to
/// the 8-byte integer at a random offset, in little- or big-endian order.
/// The offset is drawn so the whole window fits; inputs shorter than the
/// window are skipped.
pub fn mutation_qwordadd<M, R: Rand>(
    _mutator: &mut M,
    rand: &mut R,
    _corpus: &InMemoryCorpus,
    input: &mut BytesInput,
) -> (r: Result<MutationResult, AflError>)
    ensures
        old(input)@.len() < 8 ==> r == skipped() && final(input)@ == old(input)@,
        old(input)@.len() >= 8 ==> r == mutated() && exists|i: int, delta: int|
            0 <= i < old(input)@.len() - 7 && 1 <= delta <= ARITH_MAX && qword_delta_applied(
                old(input)@,
                final(input)@,
                i,
                delta,
            ),
{
    let size = input.bytes.len();
    if size < 8 {
        return Ok(MutationResult::Skipped);
    }
    let idx = rand.below((size - 7) as u64) as usize;
    let delta = 1 + rand.below(ARITH_MAX);
    let choice = rand.below(4);
    if choice == 0 {
        let v = read_qword_le(&input.bytes, idx);
        let nv = qword_wrap_add(v, delta);
        write_qword_le(&mut input.bytes, idx, nv);
    } else if choice == 1 {
        let v = read_qword_le(&input.bytes, idx);
        let nv = qword_wrap_sub(v, delta);
        write_qword_le(&mut input.bytes, idx, nv);
    } else if choice == 2 {
        let v = read_qword_be(&input.bytes, idx);
        let nv = qword_wrap_add(v, delta);
        write_qword_be(&mut input.bytes, idx, nv);
    } else {
        let v = read_qword_be(&input.bytes, idx);
        let nv = qword_wrap_sub(v, delta);
        write_qword_be(&mut input.bytes, idx, nv);
    }
    proof {
        assert(qword_delta_applied(old(input)@, input@, idx as int, delta as int));
    }
    Ok(MutationResult::Mutated)
}

/// The curated 1-byte edge-case constants (signed extremes, zero, one, small
/// powers of two, boundary values). Index `k` runs over `[0, 9)`.
pub open spec fn interesting_8_val(k: int) -> i8 {
    if k == 0 { -128i8 } else if k == 1 { -1i8 } else if k == 2 { 0 } else if k == 3 { 1 }
    else if k == 4 { 16 } else if k == 5 { 32 } else if k == 6 { 64 } else if k == 7 { 100 }
    else { 127 }
}

/// The curated 2-byte edge-case constants. Index `k` runs over `[0, 19)`.
pub open spec fn interesting_16_val(k: int) -> i16 {
    if k == 0 { -128i16 } else if k == 1 { -1i16 } else if k == 2 { 0 } else if k == 3 { 1 }
    else if k == 4 { 16 } else if k == 5 { 32 } else if k == 6 { 64 } else if k == 7 { 100 }
    else if k == 8 { 127 } else if k == 9 { -32768i16 } else if k == 10 { -129i16 }
    else if k == 11 { 128 } else if k == 12 { 255 } else if k == 13 { 256 }
    else if k == 14 { 512 } else if k == 15 { 1000 } else if k == 16 { 1024 }
    else if k == 17 { 4096 } else { 32767 }
}

/// The curated 4-byte edge-case constants. Index `k` runs over `[0, 27)`.
pub open spec fn interesting_32_val(k: int) -> i32 {
    if k == 0 { -128i32 } else if k == 1 { -1i32 } else if k == 2 { 0 } else if k == 3 { 1 }
    else if k == 4 { 16 } else if k == 5 { 32 } else if k == 6 { 64 } else if k == 7 { 100 }
    else if k == 8 { 127 } else if k == 9 { -32768i32 } else if k == 10 { -129i32 }
    else if k == 11 { 128 } else if k == 12 { 255 } else if k == 13 { 256 }
    else if k == 14 { 512 } else if k == 15 { 1000 } else if k == 16 { 1024 }
    else if k == 17 { 4096 } else if k == 18 { 32767 } else if k == 19 { -2147483648i32 }
    else if k == 20 { -100663046i32 } else if k == 21 { -32769i32 } else if k == 22 { 32768 }
    else if k == 23 { 65535 } else if k == 24 { 65536 } else if k == 25 { 100663045 }
    else { 2147483647 }
}

fn interesting_8(k: usize) -> (r: i8)
    requires
        k < 9,
    ensures
        r == interesting_8_val(k as int),
{
    if k == 0 { -128 } else if k == 1 { -1 } else if k == 2 { 0 } else if k == 3 { 1 }
    else if k == 4 { 16 } else if k == 5 { 32 } else if k == 6 { 64 } else if k == 7 { 100 }
    else { 127 }
}

fn interesting_16(k: usize) -> (r: i16)
    requires
        k < 19,
    ensures
        r == interesting_16_val(k as int),
{
    if k == 0 { -128 } else if k == 1 { -1 } else if k == 2 { 0 } else if k == 3 { 1 }
    else if k == 4 { 16 } else if k == 5 { 32 } else if k == 6 { 64 } else if k == 7 { 100 }
    else if k == 8 { 127 } else if k == 9 { -32768 } else if k == 10 { -129 }
    else if k == 11 { 128 } else if k == 12 { 255 } else if k == 13 { 256 }
    else if k == 14 { 512 } else if k == 15 { 1000 } else if k == 16 { 1024 }
    else if k == 17 { 4096 } else { 32767 }
}

fn interesting_32(k: usize) -> (r: i32)
    requires
        k < 27,
    ensures
        r == interesting_32_val(k as int),
{
    if k == 0 { -128 } else if k == 1 { -1 } else if k == 2 { 0 } else if k == 3 { 1 }
    else if k == 4 { 16 } else if k == 5 { 32 } else if k == 6 { 64 } else if k == 7 { 100 }
    else if k == 8 { 127 } else if k == 9 { -32768 } else if k == 10 { -129 }
    else if k == 11 { 128 } else if k == 12 { 255 } else if k == 13 { 256 }
    else if k == 14 { 512 } else if k == 15 { 1000 } else if k == 16 { 1024 }
    else if k == 17 { 4096 } else if k == 18 { 32767 } else if k == 19 { -2147483648 }
    else if k == 20 { -100663046 } else if k == 21 { -32769 } else if k == 22 { 32768 }
    else if k == 23 { 65535 } else if k == 24 { 65536 } else if k == 25 { 100663045 }
    else { 2147483647 }
}

/// The byte at `i` was overwritten with the `k`-th 1-byte interesting value.
pub open spec fn byte_interesting_applied(pre: Seq<u8>, post: Seq<u8>, i: int, k: int) -> bool {
    post == pre.update(i, interesting_8_val(k) as u8)
}

/// The 2-byte window at `i` was overwritten with the `k`-th 2-byte
/// interesting value, in little- or big-endian order; the rest kept.
pub open spec fn word_interesting_applied(pre: Seq<u8>, post: Seq<u8>, i: int, k: int) -> bool {
    &&& post.len() == pre.len()
    &&& forall|j: int| 0 <= j < pre.len() && !(i <= j < i + 2) ==> post[j] == pre[j]
    &&& {
        ||| word_le(post, i) == interesting_16_val(k) as u16
        ||| word_be(post, i) == interesting_16_val(k) as u16
    }
}

/// The 4-byte window at `i` was overwritten with the `k`-th 4-byte
/// interesting value, in little- or big-endian order; the rest kept.
pub open spec fn dword_interesting_applied(pre: Seq<u8>, post: Seq<u8>, i: int, k: int) -> bool {
    &&& post.len() == pre.len()
    &&& forall|j: int| 0 <= j < pre.len() && !(i <= j < i + 4) ==> post[j] == pre[j]
    &&& {
        ||| dword_le(post, i) == interesting_32_val(k) as u32
        ||| dword_be(post, i) == interesting_32_val(k) as u32
    }
}

/// Overwrites the byte at a random offset with a value drawn uniformly from
/// the curated 1-byte table.
pub fn mutation_byteinteresting<M, R: Rand>(
    _mutator: &mut M,
    rand: &mut R,
    _corpus: &InMemoryCorpus,
    input: &mut BytesInput,
) -> (r: Result<MutationResult, AflError>)
    ensures
        old(input)@.len() <= 1 ==> r == skipped() && final(input)@ == old(input)@,
        old(input)@.len() > 1 ==> r == mutated() && exists|i: int, k: int|
            0 <= i < old(input)@.len() - 1 && 0 <= k < 9 && byte_interesting_applied(
                old(input)@,
                final(input)@,
                i,
                k,
            ),
{
    let size = input.bytes.len();
    if size <= 1 {
        return Ok(MutationResult::Skipped);
    }
    let idx = rand.below((size - 1) as u64) as usize;
    let k = rand.below(9) as usize;
    let val = interesting_8(k) as u8;
    input.bytes[idx] = val;
    proof {
        assert(byte_interesting_applied(old(input)@, input@, idx as int, k as int));
    }
    Ok(MutationResult::Mutated)
}

/// Overwrites the 2-byte window at a random offset with a value drawn
/// uniformly from the curated 2-byte table, written in native or swapped
/// byte order.
pub fn mutation_wordinteresting<M, R: Rand>(
    _mutator: &mut M,
    rand: &mut R,
    _corpus: &InMemoryCorpus,
    input: &mut BytesInput,
) -> (r: Result<MutationResult, AflError>)
    ensures
        old(input)@.len() <= 1 ==> r == skipped() && final(input)@ == old(input)@,
        old(input)@.len() > 1 ==> r == mutated() && exists|i: int, k: int|
            0 <= i < old(input)@.len() - 1 && 0 <= k < 19 && word_interesting_applied(
                old(input)@,
                final(input)@,
                i,
                k,
            ),
{
    let size = input.bytes.len();
    if size <= 1 {
        return Ok(MutationResult::Skipped);
    }
    let idx = rand.below((size - 1) as u64) as usize;
    let k = rand.below(19) as usize;
    let val = interesting_16(k) as u16;
    if rand.below(2) == 0 {
        write_word_le(&mut input.bytes, idx, val as u64);
    } else {
        write_word_be(&mut input.bytes, idx, val as u64);
    }
    proof {
        assert(word_interesting_applied(old(input)@, input@, idx as int, k as int));
    }
    Ok(MutationResult::Mutated)
}

/// Overwrites the 4-byte window at a random offset with a value drawn
/// uniformly from the curated 4-byte table, written in native or swapped
/// byte order. The offset is drawn so the whole window fits; inputs shorter
/// than the window are skipped.
pub fn mutation_dwordinteresting<M, R: Rand>(
    _mutator: &mut M,
    rand: &mut R,
    _corpus: &InMemoryCorpus,
    input: &mut BytesInput,
) -> (r: Result<MutationResult, AflError>)
    ensures
        old(input)@.len() < 4 ==> r == skipped() && final(input)@ == old(input)@,
        old(input)@.len() >= 4 ==> r == mutated() && exists|i: int, k: int|
            0 <= i < old(input)@.len() - 3 && 0 <= k < 27 && dword_interesting_applied(
                old(input)@,
                final(input)@,
                i,
                k,
            ),
{
    let size = input.bytes.len();
    if size < 4 {
        return Ok(MutationResult::Skipped);
    }
    let idx = rand.below((size - 3) as u64) as usize;
    let k = rand.below(27) as usize;
    let val = interesting_32(k) as u32;
    if rand.below(2) == 0 {
        write_dword_le(&mut input.bytes, idx, val as u64);
    } else {
        write_dword_be(&mut input.bytes, idx, val as u64);
    }
    proof {
        assert(dword_interesting_applied(old(input)@, input@, idx as int, k as int));
    }
    Ok(MutationResult::Mutated)
}

/// Appends `n` zero bytes.
fn grow_zeros(data: &mut Vec<u8>, n: usize)
    requires
        old(data).len() + n <= usize::MAX,
    ensures
        final(data)@ == old(data)@ + repeated(0, n as nat),
{
    let mut i: usize = 0;
    while i < n
        invariant
            i <= n,
            data@ == old(data)@ + repeated(0, i as nat),
        decreases n - i,
    {
        data.push(0);
        proof {
            assert(data@ =~= old(data)@ + repeated(0, (i + 1) as nat));
        }
        i = i + 1;
    }
}

/// Removes a random span, shrinking the buffer. A zero-length span can be
/// drawn; the removal is then a no-op but is still reported as `Mutated`,
/// since the operator did run.
pub fn mutation_bytesdelete<M, R: Rand>(
    _mutator: &mut M,
    rand: &mut R,
    _corpus: &InMemoryCorpus,
    input: &mut BytesInput,
) -> (r: Result<MutationResult, AflError>)
    ensures
        old(input)@.len() <= 2 ==> r == skipped() && final(input)@ == old(input)@,
        old(input)@.len() > 2 ==> r == mutated() && exists|off: int, n: int|
            0 <= off < old(input)@.len() && 0 <= n < old(input)@.len() - off && final(input)@
                == delete_at(old(input)@, off, n) && final(input)@.len() == old(input)@.len() - n,
{
    let size = input.bytes.len();
    if size <= 2 {
        return Ok(MutationResult::Skipped);
    }
    let off = rand.below(size as u64) as usize;
    let n = rand.below((size - off) as u64) as usize;
    self_mem_move(&mut input.bytes, off + n, off, size - off - n);
    input.bytes.truncate(size - n);
    proof {
        assert(input@ =~= delete_at(old(input)@, off as int, n as int));
    }
    Ok(MutationResult::Mutated)
}

/// The number of bytes a growth operator may add in one step: a fixed cap of
/// 16, further bounded by the mutator's configured maximum size. The drawn
/// length is strictly below this cap (and zero when the cap is zero).
pub open spec fn grow_cap(max_size: u64) -> int {
    if max_size < 16 {
        max_size as int
    } else {
        16
    }
}

/// Grows the buffer at a random offset, shifting the suffix rightward; the
/// opened gap keeps the bytes that sat there before (zero-padded past the
/// old end). An input too large to grow without overflowing is skipped.
pub fn mutation_bytesexpand<M: HasMaxSize, R: Rand>(
    mutator: &mut M,
    rand: &mut R,
    _corpus: &InMemoryCorpus,
    input: &mut BytesInput,
) -> (r: Result<MutationResult, AflError>)
    ensures
        old(input)@.len() > usize::MAX - 16 ==> r == skipped() && final(input)@ == old(input)@,
        old(input)@.len() <= usize::MAX - 16 ==> r == mutated() && exists|off: int, n: int|
            {
                &&& 0 <= off
                &&& if old(input)@.len() > 1 { off < old(input)@.len() - 1 } else { off == 0 }
                &&& 0 <= n
                &&& if grow_cap(old(mutator).spec_max_size()) == 0 { n == 0 } else {
                    n < grow_cap(old(mutator).spec_max_size())
                }
                &&& final(input)@ == expand_at(old(input)@, off, n)
                &&& final(input)@.len() == old(input)@.len() + n
            },
{
    let size = input.bytes.len();
    if size > usize::MAX - 16 {
        return Ok(MutationResult::Skipped);
    }
    let off = if size <= 1 {
        0
    } else {
        rand.below((size - 1) as u64) as usize
    };
    let ms = mutator.max_size();
    let bound = if ms < 16 { ms } else { 16 };
    let n = if bound == 0 {
        0
    } else {
        rand.below(bound) as usize
    };
    grow_zeros(&mut input.bytes, n);
    self_mem_move(&mut input.bytes, off, off + n, size - off);
    proof {
        assert(input@ =~= expand_at(old(input)@, off as int, n as int));
    }
    Ok(MutationResult::Mutated)
}

/// Like `mutation_bytesexpand`, but the opened gap is filled with one
/// repeated byte sampled from the existing buffer; an empty input offers no
/// byte to sample and is skipped.
pub fn mutation_bytesinsert<M: HasMaxSize, R: Rand>(
    mutator: &mut M,
    rand: &mut R,
    _corpus: &InMemoryCorpus,
    input: &mut BytesInput,
) -> (r: Result<MutationResult, AflError>)
    ensures
        old(input)@.len() == 0 || old(input)@.len() > usize::MAX - 16 ==> r == skipped()
            && final(input)@ == old(input)@,
        0 < old(input)@.len() <= usize::MAX - 16 ==> r == mutated() && exists|
            off: int,
            n: int,
            k: int,
        |
            {
                &&& 0 <= off
                &&& if old(input)@.len() > 1 { off < old(input)@.len() - 1 } else { off == 0 }
                &&& 0 <= n
                &&& if grow_cap(old(mutator).spec_max_size()) == 0 { n == 0 } else {
                    n < grow_cap(old(mutator).spec_max_size())
                }
                &&& 0 <= k < old(input)@.len()
                &&& final(input)@ == insert_at(old(input)@, off, n, old(input)@[k])
                &&& final(input)@.len() == old(input)@.len() + n
            },
{
    let size = input.bytes.len();
    if size == 0 || size > usize::MAX - 16 {
        return Ok(MutationResult::Skipped);
    }
    let off = if size <= 1 {
        0
    } else {
        rand.below((size - 1) as u64) as usize
    };
    let ms = mutator.max_size();
    let bound = if ms < 16 { ms } else { 16 };
    let n = if bound == 0 {
        0
    } else {
        rand.below(bound) as usize
    };
    let k = rand.below(size as u64) as usize;
    let val = input.bytes[k];
    grow_zeros(&mut input.bytes, n);
    self_mem_move(&mut input.bytes, off, off + n, size - off);
    mem_set(&mut input.bytes, off, n, val);
    proof {
        assert(input@ =~= insert_at(old(input)@, off as int, n as int, old(input)@[k as int]));
    }
    Ok(MutationResult::Mutated)
}

/// Like `mutation_bytesinsert`, but the fill value is a uniformly random
/// byte, so an empty input can still grow.
pub fn mutation_bytesrandinsert<M: HasMaxSize, R: Rand>(
    mutator: &mut M,
    rand: &mut R,
    _corpus: &InMemoryCorpus,
    input: &mut BytesInput,
) -> (r: Result<MutationResult, AflError>)
    ensures
        old(input)@.len() > usize::MAX - 16 ==> r == skipped() && final(input)@ == old(input)@,
        old(input)@.len() <= usize::MAX - 16 ==> r == mutated() && exists|
            off: int,
            n: int,
            val: u8,
        |
            {
                &&& 0 <= off
                &&& if old(input)@.len() > 1 { off < old(input)@.len() - 1 } else { off == 0 }
                &&& 0 <= n
                &&& if grow_cap(old(mutator).spec_max_size()) == 0 { n == 0 } else {
                    n < grow_cap(old(mutator).spec_max_size())
                }
                &&& final(input)@ == insert_at(old(input)@, off, n, val)
                &&& final(input)@.len() == old(input)@.len() + n
            },
{
    let size = input.bytes.len();
    if size > usize::MAX - 16 {
        return Ok(MutationResult::Skipped);
    }
    let off = if size <= 1 {
        0
    } else {
        rand.below((size - 1) as u64) as usize
    };
    let ms = mutator.max_size();
    let bound = if ms < 16 { ms } else { 16 };
    let n = if bound == 0 {
        0
    } else {
        rand.below(bound) as usize
    };
    let val = rand.below(256) as u8;
    grow_zeros(&mut input.bytes, n);
    self_mem_move(&mut input.bytes, off, off + n, size - off);
    mem_set(&mut input.bytes, off, n, val);
    proof {
        assert(input@ =~= insert_at(old(input)@, off as int, n as int, val));
    }
    Ok(MutationResult::Mutated)
}

/// Overwrites a random sub-range with one repeated byte sampled from the
/// buffer itself. The length never changes.
pub fn mutation_bytesset<M, R: Rand>(
    _mutator: &mut M,
    rand: &mut R,
    _corpus: &InMemoryCorpus,
    input: &mut BytesInput,
) -> (r: Result<MutationResult, AflError>)
    ensures
        old(input)@.len() == 0 ==> r == skipped() && final(input)@ == old(input)@,
        old(input)@.len() > 0 ==> r == mutated() && final(input)@.len() == old(input)@.len()
            && exists|start: int, n: int, k: int|
            {
                &&& 0 <= start
                &&& if old(input)@.len() > 1 { start < old(input)@.len() - 1 } else { start == 0 }
                &&& 0 <= n < old(input)@.len() - start
                &&& 0 <= k < old(input)@.len()
                &&& span_set_applied(old(input)@, final(input)@, start, n, old(input)@[k])
            },
{
    let size = input.bytes.len();
    if size == 0 {
        return Ok(MutationResult::Skipped);
    }
    let k = rand.below(size as u64) as usize;
    let val = input.bytes[k];
    let start = if size == 1 {
        0
    } else {
        rand.below((size - 1) as u64) as usize
    };
    let n = rand.below((size - start) as u64) as usize;
    mem_set(&mut input.bytes, start, n, val);
    proof {
        assert(span_set_applied(old(input)@, input@, start as int, n as int, old(input)@[k as int]));
    }
    Ok(MutationResult::Mutated)
}

/// Overwrites a random sub-range with one repeated, uniformly random byte.
/// The length never changes.
pub fn mutation_bytesrandset<M, R: Rand>(
    _mutator: &mut M,
    rand: &mut R,
    _corpus: &InMemoryCorpus,
    input: &mut BytesInput,
) -> (r: Result<MutationResult, AflError>)
    ensures
        old(input)@.len() == 0 ==> r == skipped() && final(input)@ == old(input)@,
        old(input)@.len() > 0 ==> r == mutated() && final(input)@.len() == old(input)@.len()
            && exists|start: int, n: int, val: u8|
            {
                &&& 0 <= start
                &&& if old(input)@.len() > 1 { start < old(input)@.len() - 1 } else { start == 0 }
                &&& 0 <= n < old(input)@.len() - start
                &&& span_set_applied(old(input)@, final(input)@, start, n, val)
            },
{
    let size = input.bytes.len();
    if size == 0 {
        return Ok(MutationResult::Skipped);
    }
    let val = rand.below(256) as u8;
    let start = if size == 1 {
        0
    } else {
        rand.below((size - 1) as u64) as usize
    };
    let n = rand.below((size - start) as u64) as usize;
    mem_set(&mut input.bytes, start, n, val);
    proof {
        assert(span_set_applied(old(input)@, input@, start as int, n as int, val));
    }
    Ok(MutationResult::Mutated)
}

/// Copies one random span over another, overlap-safe: the destination takes
/// the source's original bytes. The length never changes.
pub fn mutation_bytescopy<M, R: Rand>(
    _mutator: &mut M,
    rand: &mut R,
    _corpus: &InMemoryCorpus,
    input: &mut BytesInput,
) -> (r: Result<MutationResult, AflError>)
    ensures
        old(input)@.len() <= 1 ==> r == skipped() && final(input)@ == old(input)@,
        old(input)@.len() > 1 ==> r == mutated() && final(input)@.len() == old(input)@.len()
            && exists|from: int, to: int, n: int|
            {
                &&& 0 <= from < old(input)@.len() - 1
                &&& 0 <= to < old(input)@.len() - 1
                &&& 0 <= n < old(input)@.len() - (if from > to { from } else { to })
                &&& span_copy_applied(old(input)@, final(input)@, from, to, n)
            },
{
    let size = input.bytes.len();
    if size <= 1 {
        return Ok(MutationResult::Skipped);
    }
    let from = rand.below((size - 1) as u64) as usize;
    let to = rand.below((size - 1) as u64) as usize;
    let m = if from > to { from } else { to };
    let n = rand.below((size - m) as u64) as usize;
    self_mem_move(&mut input.bytes, from, to, n);
    proof {
        assert(span_copy_applied(old(input)@, input@, from as int, to as int, n as int));
    }
    Ok(MutationResult::Mutated)
}

/// Exchanges the contents of two random spans, through a temporary copy of
/// the first span. The length never changes.
pub fn mutation_bytesswap<M, R: Rand>(
    _mutator: &mut M,
    rand: &mut R,
    _corpus: &InMemoryCorpus,
    input: &mut BytesInput,
) -> (r: Result<MutationResult, AflError>)
    ensures
        old(input)@.len() <= 1 ==> r == skipped() && final(input)@ == old(input)@,
        old(input)@.len() > 1 ==> r == mutated() && final(input)@.len() == old(input)@.len()
            && exists|first: int, second: int, n: int|
            {
                &&& 0 <= first < old(input)@.len() - 1
                &&& 0 <= second < old(input)@.len() - 1
                &&& 0 <= n < old(input)@.len() - (if first > second { first } else { second })
                &&& final(input)@ == swap_spans(old(input)@, first, second, n)
            },
{
    let size = input.bytes.len();
    if size <= 1 {
        return Ok(MutationResult::Skipped);
    }
    let first = rand.below((size - 1) as u64) as usize;
    let second = rand.below((size - 1) as u64) as usize;
    let m = if first > second { first } else { second };
    let n = rand.below((size - m) as u64) as usize;
    let tmp = copy_range(&input.bytes, first, n);
    self_mem_move(&mut input.bytes, second, first, n);
    mem_move(&mut input.bytes, &tmp, 0, second, n);
    proof {
        assert(tmp@.subrange(0, n as int) =~= tmp@);
        assert(input@ =~= swap_spans(old(input)@, first as int, second as int, n as int));
    }
    Ok(MutationResult::Mutated)
}

/// Returns the first and last byte positions where the two buffers differ,
/// scanning the length of the shorter one; both are `-1` when no difference
/// was found in the scanned prefix. The length bounds are a machine limit:
/// a position must fit in an `i64`.
pub fn locate_diffs(this: &Vec<u8>, other: &Vec<u8>) -> (r: (i64, i64))
    requires
        this@.len() <= 0x7fffffffffffffff,
        other@.len() <= 0x7fffffffffffffff,
    ensures
        r.0 == -1 <==> forall|i: int| 0 <= i < min_len(this@, other@) ==> this@[i] == other@[i],
        r.0 == -1 <==> r.1 == -1,
        r.0 != -1 ==> is_first_diff(this@, other@, r.0 as int),
        r.1 != -1 ==> is_last_diff(this@, other@, r.1 as int),
        r.0 <= r.1,
{
    let m = if this.len() <= other.len() {
        this.len()
    } else {
        other.len()
    };
    let mut first: i64 = -1;
    let mut last: i64 = -1;
    let mut i: usize = 0;
    while i < m
        invariant
            i <= m,
            m == min_len(this@, other@),
            this@.len() <= 0x7fffffffffffffff,
            other@.len() <= 0x7fffffffffffffff,
            first == -1 <==> last == -1,
            first == -1 ==> forall|j: int| 0 <= j < i ==> this@[j] == other@[j],
            first != -1 ==> 0 <= first < i && this@[first as int] != other@[first as int]
                && forall|j: int| 0 <= j < first ==> this@[j] == other@[j],
            last != -1 ==> 0 <= last < i && this@[last as int] != other@[last as int] && forall|
                j: int,
            | last < j < i ==> this@[j] == other@[j],
            first <= last,
        decreases m - i,
    {
        if this[i] != other[i] {
            if first == -1 {
                first = i as i64;
            }
            last = i as i64;
        }
        i = i + 1;
    }
    (first, last)
}

/// Splicing crossover: samples another input from the corpus, locates the
/// span where the two differ, and replaces this input's tail from a random
/// split point inside that span with the other input's tail. The corpus
/// sample is retried up to 3 times when the diff span is unusable. Inputs
/// whose length does not fit in an `i64` (a machine limit of the diff scan)
/// are skipped.
pub fn mutation_splice<M, R: Rand>(
    _mutator: &mut M,
    rand: &mut R,
    corpus: &InMemoryCorpus,
    input: &mut BytesInput,
) -> (r: Result<MutationResult, AflError>)
    ensures
        corpus@.len() == 0 <==> r is Err,
        r is Err ==> r->Err_0 == AflError::Empty && final(input)@ == old(input)@,
        r == skipped() ==> final(input)@ == old(input)@,
        r == mutated() ==> exists|k: int, split: int|
            0 <= k < corpus@.len() && corpus@[k] is Some && splice_applied(
                old(input)@,
                corpus@[k]->0,
                final(input)@,
                split,
            ),
        (corpus@.len() > 0 && old(input)@.len() <= 0x7fffffffffffffff && (forall|k: int|
            0 <= k < corpus@.len() ==> corpus@[k] is Some && corpus@[k]->0.len()
                <= 0x7fffffffffffffff && splice_usable(old(input)@, corpus@[k]->0))) ==> r
            == mutated(),
{
    if corpus.count() == 0 {
        return Err(AflError::Empty);
    }
    if input.bytes.len() as u64 > 0x7fffffffffffffff {
        return Ok(MutationResult::Skipped);
    }
    let mut attempt: usize = 0;
    while attempt < 4
        invariant
            attempt <= 4,
            corpus@.len() > 0,
            input@ == old(input)@,
            input@.len() <= 0x7fffffffffffffff,
            attempt > 0 ==> exists|k: int|
                0 <= k < corpus@.len() && !(corpus@[k] is Some && corpus@[k]->0.len()
                    <= 0x7fffffffffffffff && splice_usable(input@, corpus@[k]->0)),
        decreases 4 - attempt,
    {
        let tc = match corpus.random_entry(rand) {
            Ok(t) => t,
            Err(e) => {
                proof {
                    assert(false);
                }
                return Err(e);
            },
        };
        match tc.input() {
            Some(other) => {
                if other.bytes.len() as u64 > 0x7fffffffffffffff {
                    proof {
                        let k0 = choose|k0: int|
                            0 <= k0 < corpus@.len() && tc@ == corpus@[k0];
                        assert(!(corpus@[k0]->0.len() <= 0x7fffffffffffffff));
                    }
                    return Ok(MutationResult::Skipped);
                }
                let (f, l) = locate_diffs(&input.bytes, &other.bytes);
                if f != l && f >= 0 && l >= 2 {
                    let split = rand.between(f as u64, l as u64) as usize;
                    proof {
                        assert(is_first_diff(input@, other@, f as int));
                        assert(is_last_diff(input@, other@, l as int));
                        assert(split < min_len(input@, other@));
                    }
                    let mut nb = copy_range(&input.bytes, 0, split);
                    let mut i: usize = split;
                    while i < other.bytes.len()
                        invariant
                            split <= i <= other@.len(),
                            split <= input@.len(),
                            nb@ == input@.subrange(0, split as int) + other@.subrange(
                                split as int,
                                i as int,
                            ),
                        decreases other@.len() - i,
                    {
                        nb.push(other.bytes[i]);
                        proof {
                            assert(nb@ =~= input@.subrange(0, split as int) + other@.subrange(
                                split as int,
                                i + 1,
                            ));
                        }
                        i = i + 1;
                    }
                    proof {
                        assert(splice_applied(input@, other@, nb@, split as int));
                    }
                    input.bytes = nb;
                    proof {
                        let k0 = choose|k0: int|
                            0 <= k0 < corpus@.len() && tc@ == corpus@[k0];
                        assert(corpus@[k0] is Some && corpus@[k0]->0 == other@);
                        assert(0 <= k0 < corpus@.len() && corpus@[k0] is Some && splice_applied(
                            old(input)@,
                            corpus@[k0]->0,
                            input@,
                            split as int,
                        ));
                    }
                    return Ok(MutationResult::Mutated);
                }
                proof {
                    if splice_usable(input@, other@) {
                        let (f2, l2) = choose|f2: int, l2: int|
                            is_first_diff(input@, other@, f2) && is_last_diff(input@, other@, l2)
                                && f2 != l2 && l2 >= 2;
                        assert(f != -1);
                        lemma_first_diff_unique(input@, other@, f2, f as int);
                        lemma_last_diff_unique(input@, other@, l2, l as int);
                        assert(false);
                    }
                    let k0 = choose|k0: int| 0 <= k0 < corpus@.len() && tc@ == corpus@[k0];
                    assert(corpus@[k0]->0 == other@);
                    assert(!(corpus@[k0] is Some && corpus@[k0]->0.len() <= 0x7fffffffffffffff
                        && splice_usable(input@, corpus@[k0]->0)));
                }
            },
            None => {
                proof {
                    let k0 = choose|k0: int| 0 <= k0 < corpus@.len() && tc@ == corpus@[k0];
                    assert(!(corpus@[k0] is Some));
                }
                return Ok(MutationResult::Skipped);
            },
        }
        attempt = attempt + 1;
    }
    Ok(MutationResult::Skipped)
}

/// Identifies one mutation operator; the registry stores these and an
/// external scheduler invokes the operator behind an index through
/// `apply_mutation`.
#[derive(Clone, Copy, Debug, PartialEq, Eq, Structural)]
pub enum MutationId {
    Bitflip,
    Byteflip,
    Byteinc,
    Bytedec,
    Byteneg,
    Byterand,
    Byteadd,
    Wordadd,
    Dwordadd,
    Qwordadd,
    Byteinteresting,
    Wordinteresting,
    Dwordinteresting,
    Bytesdelete,
    Bytesexpand,
    Bytesinsert,
    Bytesrandinsert,
    Bytesset,
    Bytesrandset,
    Bytescopy,
    Bytesswap,
    Splice,
}

/// Something composed by mutations: associates each registered operator with
/// an index, exposes the operator count, and allows incremental
/// registration. This is the composition point an external scheduler uses to
/// pick operators.
pub trait ComposedByMutations {
    /// The registered operators, in registration order.
    spec fn mutations_seq(&self) -> Seq<MutationId>;

    /// Get a mutation by index.
    fn mutation_by_idx(&self, index: usize) -> (r: MutationId)
        requires
            index < self.mutations_seq().len(),
        ensures
            r == self.mutations_seq()[index as int],
    ;

    /// Get the number of mutations.
    fn mutations_count(&self) -> (r: usize)
        ensures
            r == self.mutations_seq().len(),
    ;

    /// Add a mutation.
    fn add_mutation(&mut self, mutation: MutationId)
        ensures
            final(self).mutations_seq() == old(self).mutations_seq().push(mutation),
    ;
}

/// A registry of mutation operators, filled incrementally.
pub struct MutationRegistry {
    pub mutations: Vec<MutationId>,
}

impl MutationRegistry {
    pub fn new() -> (r: MutationRegistry)
        ensures
            r.mutations_seq().len() == 0,
    {
        MutationRegistry { mutations: Vec::new() }
    }
}

impl ComposedByMutations for MutationRegistry {
    open spec fn mutations_seq(&self) -> Seq<MutationId> {
        self.mutations@
    }

    fn mutation_by_idx(&self, index: usize) -> (r: MutationId) {
        self.mutations[index]
    }

    fn mutations_count(&self) -> (r: usize) {
        self.mutations.len()
    }

    fn add_mutation(&mut self, mutation: MutationId) {
        self.mutations.push(mutation);
    }
}

/// The postcondition of the operator identified by `mutation`, over the
/// input's bytes before (`pre`) and after (`post`) the call, the mutator's
/// configured maximum size, the corpus contents, and the returned result:
/// exactly the clauses each operator's own `ensures` states.
pub open spec fn mutation_post(
    mutation: MutationId,
    pre: Seq<u8>,
    post: Seq<u8>,
    max_size: u64,
    corpus: Seq<Option<Seq<u8>>>,
    r: Result<MutationResult, AflError>,
) -> bool {
    match mutation {
        MutationId::Bitflip => {
            &&& pre.len() == 0 ==> r == skipped() && post == pre
            &&& pre.len() > 0 ==> r == mutated() && exists|i: int, b: u8|
                0 <= i < pre.len() && b < 8 && post == pre.update(i, pre[i] ^ (128u8 >> b))
                    && post[i] != pre[i]
        },
        MutationId::Byteflip => {
            &&& pre.len() == 0 ==> r == skipped() && post == pre
            &&& pre.len() > 0 ==> r == mutated() && exists|i: int|
                0 <= i < pre.len() && post == pre.update(i, pre[i] ^ 0xff) && post[i] != pre[i]
        },
        MutationId::Byteinc => {
            &&& pre.len() == 0 ==> r == skipped() && post == pre
            &&& pre.len() > 0 ==> r == mutated() && exists|i: int|
                0 <= i < pre.len() && post == pre.update(i, byte_inc(pre[i])) && post[i] != pre[i]
        },
        MutationId::Bytedec => {
            &&& pre.len() == 0 ==> r == skipped() && post == pre
            &&& pre.len() > 0 ==> r == mutated() && exists|i: int|
                0 <= i < pre.len() && post == pre.update(i, byte_dec(pre[i])) && post[i] != pre[i]
        },
        MutationId::Byteneg => {
            &&& pre.len() == 0 ==> r == skipped() && post == pre
            &&& pre.len() > 0 ==> r == mutated() && exists|i: int|
                0 <= i < pre.len() && post == pre.update(i, !pre[i]) && post[i] != pre[i]
        },
        MutationId::Byterand => {
            &&& pre.len() == 0 ==> r == skipped() && post == pre
            &&& pre.len() > 0 ==> r == mutated() && exists|i: int|
                0 <= i < pre.len() && post == pre.update(i, post[i])
        },
        MutationId::Byteadd => {
            &&& pre.len() <= 1 ==> r == skipped() && post == pre
            &&& pre.len() > 1 ==> r == mutated() && exists|i: int, delta: int|
                0 <= i < pre.len() - 1 && 1 <= delta <= ARITH_MAX && byte_delta_applied(
                    pre,
                    post,
                    i,
                    delta,
                )
        },
        MutationId::Wordadd => {
            &&& pre.len() <= 1 ==> r == skipped() && post == pre
            &&& pre.len() > 1 ==> r == mutated() && exists|i: int, delta: int|
                0 <= i < pre.len() - 1 && 1 <= delta <= ARITH_MAX && word_delta_applied(
                    pre,
                    post,
                    i,
                    delta,
                )
        },
        MutationId::Dwordadd => {
            &&& pre.len() < 4 ==> r == skipped() && post == pre
            &&& pre.len() >= 4 ==> r == mutated() && exists|i: int, delta: int|
                0 <= i < pre.len() - 3 && 1 <= delta <= ARITH_MAX && dword_delta_applied(
                    pre,
                    post,
                    i,
                    delta,
                )
        },
        MutationId::Qwordadd => {
            &&& pre.len() < 8 ==> r == skipped() && post == pre
            &&& pre.len() >= 8 ==> r == mutated() && exists|i: int, delta: int|
                0 <= i < pre.len() - 7 && 1 <= delta <= ARITH_MAX && qword_delta_applied(
                    pre,
                    post,
                    i,
                    delta,
                )
        },
        MutationId::Byteinteresting => {
            &&& pre.len() <= 1 ==> r == skipped() && post == pre
            &&& pre.len() > 1 ==> r == mutated() && exists|i: int, k: int|
                0 <= i < pre.len() - 1 && 0 <= k < 9 && byte_interesting_applied(pre, post, i, k)
        },
        MutationId::Wordinteresting => {
            &&& pre.len() <= 1 ==> r == skipped() && post == pre
            &&& pre.len() > 1 ==> r == mutated() && exists|i: int, k: int|
                0 <= i < pre.len() - 1 && 0 <= k < 19 && word_interesting_applied(pre, post, i, k)
        },
        MutationId::Dwordinteresting => {
            &&& pre.len() < 4 ==> r == skipped() && post == pre
            &&& pre.len() >= 4 ==> r == mutated() && exists|i: int, k: int|
                0 <= i < pre.len() - 3 && 0 <= k < 27 && dword_interesting_applied(pre, post, i, k)
        },
        MutationId::Bytesdelete => {
            &&& pre.len() <= 2 ==> r == skipped() && post == pre
            &&& pre.len() > 2 ==> r == mutated() && exists|off: int, n: int|
                0 <= off < pre.len() && 0 <= n < pre.len() - off && post == delete_at(pre, off, n)
                    && post.len() == pre.len() - n
        },
        MutationId::Bytesexpand => {
            &&& pre.len() > usize::MAX - 16 ==> r == skipped() && post == pre
            &&& pre.len() <= usize::MAX - 16 ==> r == mutated() && exists|off: int, n: int|
                {
                    &&& 0 <= off
                    &&& if pre.len() > 1 { off < pre.len() - 1 } else { off == 0 }
                    &&& 0 <= n
                    &&& if grow_cap(max_size) == 0 { n == 0 } else { n < grow_cap(max_size) }
                    &&& post == expand_at(pre, off, n)
                    &&& post.len() == pre.len() + n
                }
        },
        MutationId::Bytesinsert => {
            &&& pre.len() == 0 || pre.len() > usize::MAX - 16 ==> r == skipped() && post == pre
            &&& 0 < pre.len() <= usize::MAX - 16 ==> r == mutated() && exists|
                off: int,
                n: int,
                k: int,
            |
                {
                    &&& 0 <= off
                    &&& if pre.len() > 1 { off < pre.len() - 1 } else { off == 0 }
                    &&& 0 <= n
                    &&& if grow_cap(max_size) == 0 { n == 0 } else { n < grow_cap(max_size) }
                    &&& 0 <= k < pre.len()
                    &&& post == insert_at(pre, off, n, pre[k])
                    &&& post.len() == pre.len() + n
                }
        },
        MutationId::Bytesrandinsert => {
            &&& pre.len() > usize::MAX - 16 ==> r == skipped() && post == pre
            &&& pre.len() <= usize::MAX - 16 ==> r == mutated() && exists|
                off: int,
                n: int,
                val: u8,
            |
                {
                    &&& 0 <= off
                    &&& if pre.len() > 1 { off < pre.len() - 1 } else { off == 0 }
                    &&& 0 <= n
                    &&& if grow_cap(max_size) == 0 { n == 0 } else { n < grow_cap(max_size) }
                    &&& post == insert_at(pre, off, n, val)
                    &&& post.len() == pre.len() + n
                }
        },
        MutationId::Bytesset => {
            &&& pre.len() == 0 ==> r == skipped() && post == pre
            &&& pre.len() > 0 ==> r == mutated() && post.len() == pre.len() && exists|
                start: int,
                n: int,
                k: int,
            |
                {
                    &&& 0 <= start
                    &&& if pre.len() > 1 { start < pre.len() - 1 } else { start == 0 }
                    &&& 0 <= n < pre.len() - start
                    &&& 0 <= k < pre.len()
                    &&& span_set_applied(pre, post, start, n, pre[k])
                }
        },
        MutationId::Bytesrandset => {
            &&& pre.len() == 0 ==> r == skipped() && post == pre
            &&& pre.len() > 0 ==> r == mutated() && post.len() == pre.len() && exists|
                start: int,
                n: int,
                val: u8,
            |
                {
                    &&& 0 <= start
                    &&& if pre.len() > 1 { start < pre.len() - 1 } else { start == 0 }
                    &&& 0 <= n < pre.len() - start
                    &&& span_set_applied(pre, post, start, n, val)
                }
        },
        MutationId::Bytescopy => {
            &&& pre.len() <= 1 ==> r == skipped() && post == pre
            &&& pre.len() > 1 ==> r == mutated() && post.len() == pre.len() && exists|
                from: int,
                to: int,
                n: int,
            |
                {
                    &&& 0 <= from < pre.len() - 1
                    &&& 0 <= to < pre.len() - 1
                    &&& 0 <= n < pre.len() - (if from > to { from } else { to })
                    &&& span_copy_applied(pre, post, from, to, n)
                }
        },
        MutationId::Bytesswap => {
            &&& pre.len() <= 1 ==> r == skipped() && post == pre
            &&& pre.len() > 1 ==> r == mutated() && post.len() == pre.len() && exists|
                first: int,
                second: int,
                n: int,
            |
                {
                    &&& 0 <= first < pre.len() - 1
                    &&& 0 <= second < pre.len() - 1
                    &&& 0 <= n < pre.len() - (if first > second { first } else { second })
                    &&& post == swap_spans(pre, first, second, n)
                }
        },
        MutationId::Splice => {
            &&& corpus.len() == 0 <==> r is Err
            &&& r is Err ==> r->Err_0 == AflError::Empty && post == pre
            &&& r == skipped() ==> post == pre
            &&& r == mutated() ==> exists|k: int, split: int|
                0 <= k < corpus.len() && corpus[k] is Some && splice_applied(
                    pre,
                    corpus[k]->0,
                    post,
                    split,
                )
            &&& (corpus.len() > 0 && pre.len() <= 0x7fffffffffffffff && (forall|k: int|
                0 <= k < corpus.len() ==> corpus[k] is Some && corpus[k]->0.len()
                    <= 0x7fffffffffffffff && splice_usable(pre, corpus[k]->0))) ==> r == mutated()
        },
    }
}

/// Invokes the operator identified by `mutation` on `input` and meets that
/// operator's postcondition, restated per variant by `mutation_post`. This
/// is the composition point an external scheduler reaches after picking an
/// operator from a registry by index. Whatever the operator, a `Skipped`
/// outcome leaves the input untouched; only the splice operator can fail,
/// and it does exactly when the corpus is empty.
pub fn apply_mutation<M: HasMaxSize, R: Rand>(
    mutation: MutationId,
    mutator: &mut M,
    rand: &mut R,
    corpus: &InMemoryCorpus,
    input: &mut BytesInput,
) -> (r: Result<MutationResult, AflError>)
    ensures
        mutation_post(
            mutation,
            old(input)@,
            final(input)@,
            old(mutator).spec_max_size(),
            corpus@,
            r,
        ),
        r == skipped() ==> final(input)@ == old(input)@,
        r is Err <==> mutation == MutationId::Splice && corpus@.len() == 0,
        r is Err ==> final(input)@ == old(input)@,
{
    match mutation {
        MutationId::Bitflip => mutation_bitflip(mutator, rand, corpus, input),
        MutationId::Byteflip => mutation_byteflip(mutator, rand, corpus, input),
        MutationId::Byteinc => mutation_byteinc(mutator, rand, corpus, input),
        MutationId::Bytedec => mutation_bytedec(mutator, rand, corpus, input),
        MutationId::Byteneg => mutation_byteneg(mutator, rand, corpus, input),
        MutationId::Byterand => mutation_byterand(mutator, rand, corpus, input),
        MutationId::Byteadd => mutation_byteadd(mutator, rand, corpus, input),
        MutationId::Wordadd => mutation_wordadd(mutator, rand, corpus, input),
        MutationId::Dwordadd => mutation_dwordadd(mutator, rand, corpus, input),
        MutationId::Qwordadd => mutation_qwordadd(mutator, rand, corpus, input),
        MutationId::Byteinteresting => mutation_byteinteresting(mutator, rand, corpus, input),
        MutationId::Wordinteresting => mutation_wordinteresting(mutator, rand, corpus, input),
        MutationId::Dwordinteresting => mutation_dwordinteresting(mutator, rand, corpus, input),
        MutationId::Bytesdelete => mutation_bytesdelete(mutator, rand, corpus, input),
        MutationId::Bytesexpand => mutation_bytesexpand(mutator, rand, corpus, input),
        MutationId::Bytesinsert => mutation_bytesinsert(mutator, rand, corpus, input),
        MutationId::Bytesrandinsert => mutation_bytesrandinsert(mutator, rand, corpus, input),
        MutationId::Bytesset => mutation_bytesset(mutator, rand, corpus, input),
        MutationId::Bytesrandset => mutation_bytesrandset(mutator, rand, corpus, input),
        MutationId::Bytescopy => mutation_bytescopy(mutator, rand, corpus, input),
        MutationId::Bytesswap => mutation_bytesswap(mutator, rand, corpus, input),
        MutationId::Splice => mutation_splice(mutator, rand, corpus, input),
    }
}

/// A minimal mutator carrying the one piece of state the operators read:
/// the configured maximum size an input may grow to in one step.
pub struct SizedMutator {
    pub max_size: u64,
}

impl SizedMutator {
    pub fn new(max_size: u64) -> (r: SizedMutator)
        ensures
            r.spec_max_size() == max_size,
    {
        SizedMutator { max_size }
    }
}

impl HasMaxSize for SizedMutator {
    open spec fn spec_max_size(&self) -> u64 {
        self.max_size
    }

    fn max_size(&self) -> (r: u64) {
        self.max_size
    }
}

} // verus!

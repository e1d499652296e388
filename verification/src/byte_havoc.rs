//! Byte-level havoc: the fixed suite of buffer mutation operators that the
//! intent mutators run on content buffers, in the classic fuzzing style —
//! bit flip, byte increment/decrement/negate/randomize/add, word, dword and
//! qword arithmetic, interesting-value substitution at one, two and four
//! bytes, range deletion (weighted four-fold in the schedule), expansion,
//! insertion, random insertion, set, random set, copy, insert-copy and swap.
//! Every operator takes its random draws as plain arguments and is a fully
//! specified transformation; crossover operators are deliberately absent.

use vstd::prelude::*;
use crate::intent_mutator::MutationOutcome;

verus! {

/// Buffers never grow beyond this during havoc.
pub const HAVOC_MAX_SIZE: usize = 1024 * 1024;

pub open spec fn spec_xorshift(s: u64) -> u64 {
    let a = s ^ (s << 13);
    let b = a ^ (a >> 7);
    b ^ (b << 17)
}

/// The deterministic draw source: a xorshift generator whose seed fixes the
/// whole stream.
#[derive(Clone, Copy, PartialEq, Eq, Structural, Debug)]
pub struct XorShift {
    pub state: u64,
}

impl XorShift {
    /// Starts the stream; the seed is displaced so that a zero seed still
    /// yields a nonzero state.
    pub fn new(seed: u64) -> (r: XorShift)
        ensures
            r.state == ((seed + 0x9E37_79B9_7F4A_7C15) % 0x1_0000_0000_0000_0000) as u64,
    {
        XorShift { state: seed.wrapping_add(0x9E37_79B9_7F4A_7C15) }
    }

    /// The next draw; the state advances by one xorshift step.
    pub fn next(&mut self) -> (r: u64)
        ensures
            final(self).state == spec_xorshift(old(self).state),
            r == spec_xorshift(old(self).state),
    {
        let mut x = self.state;
        x = x ^ (x << 13);
        x = x ^ (x >> 7);
        x = x ^ (x << 17);
        self.state = x;
        x
    }
}

/// `b` with `del` bytes at `i` replaced by `ins`.
pub open spec fn spec_splice(b: Seq<u8>, i: int, del: int, ins: Seq<u8>) -> Seq<u8> {
    b.take(i) + ins + b.skip(i + del)
}

fn splice_range(v: &mut Vec<u8>, i: usize, del: usize, ins: &Vec<u8>)
    requires
        i + del <= old(v)@.len(),
    ensures
        final(v)@ == spec_splice(old(v)@, i as int, del as int, ins@),
{
    let vlen = v.len();
    let mut out: Vec<u8> = Vec::new();
    let mut j: usize = 0;
    proof {
        assert(out@ =~= old(v)@.take(0));
    }
    while j < i
        invariant
            vlen == v@.len(),
            i + del <= v@.len(),
            v == old(v),
            j <= i,
            out@ == v@.take(j as int),
        decreases i - j,
    {
        out.push(v[j]);
        proof {
            assert(out@ =~= v@.take(j + 1));
        }
        j += 1;
    }
    let mut k: usize = 0;
    while k < ins.len()
        invariant
            vlen == v@.len(),
            i + del <= v@.len(),
            v == old(v),
            k <= ins@.len(),
            out@ == v@.take(i as int) + ins@.take(k as int),
        decreases ins@.len() - k,
    {
        out.push(ins[k]);
        proof {
            assert(out@ =~= v@.take(i as int) + ins@.take(k + 1));
        }
        k += 1;
    }
    proof {
        assert(ins@.take(ins@.len() as int) =~= ins@);
    }
    let mut t: usize = i + del;
    while t < v.len()
        invariant
            vlen == v@.len(),
            i + del <= v@.len(),
            v == old(v),
            i + del <= t <= v@.len(),
            out@ == v@.take(i as int) + ins@ + v@.subrange(i + del, t as int),
        decreases v@.len() - t,
    {
        out.push(v[t]);
        proof {
            assert(out@ =~= v@.take(i as int) + ins@ + v@.subrange(i + del, t + 1));
        }
        t += 1;
    }
    proof {
        assert(v@.subrange(i + del, v@.len() as int) =~= v@.skip(i + del));
        assert(v@.subrange(i + del, i + del) =~= Seq::<u8>::empty());
        assert(v@.take(i as int) + ins@ + v@.subrange(i + del, i + del) =~= v@.take(i as int)
            + ins@);
    }
    *v = out;
}

/// A copy of `b[from..from+n]`.
fn read_range(v: &Vec<u8>, from: usize, n: usize) -> (r: Vec<u8>)
    requires
        from + n <= v@.len(),
    ensures
        r@ == v@.subrange(from as int, from + n),
{
    let vlen = v.len();
    let mut out: Vec<u8> = Vec::new();
    let mut k: usize = 0;
    proof {
        assert(out@ =~= v@.subrange(from as int, from as int));
    }
    while k < n
        invariant
            vlen == v@.len(),
            from + n <= v@.len(),
            k <= n,
            out@ == v@.subrange(from as int, from + k),
        decreases n - k,
    {
        out.push(v[from + k]);
        proof {
            assert(out@ =~= v@.subrange(from as int, from + k + 1));
        }
        k += 1;
    }
    out
}

/// `count` copies of one byte.
fn byte_run(val: u8, count: usize) -> (r: Vec<u8>)
    ensures
        r@ == Seq::new(count as nat, |k: int| val),
{
    let mut out: Vec<u8> = Vec::new();
    let mut k: usize = 0;
    while k < count
        invariant
            k <= count,
            out@.len() == k,
            forall|m: int| 0 <= m < k ==> out@[m] == val,
        decreases count - k,
    {
        out.push(val);
        k += 1;
    }
    proof {
        assert(out@ =~= Seq::new(count as nat, |k: int| val));
    }
    out
}

/// Flips one bit of the byte at the drawn offset.
pub fn bit_flip_mutate(bytes: &mut Vec<u8>, offset_draw: u64, bit_draw: u64) -> (r:
    MutationOutcome)
    ensures
        r == MutationOutcome::Skipped ==> *final(bytes) == *old(bytes),
        r == (if old(bytes)@.len() == 0 {
            MutationOutcome::Skipped
        } else {
            MutationOutcome::Mutated
        }),
        old(bytes)@.len() > 0 ==> {
            let i = (offset_draw % (old(bytes)@.len() as u64)) as int;
            final(bytes)@ == old(bytes)@.update(
                i,
                old(bytes)@[i] ^ (1u8 << (bit_draw % 8) as u8),
            ) && final(bytes)@[i] != old(bytes)@[i]
        },
{
    let n = bytes.len();
    if n == 0 {
        return MutationOutcome::Skipped;
    }
    let i = (offset_draw % (n as u64)) as usize;
    let k: u8 = (bit_draw % 8) as u8;
    let b = bytes[i];
    bytes.set(i, b ^ (1u8 << k));
    proof {
        assert(b ^ (1u8 << k) != b) by (bit_vector)
            requires
                k < 8,
        ;
    }
    MutationOutcome::Mutated
}

/// Adds one, wrapping, to the byte at the drawn offset.
pub fn byte_inc_mutate(bytes: &mut Vec<u8>, offset_draw: u64) -> (r: MutationOutcome)
    ensures
        r == MutationOutcome::Skipped ==> *final(bytes) == *old(bytes),
        r == (if old(bytes)@.len() == 0 {
            MutationOutcome::Skipped
        } else {
            MutationOutcome::Mutated
        }),
        old(bytes)@.len() > 0 ==> {
            let i = (offset_draw % (old(bytes)@.len() as u64)) as int;
            final(bytes)@ == old(bytes)@.update(i, ((old(bytes)@[i] + 1) % 256) as u8)
        },
{
    let n = bytes.len();
    if n == 0 {
        return MutationOutcome::Skipped;
    }
    let i = (offset_draw % (n as u64)) as usize;
    let b = bytes[i];
    let nb: u8 = ((b as u16 + 1) % 256) as u8;
    bytes.set(i, nb);
    MutationOutcome::Mutated
}

/// Subtracts one, wrapping, from the byte at the drawn offset.
pub fn byte_dec_mutate(bytes: &mut Vec<u8>, offset_draw: u64) -> (r: MutationOutcome)
    ensures
        r == MutationOutcome::Skipped ==> *final(bytes) == *old(bytes),
        r == (if old(bytes)@.len() == 0 {
            MutationOutcome::Skipped
        } else {
            MutationOutcome::Mutated
        }),
        old(bytes)@.len() > 0 ==> {
            let i = (offset_draw % (old(bytes)@.len() as u64)) as int;
            final(bytes)@ == old(bytes)@.update(i, ((old(bytes)@[i] + 255) % 256) as u8)
        },
{
    let n = bytes.len();
    if n == 0 {
        return MutationOutcome::Skipped;
    }
    let i = (offset_draw % (n as u64)) as usize;
    let b = bytes[i];
    let nb: u8 = ((b as u16 + 255) % 256) as u8;
    bytes.set(i, nb);
    MutationOutcome::Mutated
}

/// Arithmetically negates the byte at the drawn offset, wrapping.
pub fn byte_neg_mutate(bytes: &mut Vec<u8>, offset_draw: u64) -> (r: MutationOutcome)
    ensures
        r == MutationOutcome::Skipped ==> *final(bytes) == *old(bytes),
        r == (if old(bytes)@.len() == 0 {
            MutationOutcome::Skipped
        } else {
            MutationOutcome::Mutated
        }),
        old(bytes)@.len() > 0 ==> {
            let i = (offset_draw % (old(bytes)@.len() as u64)) as int;
            final(bytes)@ == old(bytes)@.update(i, ((256 - old(bytes)@[i]) % 256) as u8)
        },
{
    let n = bytes.len();
    if n == 0 {
        return MutationOutcome::Skipped;
    }
    let i = (offset_draw % (n as u64)) as usize;
    let b = bytes[i];
    let nb: u8 = ((256u16 - b as u16) % 256) as u8;
    bytes.set(i, nb);
    MutationOutcome::Mutated
}

/// Replaces the byte at the drawn offset with the drawn value.
pub fn byte_rand_mutate(bytes: &mut Vec<u8>, offset_draw: u64, value_draw: u64) -> (r:
    MutationOutcome)
    ensures
        r == MutationOutcome::Skipped ==> *final(bytes) == *old(bytes),
        r == (if old(bytes)@.len() == 0 {
            MutationOutcome::Skipped
        } else {
            MutationOutcome::Mutated
        }),
        old(bytes)@.len() > 0 ==> {
            let i = (offset_draw % (old(bytes)@.len() as u64)) as int;
            final(bytes)@ == old(bytes)@.update(i, (value_draw % 256) as u8)
        },
{
    let n = bytes.len();
    if n == 0 {
        return MutationOutcome::Skipped;
    }
    let i = (offset_draw % (n as u64)) as usize;
    bytes.set(i, (value_draw % 256) as u8);
    MutationOutcome::Mutated
}

/// The arithmetic amount a draw selects: between one and thirty-four.
pub open spec fn spec_arith_amount(amount_draw: u64) -> int {
    1 + (amount_draw as int) % 34
}

/// Adds or subtracts the drawn amount to the byte at the drawn offset,
/// wrapping.
pub fn byte_add_mutate(bytes: &mut Vec<u8>, offset_draw: u64, amount_draw: u64, subtract: bool)
    -> (r: MutationOutcome)
    ensures
        r == MutationOutcome::Skipped ==> *final(bytes) == *old(bytes),
        r == (if old(bytes)@.len() == 0 {
            MutationOutcome::Skipped
        } else {
            MutationOutcome::Mutated
        }),
        old(bytes)@.len() > 0 ==> {
            let i = (offset_draw % (old(bytes)@.len() as u64)) as int;
            let a = spec_arith_amount(amount_draw);
            final(bytes)@ == old(bytes)@.update(
                i,
                (if subtract {
                    (old(bytes)@[i] + 256 - a) % 256
                } else {
                    (old(bytes)@[i] + a) % 256
                }) as u8,
            )
        },
{
    let n = bytes.len();
    if n == 0 {
        return MutationOutcome::Skipped;
    }
    let i = (offset_draw % (n as u64)) as usize;
    let a: u16 = (1 + amount_draw % 34) as u16;
    let b = bytes[i] as u16;
    let nb: u8 = if subtract {
        ((b + 256 - a) % 256) as u8
    } else {
        ((b + a) % 256) as u8
    };
    bytes.set(i, nb);
    MutationOutcome::Mutated
}

/// The bytes of a 16-bit value in the drawn order.
pub open spec fn u16_bytes(v: int, big_endian: bool) -> Seq<u8> {
    if big_endian {
        seq![((v / 0x100) % 0x100) as u8, (v % 0x100) as u8]
    } else {
        seq![(v % 0x100) as u8, ((v / 0x100) % 0x100) as u8]
    }
}

/// The 16-bit value at `i`, read in the drawn order.
pub open spec fn u16_at(b: Seq<u8>, i: int, big_endian: bool) -> int {
    if big_endian {
        b[i] * 0x100 + b[i + 1]
    } else {
        b[i] + b[i + 1] * 0x100
    }
}

/// The bytes of a 32-bit value in the drawn order.
pub open spec fn u32_bytes(v: int, big_endian: bool) -> Seq<u8> {
    if big_endian {
        seq![
            ((v / 0x100_0000) % 0x100) as u8,
            ((v / 0x1_0000) % 0x100) as u8,
            ((v / 0x100) % 0x100) as u8,
            (v % 0x100) as u8,
        ]
    } else {
        seq![
            (v % 0x100) as u8,
            ((v / 0x100) % 0x100) as u8,
            ((v / 0x1_0000) % 0x100) as u8,
            ((v / 0x100_0000) % 0x100) as u8,
        ]
    }
}

/// The 32-bit value at `i`, read in the drawn order.
pub open spec fn u32_at(b: Seq<u8>, i: int, big_endian: bool) -> int {
    if big_endian {
        b[i] * 0x100_0000 + b[i + 1] * 0x1_0000 + b[i + 2] * 0x100 + b[i + 3]
    } else {
        b[i] + b[i + 1] * 0x100 + b[i + 2] * 0x1_0000 + b[i + 3] * 0x100_0000
    }
}

/// The bytes of a 64-bit value in the drawn order.
pub open spec fn u64_bytes(v: int, big_endian: bool) -> Seq<u8> {
    let le = seq![
        (v % 0x100) as u8,
        ((v / 0x100) % 0x100) as u8,
        ((v / 0x1_0000) % 0x100) as u8,
        ((v / 0x100_0000) % 0x100) as u8,
        ((v / 0x1_0000_0000) % 0x100) as u8,
        ((v / 0x100_0000_0000) % 0x100) as u8,
        ((v / 0x1_0000_0000_0000) % 0x100) as u8,
        ((v / 0x100_0000_0000_0000) % 0x100) as u8,
    ];
    if big_endian {
        le.reverse()
    } else {
        le
    }
}

/// The 64-bit value at `i`, read in the drawn order.
pub open spec fn u64_at(b: Seq<u8>, i: int, big_endian: bool) -> int {
    if big_endian {
        u32_at(b, i, true) * 0x1_0000_0000 + u32_at(b, i + 4, true)
    } else {
        u32_at(b, i, false) + u32_at(b, i + 4, false) * 0x1_0000_0000
    }
}



/// Adds or subtracts the drawn amount to the 16-bit value at the drawn
/// offset, read and written in the drawn byte order, wrapping.
pub fn word_add_mutate(
    bytes: &mut Vec<u8>,
    offset_draw: u64,
    amount_draw: u64,
    subtract: bool,
    big_endian: bool,
) -> (r: MutationOutcome)
    ensures
        r == MutationOutcome::Skipped ==> *final(bytes) == *old(bytes),
        r == (if old(bytes)@.len() < 2 {
            MutationOutcome::Skipped
        } else {
            MutationOutcome::Mutated
        }),
        old(bytes)@.len() >= 2 ==> {
            let i = (offset_draw % ((old(bytes)@.len() - 1) as u64)) as int;
            let v = u16_at(old(bytes)@, i, big_endian);
            let a = spec_arith_amount(amount_draw);
            let nv = if subtract {
                (v + 0x10000 - a) % 0x10000
            } else {
                (v + a) % 0x10000
            };
            final(bytes)@ == spec_splice(old(bytes)@, i, 2, u16_bytes(nv, big_endian))
        },
{
    let n = bytes.len();
    if n < 2 {
        return MutationOutcome::Skipped;
    }
    let i = (offset_draw % ((n - 1) as u64)) as usize;
    let b0 = bytes[i] as u32;
    let b1 = bytes[i + 1] as u32;
    let v: u32 = if big_endian {
        b0 * 0x100 + b1
    } else {
        b0 + b1 * 0x100
    };
    let a: u32 = (1 + amount_draw % 34) as u32;
    let nv: u32 = if subtract {
        (v + 0x10000 - a) % 0x10000
    } else {
        (v + a) % 0x10000
    };
    let lo: u8 = (nv % 0x100) as u8;
    let hi: u8 = ((nv / 0x100) % 0x100) as u8;
    if big_endian {
        bytes.set(i, hi);
        bytes.set(i + 1, lo);
    } else {
        bytes.set(i, lo);
        bytes.set(i + 1, hi);
    }
    proof {
        assert(bytes@ =~= spec_splice(
            old(bytes)@,
            i as int,
            2,
            u16_bytes(nv as int, big_endian),
        ));
    }
    MutationOutcome::Mutated
}

/// Adds or subtracts the drawn amount to the 32-bit value at the drawn
/// offset, read and written in the drawn byte order, wrapping.
pub fn dword_add_mutate(
    bytes: &mut Vec<u8>,
    offset_draw: u64,
    amount_draw: u64,
    subtract: bool,
    big_endian: bool,
) -> (r: MutationOutcome)
    ensures
        r == MutationOutcome::Skipped ==> *final(bytes) == *old(bytes),
        r == (if old(bytes)@.len() < 4 {
            MutationOutcome::Skipped
        } else {
            MutationOutcome::Mutated
        }),
        old(bytes)@.len() >= 4 ==> {
            let i = (offset_draw % ((old(bytes)@.len() - 3) as u64)) as int;
            let v = u32_at(old(bytes)@, i, big_endian);
            let a = spec_arith_amount(amount_draw);
            let nv = if subtract {
                (v + 0x1_0000_0000 - a) % 0x1_0000_0000
            } else {
                (v + a) % 0x1_0000_0000
            };
            final(bytes)@ == spec_splice(old(bytes)@, i, 4, u32_bytes(nv, big_endian))
        },
{
    let n = bytes.len();
    if n < 4 {
        return MutationOutcome::Skipped;
    }
    let i = (offset_draw % ((n - 3) as u64)) as usize;
    let b0 = bytes[i] as u64;
    let b1 = bytes[i + 1] as u64;
    let b2 = bytes[i + 2] as u64;
    let b3 = bytes[i + 3] as u64;
    let v: u64 = if big_endian {
        b0 * 0x100_0000 + b1 * 0x1_0000 + b2 * 0x100 + b3
    } else {
        b0 + b1 * 0x100 + b2 * 0x1_0000 + b3 * 0x100_0000
    };
    let a: u64 = 1 + amount_draw % 34;
    let nv: u64 = if subtract {
        (v + 0x1_0000_0000 - a) % 0x1_0000_0000
    } else {
        (v + a) % 0x1_0000_0000
    };
    let c0: u8 = (nv % 0x100) as u8;
    let c1: u8 = ((nv / 0x100) % 0x100) as u8;
    let c2: u8 = ((nv / 0x1_0000) % 0x100) as u8;
    let c3: u8 = ((nv / 0x100_0000) % 0x100) as u8;
    if big_endian {
        bytes.set(i, c3);
        bytes.set(i + 1, c2);
        bytes.set(i + 2, c1);
        bytes.set(i + 3, c0);
    } else {
        bytes.set(i, c0);
        bytes.set(i + 1, c1);
        bytes.set(i + 2, c2);
        bytes.set(i + 3, c3);
    }
    proof {
        assert(bytes@ =~= spec_splice(
            old(bytes)@,
            i as int,
            4,
            u32_bytes(nv as int, big_endian),
        ));
    }
    MutationOutcome::Mutated
}

fn read_u64_value(bytes: &Vec<u8>, i: usize, big_endian: bool) -> (v: u128)
    requires
        i + 8 <= bytes@.len(),
    ensures
        v == u64_at(bytes@, i as int, big_endian),
        v < 0x1_0000_0000_0000_0000,
{
    let vlen = bytes.len();
    let b0 = bytes[i] as u128;
    let b1 = bytes[i + 1] as u128;
    let b2 = bytes[i + 2] as u128;
    let b3 = bytes[i + 3] as u128;
    let b4 = bytes[i + 4] as u128;
    let b5 = bytes[i + 5] as u128;
    let b6 = bytes[i + 6] as u128;
    let b7 = bytes[i + 7] as u128;
    if big_endian {
        b0 * 0x100_0000_0000_0000 + b1 * 0x1_0000_0000_0000 + b2 * 0x100_0000_0000 + b3
            * 0x1_0000_0000 + b4 * 0x100_0000 + b5 * 0x1_0000 + b6 * 0x100 + b7
    } else {
        b0 + b1 * 0x100 + b2 * 0x1_0000 + b3 * 0x100_0000 + b4 * 0x1_0000_0000 + b5
            * 0x100_0000_0000 + b6 * 0x1_0000_0000_0000 + b7 * 0x100_0000_0000_0000
    }
}

#[verifier::rlimit(60)]
fn write_u64_value(bytes: &mut Vec<u8>, i: usize, nv: u128, big_endian: bool)
    requires
        i + 8 <= old(bytes)@.len(),
        nv < 0x1_0000_0000_0000_0000,
    ensures
        final(bytes)@ == spec_splice(old(bytes)@, i as int, 8, u64_bytes(nv as int, big_endian)),
{
    let vlen = bytes.len();
    let c0: u8 = (nv % 0x100) as u8;
    let c1: u8 = ((nv / 0x100) % 0x100) as u8;
    let c2: u8 = ((nv / 0x1_0000) % 0x100) as u8;
    let c3: u8 = ((nv / 0x100_0000) % 0x100) as u8;
    let c4: u8 = ((nv / 0x1_0000_0000) % 0x100) as u8;
    let c5: u8 = ((nv / 0x100_0000_0000) % 0x100) as u8;
    let c6: u8 = ((nv / 0x1_0000_0000_0000) % 0x100) as u8;
    let c7: u8 = ((nv / 0x100_0000_0000_0000) % 0x100) as u8;
    if big_endian {
        bytes.set(i, c7);
        bytes.set(i + 1, c6);
        bytes.set(i + 2, c5);
        bytes.set(i + 3, c4);
        bytes.set(i + 4, c3);
        bytes.set(i + 5, c2);
        bytes.set(i + 6, c1);
        bytes.set(i + 7, c0);
    } else {
        bytes.set(i, c0);
        bytes.set(i + 1, c1);
        bytes.set(i + 2, c2);
        bytes.set(i + 3, c3);
        bytes.set(i + 4, c4);
        bytes.set(i + 5, c5);
        bytes.set(i + 6, c6);
        bytes.set(i + 7, c7);
    }
    proof {
        assert(bytes@ =~= spec_splice(
            old(bytes)@,
            i as int,
            8,
            u64_bytes(nv as int, big_endian),
        ));
    }
}

/// Adds or subtracts the drawn amount to the 64-bit value at the drawn
/// offset, read and written in the drawn byte order, wrapping.
pub fn qword_add_mutate(
    bytes: &mut Vec<u8>,
    offset_draw: u64,
    amount_draw: u64,
    subtract: bool,
    big_endian: bool,
) -> (r: MutationOutcome)
    ensures
        r == MutationOutcome::Skipped ==> *final(bytes) == *old(bytes),
        r == (if old(bytes)@.len() < 8 {
            MutationOutcome::Skipped
        } else {
            MutationOutcome::Mutated
        }),
        old(bytes)@.len() >= 8 ==> {
            let i = (offset_draw % ((old(bytes)@.len() - 7) as u64)) as int;
            let v = u64_at(old(bytes)@, i, big_endian);
            let a = spec_arith_amount(amount_draw);
            let nv = if subtract {
                (v + 0x1_0000_0000_0000_0000 - a) % 0x1_0000_0000_0000_0000
            } else {
                (v + a) % 0x1_0000_0000_0000_0000
            };
            final(bytes)@ == spec_splice(old(bytes)@, i, 8, u64_bytes(nv, big_endian))
        },
{
    let n = bytes.len();
    if n < 8 {
        return MutationOutcome::Skipped;
    }
    let i = (offset_draw % ((n - 7) as u64)) as usize;
    let v = read_u64_value(bytes, i, big_endian);
    let a: u128 = (1 + amount_draw % 34) as u128;
    let nv: u128 = if subtract {
        (v + 0x1_0000_0000_0000_0000 - a) % 0x1_0000_0000_0000_0000
    } else {
        (v + a) % 0x1_0000_0000_0000_0000
    };
    write_u64_value(bytes, i, nv, big_endian);
    MutationOutcome::Mutated
}



/// The classic one-byte boundary values: signed extremes, zero, one, and
/// the small powers of two, as unsigned bit patterns.
pub open spec fn spec_interesting8(k: int) -> u8 {
    if k == 0 {
        0x80
    } else if k == 1 {
        0xff
    } else if k == 2 {
        0x00
    } else if k == 3 {
        0x01
    } else if k == 4 {
        0x10
    } else if k == 5 {
        0x20
    } else if k == 6 {
        0x40
    } else if k == 7 {
        0x64
    } else {
        0x7f
    }
}

fn interesting8(which_draw: u64) -> (r: u8)
    ensures
        r == spec_interesting8((which_draw % 9) as int),
{
    match which_draw % 9 {
        0 => 0x80,
        1 => 0xff,
        2 => 0x00,
        3 => 0x01,
        4 => 0x10,
        5 => 0x20,
        6 => 0x40,
        7 => 0x64,
        _ => 0x7f,
    }
}

/// The classic two-byte boundary values (the one-byte set sign-extended,
/// plus the 16-bit extremes and round numbers), as unsigned bit patterns.
pub open spec fn spec_interesting16(k: int) -> int {
    if k == 0 {
        0xff80
    } else if k == 1 {
        0xffff
    } else if k == 2 {
        0x0000
    } else if k == 3 {
        0x0001
    } else if k == 4 {
        0x0010
    } else if k == 5 {
        0x0020
    } else if k == 6 {
        0x0040
    } else if k == 7 {
        0x0064
    } else if k == 8 {
        0x007f
    } else if k == 9 {
        0x8000
    } else if k == 10 {
        0xff7f
    } else if k == 11 {
        0x0080
    } else if k == 12 {
        0x00ff
    } else if k == 13 {
        0x0100
    } else if k == 14 {
        0x0200
    } else if k == 15 {
        0x03e8
    } else if k == 16 {
        0x0400
    } else if k == 17 {
        0x1000
    } else {
        0x7fff
    }
}

fn interesting16(which_draw: u64) -> (r: u64)
    ensures
        r == spec_interesting16((which_draw % 19) as int),
        r < 0x1_0000,
{
    match which_draw % 19 {
        0 => 0xff80,
        1 => 0xffff,
        2 => 0x0000,
        3 => 0x0001,
        4 => 0x0010,
        5 => 0x0020,
        6 => 0x0040,
        7 => 0x0064,
        8 => 0x007f,
        9 => 0x8000,
        10 => 0xff7f,
        11 => 0x0080,
        12 => 0x00ff,
        13 => 0x0100,
        14 => 0x0200,
        15 => 0x03e8,
        16 => 0x0400,
        17 => 0x1000,
        _ => 0x7fff,
    }
}

/// The classic four-byte boundary values (the two-byte set sign-extended,
/// plus the 32-bit extremes and near-overflow values), as unsigned bit
/// patterns.
pub open spec fn spec_interesting32(k: int) -> int {
    if k == 0 {
        0xffff_ff80
    } else if k == 1 {
        0xffff_ffff
    } else if k == 2 {
        0x0000_0000
    } else if k == 3 {
        0x0000_0001
    } else if k == 4 {
        0x0000_0010
    } else if k == 5 {
        0x0000_0020
    } else if k == 6 {
        0x0000_0040
    } else if k == 7 {
        0x0000_0064
    } else if k == 8 {
        0x0000_007f
    } else if k == 9 {
        0xffff_8000
    } else if k == 10 {
        0xffff_ff7f
    } else if k == 11 {
        0x0000_0080
    } else if k == 12 {
        0x0000_00ff
    } else if k == 13 {
        0x0000_0100
    } else if k == 14 {
        0x0000_0200
    } else if k == 15 {
        0x0000_03e8
    } else if k == 16 {
        0x0000_0400
    } else if k == 17 {
        0x0000_1000
    } else if k == 18 {
        0x0000_7fff
    } else if k == 19 {
        0x8000_0000
    } else if k == 20 {
        0xf9ff_fffa
    } else if k == 21 {
        0xffff_7fff
    } else if k == 22 {
        0x0000_8000
    } else if k == 23 {
        0x0000_ffff
    } else if k == 24 {
        0x0001_0000
    } else if k == 25 {
        0x0600_0005
    } else {
        0x7fff_ffff
    }
}

fn interesting32(which_draw: u64) -> (r: u64)
    ensures
        r == spec_interesting32((which_draw % 27) as int),
        r < 0x1_0000_0000,
{
    match which_draw % 27 {
        0 => 0xffff_ff80,
        1 => 0xffff_ffff,
        2 => 0x0000_0000,
        3 => 0x0000_0001,
        4 => 0x0000_0010,
        5 => 0x0000_0020,
        6 => 0x0000_0040,
        7 => 0x0000_0064,
        8 => 0x0000_007f,
        9 => 0xffff_8000,
        10 => 0xffff_ff7f,
        11 => 0x0000_0080,
        12 => 0x0000_00ff,
        13 => 0x0000_0100,
        14 => 0x0000_0200,
        15 => 0x0000_03e8,
        16 => 0x0000_0400,
        17 => 0x0000_1000,
        18 => 0x0000_7fff,
        19 => 0x8000_0000,
        20 => 0xf9ff_fffa,
        21 => 0xffff_7fff,
        22 => 0x0000_8000,
        23 => 0x0000_ffff,
        24 => 0x0001_0000,
        25 => 0x0600_0005,
        _ => 0x7fff_ffff,
    }
}

/// Overwrites the byte at the drawn offset with a drawn boundary value.
pub fn byte_interesting_mutate(bytes: &mut Vec<u8>, offset_draw: u64, which_draw: u64) -> (r:
    MutationOutcome)
    ensures
        r == MutationOutcome::Skipped ==> *final(bytes) == *old(bytes),
        r == (if old(bytes)@.len() == 0 {
            MutationOutcome::Skipped
        } else {
            MutationOutcome::Mutated
        }),
        old(bytes)@.len() > 0 ==> {
            let i = (offset_draw % (old(bytes)@.len() as u64)) as int;
            final(bytes)@ == old(bytes)@.update(i, spec_interesting8((which_draw % 9) as int))
        },
{
    let n = bytes.len();
    if n == 0 {
        return MutationOutcome::Skipped;
    }
    let i = (offset_draw % (n as u64)) as usize;
    bytes.set(i, interesting8(which_draw));
    MutationOutcome::Mutated
}

/// Overwrites the two bytes at the drawn offset with a drawn boundary
/// value, in the drawn byte order.
pub fn word_interesting_mutate(
    bytes: &mut Vec<u8>,
    offset_draw: u64,
    which_draw: u64,
    big_endian: bool,
) -> (r: MutationOutcome)
    ensures
        r == MutationOutcome::Skipped ==> *final(bytes) == *old(bytes),
        r == (if old(bytes)@.len() < 2 {
            MutationOutcome::Skipped
        } else {
            MutationOutcome::Mutated
        }),
        old(bytes)@.len() >= 2 ==> {
            let i = (offset_draw % ((old(bytes)@.len() - 1) as u64)) as int;
            final(bytes)@ == spec_splice(
                old(bytes)@,
                i,
                2,
                u16_bytes(spec_interesting16((which_draw % 19) as int), big_endian),
            )
        },
{
    let n = bytes.len();
    if n < 2 {
        return MutationOutcome::Skipped;
    }
    let i = (offset_draw % ((n - 1) as u64)) as usize;
    let v = interesting16(which_draw);
    let lo: u8 = (v % 0x100) as u8;
    let hi: u8 = ((v / 0x100) % 0x100) as u8;
    if big_endian {
        bytes.set(i, hi);
        bytes.set(i + 1, lo);
    } else {
        bytes.set(i, lo);
        bytes.set(i + 1, hi);
    }
    proof {
        assert(bytes@ =~= spec_splice(
            old(bytes)@,
            i as int,
            2,
            u16_bytes(spec_interesting16((which_draw % 19) as int), big_endian),
        ));
    }
    MutationOutcome::Mutated
}

/// Overwrites the four bytes at the drawn offset with a drawn boundary
/// value, in the drawn byte order.
pub fn dword_interesting_mutate(
    bytes: &mut Vec<u8>,
    offset_draw: u64,
    which_draw: u64,
    big_endian: bool,
) -> (r: MutationOutcome)
    ensures
        r == MutationOutcome::Skipped ==> *final(bytes) == *old(bytes),
        r == (if old(bytes)@.len() < 4 {
            MutationOutcome::Skipped
        } else {
            MutationOutcome::Mutated
        }),
        old(bytes)@.len() >= 4 ==> {
            let i = (offset_draw % ((old(bytes)@.len() - 3) as u64)) as int;
            final(bytes)@ == spec_splice(
                old(bytes)@,
                i,
                4,
                u32_bytes(spec_interesting32((which_draw % 27) as int), big_endian),
            )
        },
{
    let n = bytes.len();
    if n < 4 {
        return MutationOutcome::Skipped;
    }
    let i = (offset_draw % ((n - 3) as u64)) as usize;
    let v = interesting32(which_draw);
    let c0: u8 = (v % 0x100) as u8;
    let c1: u8 = ((v / 0x100) % 0x100) as u8;
    let c2: u8 = ((v / 0x1_0000) % 0x100) as u8;
    let c3: u8 = ((v / 0x100_0000) % 0x100) as u8;
    if big_endian {
        bytes.set(i, c3);
        bytes.set(i + 1, c2);
        bytes.set(i + 2, c1);
        bytes.set(i + 3, c0);
    } else {
        bytes.set(i, c0);
        bytes.set(i + 1, c1);
        bytes.set(i + 2, c2);
        bytes.set(i + 3, c3);
    }
    proof {
        assert(bytes@ =~= spec_splice(
            old(bytes)@,
            i as int,
            4,
            u32_bytes(spec_interesting32((which_draw % 27) as int), big_endian),
        ));
    }
    MutationOutcome::Mutated
}



/// Deletes a drawn run of bytes. Skipped on buffers of fewer than two
/// bytes, so the buffer never empties.
pub fn bytes_delete_mutate(bytes: &mut Vec<u8>, offset_draw: u64, len_draw: u64) -> (r:
    MutationOutcome)
    ensures
        r == MutationOutcome::Skipped ==> *final(bytes) == *old(bytes),
        r == (if old(bytes)@.len() < 2 {
            MutationOutcome::Skipped
        } else {
            MutationOutcome::Mutated
        }),
        old(bytes)@.len() >= 2 ==> {
            let i = (offset_draw % (old(bytes)@.len() as u64)) as int;
            let m = 1 + (len_draw as int) % (old(bytes)@.len() - i);
            final(bytes)@ == spec_splice(old(bytes)@, i, m, Seq::<u8>::empty())
        },
{
    let n = bytes.len();
    if n < 2 {
        return MutationOutcome::Skipped;
    }
    let i = (offset_draw % (n as u64)) as usize;
    let m: usize = 1 + (len_draw % ((n - i) as u64)) as usize;
    let empty: Vec<u8> = Vec::new();
    splice_range(bytes, i, m, &empty);
    MutationOutcome::Mutated
}

/// Duplicates a drawn run in place, doubling it. Skipped on an empty buffer
/// or when growing would pass the size cap.
pub fn bytes_expand_mutate(bytes: &mut Vec<u8>, offset_draw: u64, len_draw: u64) -> (r:
    MutationOutcome)
    ensures
        r == MutationOutcome::Skipped ==> *final(bytes) == *old(bytes),
        old(bytes)@.len() == 0 ==> r == MutationOutcome::Skipped,
        old(bytes)@.len() > 0 ==> {
            let i = (offset_draw % (old(bytes)@.len() as u64)) as int;
            let cap = if old(bytes)@.len() - i < 16 {
                old(bytes)@.len() - i
            } else {
                16
            };
            let m = 1 + (len_draw as int) % cap;
            if old(bytes)@.len() + m > HAVOC_MAX_SIZE {
                r == MutationOutcome::Skipped
            } else {
                r == MutationOutcome::Mutated && final(bytes)@ == spec_splice(
                    old(bytes)@,
                    i,
                    0,
                    old(bytes)@.subrange(i, i + m),
                )
            }
        },
{
    let n = bytes.len();
    if n == 0 {
        return MutationOutcome::Skipped;
    }
    let i = (offset_draw % (n as u64)) as usize;
    let cap: usize = if n - i < 16 {
        n - i
    } else {
        16
    };
    let m: usize = 1 + (len_draw % (cap as u64)) as usize;
    if n >= HAVOC_MAX_SIZE || n + m > HAVOC_MAX_SIZE {
        return MutationOutcome::Skipped;
    }
    let ins = read_range(bytes, i, m);
    splice_range(bytes, i, 0, &ins);
    MutationOutcome::Mutated
}

/// Inserts a run of one existing byte at a drawn position. Skipped on an
/// empty buffer or when growing would pass the size cap.
pub fn bytes_insert_mutate(
    bytes: &mut Vec<u8>,
    pos_draw: u64,
    source_draw: u64,
    len_draw: u64,
) -> (r: MutationOutcome)
    ensures
        r == MutationOutcome::Skipped ==> *final(bytes) == *old(bytes),
        old(bytes)@.len() == 0 ==> r == MutationOutcome::Skipped,
        old(bytes)@.len() > 0 ==> {
            let m = 1 + (len_draw as int) % 16;
            if old(bytes)@.len() + m > HAVOC_MAX_SIZE {
                r == MutationOutcome::Skipped
            } else {
                let at = (pos_draw % ((old(bytes)@.len() + 1) as u64)) as int;
                let val = old(bytes)@[(source_draw % (old(bytes)@.len() as u64)) as int];
                r == MutationOutcome::Mutated && final(bytes)@ == spec_splice(
                    old(bytes)@,
                    at,
                    0,
                    Seq::new(m as nat, |k: int| val),
                )
            }
        },
{
    let n = bytes.len();
    if n == 0 {
        return MutationOutcome::Skipped;
    }
    let m: usize = 1 + (len_draw % 16) as usize;
    if n >= HAVOC_MAX_SIZE || n + m > HAVOC_MAX_SIZE {
        return MutationOutcome::Skipped;
    }
    let at = (pos_draw % ((n + 1) as u64)) as usize;
    let val = bytes[(source_draw % (n as u64)) as usize];
    let ins = byte_run(val, m);
    splice_range(bytes, at, 0, &ins);
    MutationOutcome::Mutated
}

/// Inserts a run of a drawn byte at a drawn position; works on an empty
/// buffer too. Skipped when growing would pass the size cap.
pub fn bytes_rand_insert_mutate(
    bytes: &mut Vec<u8>,
    pos_draw: u64,
    value_draw: u64,
    len_draw: u64,
) -> (r: MutationOutcome)
    ensures
        r == MutationOutcome::Skipped ==> *final(bytes) == *old(bytes),
        ({
            let m = 1 + (len_draw as int) % 16;
            if old(bytes)@.len() + m > HAVOC_MAX_SIZE {
                r == MutationOutcome::Skipped
            } else {
                let at = (pos_draw % ((old(bytes)@.len() + 1) as u64)) as int;
                r == MutationOutcome::Mutated && final(bytes)@ == spec_splice(
                    old(bytes)@,
                    at,
                    0,
                    Seq::new(m as nat, |k: int| (value_draw % 256) as u8),
                )
            }
        }),
{
    let n = bytes.len();
    let m: usize = 1 + (len_draw % 16) as usize;
    if n >= HAVOC_MAX_SIZE || n + m > HAVOC_MAX_SIZE {
        return MutationOutcome::Skipped;
    }
    let at = (pos_draw % ((n + 1) as u64)) as usize;
    let ins = byte_run((value_draw % 256) as u8, m);
    splice_range(bytes, at, 0, &ins);
    MutationOutcome::Mutated
}

/// Overwrites a drawn run with one existing byte. Skipped on an empty
/// buffer.
pub fn bytes_set_mutate(
    bytes: &mut Vec<u8>,
    offset_draw: u64,
    source_draw: u64,
    len_draw: u64,
) -> (r: MutationOutcome)
    ensures
        r == MutationOutcome::Skipped ==> *final(bytes) == *old(bytes),
        r == (if old(bytes)@.len() == 0 {
            MutationOutcome::Skipped
        } else {
            MutationOutcome::Mutated
        }),
        old(bytes)@.len() > 0 ==> {
            let i = (offset_draw % (old(bytes)@.len() as u64)) as int;
            let m = 1 + (len_draw as int) % (old(bytes)@.len() - i);
            let val = old(bytes)@[(source_draw % (old(bytes)@.len() as u64)) as int];
            final(bytes)@ == spec_splice(old(bytes)@, i, m, Seq::new(m as nat, |k: int| val))
        },
{
    let n = bytes.len();
    if n == 0 {
        return MutationOutcome::Skipped;
    }
    let i = (offset_draw % (n as u64)) as usize;
    let m: usize = 1 + (len_draw % ((n - i) as u64)) as usize;
    let val = bytes[(source_draw % (n as u64)) as usize];
    let ins = byte_run(val, m);
    splice_range(bytes, i, m, &ins);
    MutationOutcome::Mutated
}

/// Overwrites a drawn run with a drawn byte. Skipped on an empty buffer.
pub fn bytes_rand_set_mutate(
    bytes: &mut Vec<u8>,
    offset_draw: u64,
    value_draw: u64,
    len_draw: u64,
) -> (r: MutationOutcome)
    ensures
        r == MutationOutcome::Skipped ==> *final(bytes) == *old(bytes),
        r == (if old(bytes)@.len() == 0 {
            MutationOutcome::Skipped
        } else {
            MutationOutcome::Mutated
        }),
        old(bytes)@.len() > 0 ==> {
            let i = (offset_draw % (old(bytes)@.len() as u64)) as int;
            let m = 1 + (len_draw as int) % (old(bytes)@.len() - i);
            final(bytes)@ == spec_splice(
                old(bytes)@,
                i,
                m,
                Seq::new(m as nat, |k: int| (value_draw % 256) as u8),
            )
        },
{
    let n = bytes.len();
    if n == 0 {
        return MutationOutcome::Skipped;
    }
    let i = (offset_draw % (n as u64)) as usize;
    let m: usize = 1 + (len_draw % ((n - i) as u64)) as usize;
    let ins = byte_run((value_draw % 256) as u8, m);
    splice_range(bytes, i, m, &ins);
    MutationOutcome::Mutated
}

/// Copies a drawn run onto a drawn position, overwriting (the source bytes
/// are read before the write, so overlap is safe). Skipped on buffers of
/// fewer than two bytes.
pub fn bytes_copy_mutate(
    bytes: &mut Vec<u8>,
    from_draw: u64,
    to_draw: u64,
    len_draw: u64,
) -> (r: MutationOutcome)
    ensures
        r == MutationOutcome::Skipped ==> *final(bytes) == *old(bytes),
        r == (if old(bytes)@.len() < 2 {
            MutationOutcome::Skipped
        } else {
            MutationOutcome::Mutated
        }),
        old(bytes)@.len() >= 2 ==> {
            let from = (from_draw % (old(bytes)@.len() as u64)) as int;
            let to = (to_draw % (old(bytes)@.len() as u64)) as int;
            let room = old(bytes)@.len() - (if from > to {
                from
            } else {
                to
            });
            let m = 1 + (len_draw as int) % room;
            final(bytes)@ == spec_splice(old(bytes)@, to, m, old(bytes)@.subrange(from, from + m))
        },
{
    let n = bytes.len();
    if n < 2 {
        return MutationOutcome::Skipped;
    }
    let from = (from_draw % (n as u64)) as usize;
    let to = (to_draw % (n as u64)) as usize;
    let far = if from > to {
        from
    } else {
        to
    };
    let m: usize = 1 + (len_draw % ((n - far) as u64)) as usize;
    let ins = read_range(bytes, from, m);
    splice_range(bytes, to, m, &ins);
    MutationOutcome::Mutated
}

/// Inserts a copy of a drawn run at a drawn position. Skipped on an empty
/// buffer or when growing would pass the size cap.
pub fn bytes_insert_copy_mutate(
    bytes: &mut Vec<u8>,
    from_draw: u64,
    pos_draw: u64,
    len_draw: u64,
) -> (r: MutationOutcome)
    ensures
        r == MutationOutcome::Skipped ==> *final(bytes) == *old(bytes),
        old(bytes)@.len() == 0 ==> r == MutationOutcome::Skipped,
        old(bytes)@.len() > 0 ==> {
            let from = (from_draw % (old(bytes)@.len() as u64)) as int;
            let m = 1 + (len_draw as int) % (old(bytes)@.len() - from);
            if old(bytes)@.len() + m > HAVOC_MAX_SIZE {
                r == MutationOutcome::Skipped
            } else {
                let at = (pos_draw % ((old(bytes)@.len() + 1) as u64)) as int;
                r == MutationOutcome::Mutated && final(bytes)@ == spec_splice(
                    old(bytes)@,
                    at,
                    0,
                    old(bytes)@.subrange(from, from + m),
                )
            }
        },
{
    let n = bytes.len();
    if n == 0 {
        return MutationOutcome::Skipped;
    }
    let from = (from_draw % (n as u64)) as usize;
    let m: usize = 1 + (len_draw % ((n - from) as u64)) as usize;
    if n >= HAVOC_MAX_SIZE || n + m > HAVOC_MAX_SIZE {
        return MutationOutcome::Skipped;
    }
    let at = (pos_draw % ((n + 1) as u64)) as usize;
    let ins = read_range(bytes, from, m);
    splice_range(bytes, at, 0, &ins);
    MutationOutcome::Mutated
}

/// Swaps two disjoint drawn runs of equal length. Skipped on buffers of
/// fewer than two bytes or when the drawn runs overlap.
pub fn bytes_swap_mutate(
    bytes: &mut Vec<u8>,
    first_draw: u64,
    second_draw: u64,
    len_draw: u64,
) -> (r: MutationOutcome)
    ensures
        r == MutationOutcome::Skipped ==> *final(bytes) == *old(bytes),
        old(bytes)@.len() < 2 ==> r == MutationOutcome::Skipped,
        old(bytes)@.len() >= 2 ==> {
            let a = (first_draw % (old(bytes)@.len() as u64)) as int;
            let b = (second_draw % (old(bytes)@.len() as u64)) as int;
            let room = old(bytes)@.len() - (if a > b {
                a
            } else {
                b
            });
            let m = 1 + (len_draw as int) % room;
            if a + m <= b || b + m <= a {
                r == MutationOutcome::Mutated && final(bytes)@ == spec_splice(
                    spec_splice(old(bytes)@, a, m, old(bytes)@.subrange(b, b + m)),
                    b,
                    m,
                    old(bytes)@.subrange(a, a + m),
                )
            } else {
                r == MutationOutcome::Skipped
            }
        },
{
    let n = bytes.len();
    if n < 2 {
        return MutationOutcome::Skipped;
    }
    let a = (first_draw % (n as u64)) as usize;
    let b = (second_draw % (n as u64)) as usize;
    let far = if a > b {
        a
    } else {
        b
    };
    let m: usize = 1 + (len_draw % ((n - far) as u64)) as usize;
    if !(a + m <= b || b + m <= a) {
        return MutationOutcome::Skipped;
    }
    let run_a = read_range(bytes, a, m);
    let run_b = read_range(bytes, b, m);
    splice_range(bytes, a, m, &run_b);
    proof {
        assert(bytes@.len() == old(bytes)@.len());
        assert(bytes@.subrange(b as int, b + m) =~= old(bytes)@.subrange(b as int, b + m));
    }
    splice_range(bytes, b, m, &run_a);
    MutationOutcome::Mutated
}

/// Which operator a schedule draw selects, out of the twenty-four slots:
/// range deletion holds four slots, so it is drawn four times as often;
/// every other operator holds one.
pub open spec fn spec_havoc_slot(op_draw: u64) -> int {
    let s = (op_draw as int) % 24;
    if s <= 12 {
        s
    } else if s <= 15 {
        12
    } else {
        s - 3
    }
}

/// Maps a schedule draw to the operator number zero through twenty: bit
/// flip, byte increment, decrement, negate, randomize, byte add, word add,
/// dword add, qword add, byte, word and dword interesting values, delete
/// (four slots), expand, insert, random insert, set, random set, copy,
/// insert-copy, swap.
pub fn havoc_slot(op_draw: u64) -> (r: u64)
    ensures
        r == spec_havoc_slot(op_draw),
        r <= 20,
{
    let s = op_draw % 24;
    if s <= 12 {
        s
    } else if s <= 15 {
        12
    } else {
        s - 3
    }
}

} // verus!

//! Rendering of IEEE-754 binary32 values, decoded from little-endian bytes,
//! in pure integer arithmetic: the special values by their names, a finite
//! value as the exact decimal expansion of the number it denotes (a binary32
//! value is a dyadic rational, so its decimal expansion is finite), with
//! trailing fraction zeroes stripped.
//!
//! The exact expansion is this library's fixed choice of decimal rendering.
//! A shortest-round-trip renderer prints fewer digits for values such as a
//! tenth (whose nearest binary32 expands to twenty-seven significant
//! digits); both denote the same value, and the text here always parses
//! back to the very bytes it was rendered from. Integral values, halves,
//! quarters and the other exactly representable decimals print in their
//! short form either way.

use vstd::prelude::*;
use vstd::string::StringExecFns;
use crate::text::dec_digit_char;
use crate::text::dec_digits;
use crate::text::u32_from_le;
use crate::text::u32_of_le;

verus! {

pub open spec fn pow2(k: nat) -> nat
    decreases k,
{
    if k == 0 {
        1
    } else {
        2 * pow2((k - 1) as nat)
    }
}

pub open spec fn pow5(k: nat) -> nat
    decreases k,
{
    if k == 0 {
        1
    } else {
        5 * pow5((k - 1) as nat)
    }
}

pub open spec fn pow10(k: nat) -> nat
    decreases k,
{
    if k == 0 {
        1
    } else {
        10 * pow10((k - 1) as nat)
    }
}

/// The value of a little-endian sequence of decimal digits.
pub open spec fn digits_val(s: Seq<u8>) -> nat
    decreases s.len(),
{
    if s.len() == 0 {
        0
    } else {
        (s[0] + 10 * digits_val(s.skip(1))) as nat
    }
}

pub open spec fn digits_ok(s: Seq<u8>) -> bool {
    forall|k: int| 0 <= k < s.len() ==> s[k] < 10
}

/// The digits of `s` between `lo` and `hi`, rendered most significant first.
pub open spec fn digits_chars(s: Seq<u8>, lo: int, hi: int) -> Seq<char> {
    Seq::new((hi - lo) as nat, |i: int| dec_digit_char(s[hi - 1 - i] as nat))
}

pub open spec fn zero_chars(k: nat) -> Seq<char> {
    Seq::new(k, |i: int| '0')
}

/// `s` with every trailing `'0'` removed.
pub open spec fn strip_trailing_zeros(s: Seq<char>) -> Seq<char>
    decreases s.len(),
{
    if s.len() > 0 && s.last() == '0' {
        strip_trailing_zeros(s.drop_last())
    } else {
        s
    }
}

/// The exact decimal text of `n / 10^j`: integer part (a bare `0` when the
/// value is below one), then a point and the fraction digits when any
/// nonzero fraction digit remains.
pub open spec fn point_text(n: nat, j: nat) -> Seq<char> {
    let ds = dec_digits(n);
    let ip = if ds.len() > j {
        ds.take(ds.len() - j)
    } else {
        seq!['0']
    };
    let fr_raw = if ds.len() > j {
        ds.skip(ds.len() - j)
    } else {
        zero_chars((j - ds.len()) as nat) + ds
    };
    let fr = strip_trailing_zeros(fr_raw);
    if fr.len() == 0 {
        ip
    } else {
        ip + seq!['.'] + fr
    }
}

pub open spec fn f32_sign(u: u32) -> bool {
    u >= 0x8000_0000
}

pub open spec fn f32_exp(u: u32) -> u32 {
    ((u / 0x80_0000) % 0x100) as u32
}

pub open spec fn f32_man(u: u32) -> u32 {
    (u % 0x80_0000) as u32
}

/// The effective significand: the mantissa, with the hidden bit for normals.
pub open spec fn f32_sig(u: u32) -> u32 {
    if f32_exp(u) == 0 {
        f32_man(u)
    } else {
        (f32_man(u) + 0x80_0000) as u32
    }
}

/// The binary exponent `e` with the value equal to `sig * 2^e`.
pub open spec fn f32_bexp(u: u32) -> int {
    (if f32_exp(u) == 0 {
        1
    } else {
        f32_exp(u) as int
    }) - 150
}

/// The exact decimal text of the finite value `(-1)^sign * sig * 2^bexp`.
pub open spec fn finite_float_chars(sign: bool, sig: nat, bexp: int) -> Seq<char> {
    let sign_seq = if sign {
        seq!['-']
    } else {
        Seq::<char>::empty()
    };
    if sig == 0 {
        sign_seq + seq!['0']
    } else if bexp >= 0 {
        sign_seq + dec_digits(sig * pow2(bexp as nat))
    } else {
        sign_seq + point_text(sig * pow5((-bexp) as nat), (-bexp) as nat)
    }
}

/// The text of the binary32 value stored in four little-endian bytes:
/// `Infinity`, `-Infinity` or `NaN` for the specials, else the exact decimal
/// expansion of the value.
pub open spec fn spec_float_text(b0: u8, b1: u8, b2: u8, b3: u8) -> Seq<char> {
    let u = u32_of_le(b0, b1, b2, b3);
    if f32_exp(u) == 255 {
        if f32_man(u) != 0 {
            ("NaN")@
        } else if f32_sign(u) {
            ("-Infinity")@
        } else {
            ("Infinity")@
        }
    } else {
        finite_float_chars(f32_sign(u), f32_sig(u) as nat, f32_bexp(u))
    }
}

proof fn lemma_digits_val_push(s: Seq<u8>, d: u8)
    ensures
        digits_val(s.push(d)) == digits_val(s) + d * pow10(s.len()),
    decreases s.len(),
{
    if s.len() == 0 {
        assert(s.push(d) =~= seq![d]);
        assert(seq![d].skip(1) =~= Seq::<u8>::empty());
        assert(digits_val(s) == 0);
        assert(digits_val(seq![d].skip(1)) == 0);
        assert(digits_val(seq![d]) == d + 10 * digits_val(seq![d].skip(1)));
        assert(pow10(s.len()) == 1);
        assert(d * pow10(s.len()) == d) by (nonlinear_arith)
            requires
                pow10(s.len()) == 1,
        ;
    } else {
        assert(s.push(d).skip(1) =~= s.skip(1).push(d));
        lemma_digits_val_push(s.skip(1), d);
        assert(digits_val(s) == s[0] + 10 * digits_val(s.skip(1)));
        assert(s.push(d)[0] == s[0]);
        assert(digits_val(s.push(d)) == s[0] + 10 * digits_val(s.push(d).skip(1)));
        assert(digits_val(s.push(d)) == s[0] + 10 * (digits_val(s.skip(1)) + d * pow10((s.len() - 1) as nat)));
        assert(10 * (digits_val(s.skip(1)) + d * pow10((s.len() - 1) as nat)) == 10 * digits_val(s.skip(1))
            + d * (10 * pow10((s.len() - 1) as nat))) by (nonlinear_arith);
        assert(pow10(s.len()) == 10 * pow10((s.len() - 1) as nat));
        assert(digits_val(s.push(d)) == digits_val(s) + d * (10 * pow10((s.len() - 1) as nat)));
        assert(d * pow10(s.len()) == d * (10 * pow10((s.len() - 1) as nat)));
    }
}

proof fn lemma_digits_val_upper(s: Seq<u8>)
    requires
        digits_ok(s),
    ensures
        digits_val(s) < pow10(s.len()),
    decreases s.len(),
{
    if s.len() > 0 {
        lemma_digits_val_upper(s.skip(1));
        assert(digits_val(s) == s[0] + 10 * digits_val(s.skip(1)));
        assert(10 * digits_val(s.skip(1)) <= 10 * (pow10((s.len() - 1) as nat) - 1)) by (nonlinear_arith)
            requires
                digits_val(s.skip(1)) <= pow10((s.len() - 1) as nat) - 1,
        ;
        assert(pow10(s.len()) == 10 * pow10((s.len() - 1) as nat));
    }
}

/// Canonical little-endian digits (value at least `10^(len-1)`) have a
/// nonzero leading digit.
proof fn lemma_digits_canonical_last(s: Seq<u8>)
    requires
        digits_ok(s),
        s.len() >= 1,
        digits_val(s) >= pow10((s.len() - 1) as nat),
    ensures
        s.last() != 0,
{
    if s.last() == 0 {
        lemma_digits_val_push(s.drop_last(), s.last());
        assert(s =~= s.drop_last().push(s.last()));
        lemma_digits_val_upper(s.drop_last());
        assert(digits_val(s) == digits_val(s.drop_last()));
    }
}

/// Canonical little-endian digits render, reversed, exactly as the decimal
/// text of their value.
proof fn lemma_digits_to_dec(s: Seq<u8>)
    requires
        digits_ok(s),
        s.len() >= 1,
        digits_val(s) >= pow10((s.len() - 1) as nat),
    ensures
        digits_chars(s, 0, s.len() as int) == dec_digits(digits_val(s)),
    decreases s.len(),
{
    let n = digits_val(s);
    if s.len() == 1 {
        assert(s.skip(1) =~= Seq::<u8>::empty());
        assert(digits_val(s.skip(1)) == 0);
        assert(n == s[0]);
        assert(digits_chars(s, 0, 1) =~= seq![dec_digit_char(s[0] as nat)]);
    } else {
        let t = s.skip(1);
        assert(n == s[0] + 10 * digits_val(t));
        assert(pow10((s.len() - 1) as nat) == 10 * pow10((s.len() - 2) as nat));
        assert(digits_val(t) >= pow10((s.len() - 2) as nat)) by {
            assert(10 * digits_val(t) >= n - s[0]);
            assert(n - s[0] > 10 * pow10((s.len() - 2) as nat) - 10);
            assert(10 * digits_val(t) > 10 * (pow10((s.len() - 2) as nat) - 1));
        }
        assert(digits_val(t) >= 1) by {
            lemma_pow10_pos((s.len() - 2) as nat);
        }
        assert(n >= 10);
        assert(n / 10 == digits_val(t) && n % 10 == s[0]) by (nonlinear_arith)
            requires
                n == s[0] + 10 * digits_val(t),
                0 <= s[0] < 10,
        ;
        lemma_digits_to_dec(t);
        assert(dec_digits(n) == dec_digits(digits_val(t)) + seq![dec_digit_char(s[0] as nat)]);
        assert(digits_chars(s, 0, s.len() as int) =~= digits_chars(t, 0, t.len() as int) + seq![
            dec_digit_char(s[0] as nat),
        ]);
    }
}

proof fn lemma_pow10_pos(k: nat)
    ensures
        pow10(k) >= 1,
    decreases k,
{
    if k > 0 {
        lemma_pow10_pos((k - 1) as nat);
    }
}

/// Little-endian decimal digits of a positive 32-bit value.
fn digits_of_u32(n: u32) -> (v: Vec<u8>)
    requires
        n > 0,
    ensures
        digits_ok(v@),
        digits_val(v@) == n,
        v@.len() >= 1,
        digits_val(v@) >= pow10((v@.len() - 1) as nat),
{
    let mut v: Vec<u8> = Vec::new();
    let mut m: u32 = n;
    proof {
        assert(v@ =~= Seq::<u8>::empty());
        assert(pow10(0) == 1);
        assert(m * pow10(v@.len()) == n) by (nonlinear_arith)
            requires
                m == n,
                pow10(v@.len()) == 1,
        ;
    }
    while m > 0
        invariant
            digits_ok(v@),
            digits_val(v@) + m * pow10(v@.len()) == n,
            m == 0 ==> v@.len() >= 1 && digits_val(v@) >= pow10((v@.len() - 1) as nat),
        decreases m,
    {
        let d: u8 = (m % 10) as u8;
        let ghost old_v = v@;
        let ghost old_m = m;
        v.push(d);
        m = m / 10;
        proof {
            lemma_digits_val_push(old_v, d);
            assert(old_m == 10 * (old_m / 10) + old_m % 10) by (nonlinear_arith);
            assert(old_m * pow10(old_v.len()) == (old_m % 10) * pow10(old_v.len()) + (old_m / 10)
                * (10 * pow10(old_v.len()))) by (nonlinear_arith)
                requires
                    old_m == 10 * (old_m / 10) + old_m % 10,
            ;
            assert(pow10(old_v.len() + 1) == 10 * pow10(old_v.len()));
            if m == 0 {
                assert(d == old_m);
                assert(d >= 1);
                assert(digits_val(v@) == digits_val(old_v) + d * pow10(old_v.len()));
                assert(d * pow10(old_v.len()) >= pow10(old_v.len())) by (nonlinear_arith)
                    requires
                        d >= 1,
                        pow10(old_v.len()) >= 0,
                ;
            }
        }
    }
    v
}

/// Multiplies a canonical little-endian digit vector in place by a factor
/// between two and five.
fn mul_digits(v: &mut Vec<u8>, f: u8)
    requires
        2 <= f <= 5,
        digits_ok(old(v)@),
        old(v)@.len() >= 1,
        digits_val(old(v)@) >= pow10((old(v)@.len() - 1) as nat),
    ensures
        digits_ok(final(v)@),
        digits_val(final(v)@) == f * digits_val(old(v)@),
        final(v)@.len() >= 1,
        digits_val(final(v)@) >= pow10((final(v)@.len() - 1) as nat),
{
    let ghost orig = v@;
    let len = v.len();
    let mut carry: u32 = 0;
    let mut i: usize = 0;
    proof {
        assert(v@.take(0) =~= Seq::<u8>::empty());
        assert(orig.take(0) =~= Seq::<u8>::empty());
        assert(pow10(0) == 1);
        assert(digits_val(v@.take(0)) + carry * pow10(0nat) == f * digits_val(orig.take(0)))
            by (nonlinear_arith)
            requires
                carry == 0,
                digits_val(v@.take(0)) == 0,
                digits_val(orig.take(0)) == 0,
        ;
    }
    while i < len
        invariant
            2 <= f <= 5,
            len == v@.len(),
            len == orig.len(),
            digits_ok(orig),
            i <= len,
            carry < 5,
            digits_ok(v@.take(i as int)),
            forall|k: int| i <= k < len ==> v@[k] == orig[k],
            digits_val(v@.take(i as int)) + carry * pow10(i as nat) == f * digits_val(
                orig.take(i as int),
            ),
        decreases len - i,
    {
        let vi: u8 = v[i];
        proof {
            assert(vi == orig[i as int]);
            assert(vi < 10);
            assert(vi as u32 * f as u32 <= 45) by (nonlinear_arith)
                requires
                    vi < 10,
                    f <= 5,
            ;
        }
        let d: u32 = vi as u32 * f as u32 + carry;
        let ghost prev = v@;
        let ghost prev_carry = carry;
        v.set(i, (d % 10) as u8);
        carry = d / 10;
        proof {
            assert(d < 50);
            assert(carry < 5);
            assert(v@.take(i + 1) =~= prev.take(i as int).push((d % 10) as u8));
            lemma_digits_val_push(prev.take(i as int), (d % 10) as u8);
            assert(orig.take(i + 1) =~= orig.take(i as int).push(orig[i as int]));
            lemma_digits_val_push(orig.take(i as int), orig[i as int]);
            assert(d == 10 * (d / 10) + d % 10) by (nonlinear_arith);
            assert(digits_val(v@.take(i + 1)) + (d / 10) * pow10((i + 1) as nat) == f
                * digits_val(orig.take(i + 1))) by (nonlinear_arith)
                requires
                    digits_val(v@.take(i + 1)) == digits_val(prev.take(i as int)) + (d % 10)
                        * pow10(i as nat),
                    digits_val(prev.take(i as int)) + prev_carry * pow10(i as nat) == f
                        * digits_val(orig.take(i as int)),
                    digits_val(orig.take(i + 1)) == digits_val(orig.take(i as int))
                        + orig[i as int] * pow10(i as nat),
                    d == orig[i as int] * f + prev_carry,
                    d == 10 * (d / 10) + d % 10,
                    pow10((i + 1) as nat) == 10 * pow10(i as nat),
            ;
        }
        i += 1;
    }
    proof {
        assert(v@.take(len as int) =~= v@);
        assert(orig.take(len as int) =~= orig);
    }
    if carry > 0 {
        let ghost before = v@;
        v.push(carry as u8);
        proof {
            lemma_digits_val_push(before, carry as u8);
            assert(digits_val(v@) >= pow10(before.len())) by (nonlinear_arith)
                requires
                    digits_val(v@) == digits_val(before) + carry * pow10(before.len()),
                    carry >= 1,
                    pow10(before.len()) >= 0,
            ;
        }
    } else {
        proof {
            assert(digits_val(v@) == f * digits_val(orig));
            assert(f * digits_val(orig) >= digits_val(orig)) by (nonlinear_arith)
                requires
                    f >= 1,
                    digits_val(orig) >= 0,
            ;
        }
    }
}


proof fn lemma_pow5_pos(k: nat)
    ensures
        pow5(k) >= 1,
    decreases k,
{
    if k > 0 {
        lemma_pow5_pos((k - 1) as nat);
    }
}

proof fn lemma_digits_val_zero(s: Seq<u8>)
    requires
        forall|k: int| 0 <= k < s.len() ==> s[k] == 0,
    ensures
        digits_val(s) == 0,
    decreases s.len(),
{
    if s.len() > 0 {
        lemma_digits_val_zero(s.skip(1));
    }
}

/// Stripping trailing zeroes keeps exactly the prefix before the zero tail.
proof fn lemma_strip_suffix(s: Seq<char>, p: int)
    requires
        0 <= p <= s.len(),
        forall|m: int| p <= m < s.len() ==> s[m] == '0',
        p > 0 ==> s[p - 1] != '0',
    ensures
        strip_trailing_zeros(s) == s.take(p),
    decreases s.len(),
{
    if s.len() > p {
        assert(s.last() == '0');
        lemma_strip_suffix(s.drop_last(), p);
        assert(s.drop_last().take(p) =~= s.take(p));
    } else {
        if p == 0 {
            assert(s.take(0) =~= s);
        } else {
            assert(s.last() == s[p - 1]);
            assert(s.take(p) =~= s);
        }
    }
}

/// `'0'` repeated `k` times.
fn zeros_text(k: usize) -> (r: String)
    ensures
        r@ == zero_chars(k as nat),
{
    let mut out = String::new();
    let mut t: usize = 0;
    proof {
        assert(out@ =~= zero_chars(0));
    }
    while t < k
        invariant
            t <= k,
            out@ == zero_chars(t as nat),
        decreases k - t,
    {
        out.append("0");
        proof {
            reveal_strlit("0");
            assert(out@ =~= zero_chars((t + 1) as nat));
        }
        t += 1;
    }
    out
}

/// The digits of `v` between `lo` and `hi`, most significant first.
fn digits_text(v: &Vec<u8>, lo: usize, hi: usize) -> (r: String)
    requires
        lo <= hi <= v@.len(),
        digits_ok(v@),
    ensures
        r@ == digits_chars(v@, lo as int, hi as int),
{
    let mut out = String::new();
    let mut idx: usize = hi;
    proof {
        assert(out@ =~= digits_chars(v@, hi as int, hi as int));
    }
    while idx > lo
        invariant
            lo <= idx <= hi <= v@.len(),
            digits_ok(v@),
            out@ == digits_chars(v@, idx as int, hi as int),
        decreases idx,
    {
        idx -= 1;
        let d: u8 = v[idx];
        out.append(crate::text::dec_digit_str(d as u128));
        proof {
            assert(out@ =~= digits_chars(v@, idx as int, hi as int));
        }
    }
    out
}

fn first_nonzero(v: &Vec<u8>, upto: usize) -> (r: Option<usize>)
    requires
        upto <= v@.len(),
    ensures
        match r {
            Some(f0) => f0 < upto && v@[f0 as int] != 0 && forall|k: int| 0 <= k < f0 ==> v@[k] == 0,
            None => forall|k: int| 0 <= k < upto ==> v@[k] == 0,
        },
{
    let mut i: usize = 0;
    while i < upto
        invariant
            i <= upto <= v@.len(),
            forall|k: int| 0 <= k < i ==> v@[k] == 0,
        decreases upto - i,
    {
        if v[i] != 0 {
            return Some(i);
        }
        i += 1;
    }
    None
}

/// Little-endian digits of `sig * 2^k`, canonical.
fn pow2_digits(sig: u32, k: u32) -> (v: Vec<u8>)
    requires
        sig > 0,
    ensures
        digits_ok(v@),
        v@.len() >= 1,
        digits_val(v@) >= pow10((v@.len() - 1) as nat),
        digits_val(v@) == sig * pow2(k as nat),
{
    let mut v = digits_of_u32(sig);
    let mut t: u32 = 0;
    proof {
        assert(pow2(0) == 1);
        assert(digits_val(v@) == sig * pow2(0)) by (nonlinear_arith)
            requires
                digits_val(v@) == sig,
                pow2(0) == 1,
        ;
    }
    while t < k
        invariant
            t <= k,
            digits_ok(v@),
            v@.len() >= 1,
            digits_val(v@) >= pow10((v@.len() - 1) as nat),
            digits_val(v@) == sig * pow2(t as nat),
        decreases k - t,
    {
        mul_digits(&mut v, 2);
        proof {
            assert(pow2((t + 1) as nat) == 2 * pow2(t as nat));
            assert(2 * (sig * pow2(t as nat)) == sig * pow2((t + 1) as nat)) by (nonlinear_arith)
                requires
                    pow2((t + 1) as nat) == 2 * pow2(t as nat),
            ;
        }
        t += 1;
    }
    v
}

/// Little-endian digits of `sig * 5^j`, canonical.
fn pow5_digits(sig: u32, j: usize) -> (v: Vec<u8>)
    requires
        sig > 0,
    ensures
        digits_ok(v@),
        v@.len() >= 1,
        digits_val(v@) >= pow10((v@.len() - 1) as nat),
        digits_val(v@) == sig * pow5(j as nat),
{
    let mut v = digits_of_u32(sig);
    let mut t: usize = 0;
    proof {
        assert(pow5(0) == 1);
        assert(digits_val(v@) == sig * pow5(0)) by (nonlinear_arith)
            requires
                digits_val(v@) == sig,
                pow5(0) == 1,
        ;
    }
    while t < j
        invariant
            t <= j,
            digits_ok(v@),
            v@.len() >= 1,
            digits_val(v@) >= pow10((v@.len() - 1) as nat),
            digits_val(v@) == sig * pow5(t as nat),
        decreases j - t,
    {
        mul_digits(&mut v, 5);
        proof {
            assert(pow5((t + 1) as nat) == 5 * pow5(t as nat));
            assert(5 * (sig * pow5(t as nat)) == sig * pow5((t + 1) as nat)) by (nonlinear_arith)
                requires
                    pow5((t + 1) as nat) == 5 * pow5(t as nat),
            ;
        }
        t += 1;
    }
    v
}

/// The decimal text of `digits_val(v) / 10^j` for a canonical digit vector.
#[verifier::rlimit(60)]
fn point_string(v: &Vec<u8>, j: usize) -> (r: String)
    requires
        digits_ok(v@),
        v@.len() >= 1,
        digits_val(v@) >= 1,
        digits_val(v@) >= pow10((v@.len() - 1) as nat),
    ensures
        r@ == point_text(digits_val(v@), j as nat),
{
    let ghost n: nat = digits_val(v@);
    proof {
        lemma_digits_to_dec(v@);
        assert(dec_digits(n).len() == v@.len());
    }
    let len = v.len();
    let ghost ds = dec_digits(n);
    let mut out = String::new();
    if len > j {
        let ip = digits_text(v, j, len);
        out.append(ip.as_str());
        proof {
            assert(ds.take(ds.len() - j) =~= digits_chars(v@, j as int, len as int));
        }
        match first_nonzero(v, j) {
            None => {
                proof {
                    assert(ds.skip(ds.len() - j) =~= digits_chars(v@, 0, j as int));
                    lemma_strip_suffix(ds.skip(ds.len() - j), 0);
                    assert(ds.skip(ds.len() - j).take(0) =~= Seq::<char>::empty());
                    assert(out@ =~= point_text(n, j as nat));
                }
                out
            },
            Some(f0) => {
                out.append(".");
                let fr = digits_text(v, f0, j);
                out.append(fr.as_str());
                proof {
                    reveal_strlit(".");
                    let fr_raw = ds.skip(ds.len() - j);
                    assert(fr_raw =~= digits_chars(v@, 0, j as int));
                    assert(forall|m: int| j - f0 <= m < j ==> fr_raw[m] == '0');
                    assert(fr_raw[j - f0 - 1] == dec_digit_char(v@[f0 as int] as nat));
                    assert(fr_raw[j - f0 - 1] != '0');
                    lemma_strip_suffix(fr_raw, j - f0);
                    assert(fr_raw.take(j - f0) =~= digits_chars(v@, f0 as int, j as int));
                    assert((".")@ =~= seq!['.']);
                    assert(out@ =~= point_text(n, j as nat));
                }
                out
            },
        }
    } else {
        out.append("0");
        proof {
            reveal_strlit("0");
        }
        match first_nonzero(v, len) {
            None => {
                proof {
                    lemma_digits_val_zero(v@.take(len as int));
                    assert(v@.take(len as int) =~= v@);
                    assert(false);
                }
                out
            },
            Some(f0) => {
                out.append(".");
                let zs = zeros_text(j - len);
                out.append(zs.as_str());
                let fr = digits_text(v, f0, len);
                out.append(fr.as_str());
                proof {
                    reveal_strlit(".");
                    reveal_strlit("0");
                    let fr_raw = zero_chars((j - len) as nat) + ds;
                    assert(forall|m: int| j - len <= m < j ==> fr_raw[m] == dec_digit_char(
                        #[trigger] v@[j - 1 - m] as nat,
                    ));
                    assert(forall|m: int| j - f0 <= m < j ==> fr_raw[m] == '0');
                    assert(fr_raw[j - f0 - 1] == dec_digit_char(v@[f0 as int] as nat));
                    assert(fr_raw[j - f0 - 1] != '0');
                    lemma_strip_suffix(fr_raw, j - f0);
                    assert(fr_raw.take(j - f0) =~= zero_chars((j - len) as nat) + digits_chars(
                        v@,
                        f0 as int,
                        len as int,
                    ));
                    assert((".")@ =~= seq!['.']);
                    assert(("0")@ =~= seq!['0']);
                    assert(out@ =~= point_text(n, j as nat));
                }
                out
            },
        }
    }
}

/// The text of the binary32 value stored in four little-endian bytes.
pub fn float_text(b0: u8, b1: u8, b2: u8, b3: u8) -> (r: String)
    ensures
        r@ == spec_float_text(b0, b1, b2, b3),
{
    let u = u32_from_le(b0, b1, b2, b3);
    let exp: u32 = (u / 0x80_0000) % 0x100;
    let man: u32 = u % 0x80_0000;
    let sign = u >= 0x8000_0000;
    if exp == 255 {
        if man != 0 {
            return String::from_str("NaN");
        } else if sign {
            return String::from_str("-Infinity");
        } else {
            return String::from_str("Infinity");
        }
    }
    let sig: u32 = if exp == 0 {
        man
    } else {
        man + 0x80_0000
    };
    let ghost sign_seq: Seq<char> = if sign {
        seq!['-']
    } else {
        Seq::<char>::empty()
    };
    let mut out: String = if sign {
        String::from_str("-")
    } else {
        String::new()
    };
    proof {
        reveal_strlit("-");
        assert(out@ =~= sign_seq);
    }
    if sig == 0 {
        out.append("0");
        proof {
            reveal_strlit("0");
            assert(out@ =~= sign_seq + seq!['0']);
        }
        return out;
    }
    if exp >= 150 {
        let k: u32 = exp - 150;
        let v = pow2_digits(sig, k);
        proof {
            lemma_digits_to_dec(v@);
        }
        let ds = digits_text(&v, 0, v.len());
        out.append(ds.as_str());
        proof {
            assert(digits_chars(v@, 0, v@.len() as int) == dec_digits(digits_val(v@)));
            assert(out@ =~= sign_seq + dec_digits((sig * pow2(k as nat)) as nat));
        }
        return out;
    }
    let e2: u32 = if exp == 0 {
        1
    } else {
        exp
    };
    let j: usize = (150 - e2) as usize;
    let v = pow5_digits(sig, j);
    proof {
        lemma_pow5_pos(j as nat);
        assert(digits_val(v@) >= 1) by (nonlinear_arith)
            requires
                digits_val(v@) == sig * pow5(j as nat),
                sig >= 1,
                pow5(j as nat) >= 1,
        ;
    }
    let ps = point_string(&v, j);
    out.append(ps.as_str());
    out
}

} // verus!

//! Verified text primitives: decimal rendering of integers, little-endian
//! decoding, substring search, trimming and line splitting.

use vstd::prelude::*;
use vstd::string::StrSliceExecFns;
use vstd::string::StringExecFns;

verus! {

/// The character for one decimal digit.
pub open spec fn dec_digit_char(v: nat) -> char {
    if v == 0 {
        '0'
    } else if v == 1 {
        '1'
    } else if v == 2 {
        '2'
    } else if v == 3 {
        '3'
    } else if v == 4 {
        '4'
    } else if v == 5 {
        '5'
    } else if v == 6 {
        '6'
    } else if v == 7 {
        '7'
    } else if v == 8 {
        '8'
    } else {
        '9'
    }
}

/// Decimal rendering of a natural number, most significant digit first,
/// no leading zeroes (a single `0` for zero).
pub open spec fn dec_digits(n: nat) -> Seq<char>
    decreases n,
{
    if n < 10 {
        seq![dec_digit_char(n)]
    } else {
        dec_digits(n / 10) + seq![dec_digit_char(n % 10)]
    }
}

/// Decimal rendering of an integer, with a leading `-` when negative.
pub open spec fn signed_dec_digits(v: int) -> Seq<char> {
    if v < 0 {
        seq!['-'] + dec_digits((-v) as nat)
    } else {
        dec_digits(v as nat)
    }
}

pub fn dec_digit_str(v: u128) -> (r: &'static str)
    requires
        v < 10,
    ensures
        r@ == seq![dec_digit_char(v as nat)],
{
    proof {
        reveal_strlit("0");
        reveal_strlit("1");
        reveal_strlit("2");
        reveal_strlit("3");
        reveal_strlit("4");
        reveal_strlit("5");
        reveal_strlit("6");
        reveal_strlit("7");
        reveal_strlit("8");
        reveal_strlit("9");
    }
    let r: &'static str = if v == 0 {
        "0"
    } else if v == 1 {
        "1"
    } else if v == 2 {
        "2"
    } else if v == 3 {
        "3"
    } else if v == 4 {
        "4"
    } else if v == 5 {
        "5"
    } else if v == 6 {
        "6"
    } else if v == 7 {
        "7"
    } else if v == 8 {
        "8"
    } else {
        "9"
    };
    proof {
        assert(r@ =~= seq![dec_digit_char(v as nat)]);
    }
    r
}

/// Decimal text of an unsigned 128-bit value.
pub fn u128_text(n: u128) -> (r: String)
    ensures
        r@ == dec_digits(n as nat),
    decreases n,
{
    if n < 10 {
        String::from_str(dec_digit_str(n))
    } else {
        let prefix = u128_text(n / 10);
        let r = prefix.concat(dec_digit_str(n % 10));
        r
    }
}

/// Decimal text of an unsigned 64-bit value.
pub fn u64_text(n: u64) -> (r: String)
    ensures
        r@ == dec_digits(n as nat),
{
    u128_text(n as u128)
}

/// Decimal text of a usize value.
pub fn usize_text(n: usize) -> (r: String)
    ensures
        r@ == dec_digits(n as nat),
{
    u128_text(n as u128)
}

/// The unsigned 32-bit value of four little-endian bytes.
pub open spec fn u32_of_le(b0: u8, b1: u8, b2: u8, b3: u8) -> u32 {
    (b0 + b1 * 0x100 + b2 * 0x10000 + b3 * 0x1000000) as u32
}

/// The two's-complement reading of an unsigned 32-bit value.
pub open spec fn i32_val(u: u32) -> int {
    if u < 0x8000_0000 {
        u as int
    } else {
        u - 0x1_0000_0000
    }
}

/// The two's-complement reading of an unsigned 64-bit value.
pub open spec fn i64_val(u: u64) -> int {
    if u < 0x8000_0000_0000_0000 {
        u as int
    } else {
        u - 0x1_0000_0000_0000_0000
    }
}

pub fn u32_from_le(b0: u8, b1: u8, b2: u8, b3: u8) -> (r: u32)
    ensures
        r == u32_of_le(b0, b1, b2, b3),
{
    b0 as u32 + b1 as u32 * 0x100 + b2 as u32 * 0x10000 + b3 as u32 * 0x1000000
}

/// The unsigned 64-bit value of eight little-endian bytes.
pub open spec fn u64_of_le(
    b0: u8,
    b1: u8,
    b2: u8,
    b3: u8,
    b4: u8,
    b5: u8,
    b6: u8,
    b7: u8,
) -> u64 {
    (b0 + b1 * 0x100 + b2 * 0x10000 + b3 * 0x1000000 + b4 * 0x1_0000_0000 + b5 * 0x100_0000_0000
        + b6 * 0x1_0000_0000_0000 + b7 * 0x100_0000_0000_0000) as u64
}

pub fn u64_from_le(b0: u8, b1: u8, b2: u8, b3: u8, b4: u8, b5: u8, b6: u8, b7: u8) -> (r: u64)
    ensures
        r == u64_of_le(b0, b1, b2, b3, b4, b5, b6, b7),
{
    b0 as u64 + b1 as u64 * 0x100 + b2 as u64 * 0x10000 + b3 as u64 * 0x1000000 + b4 as u64
        * 0x1_0000_0000 + b5 as u64 * 0x100_0000_0000 + b6 as u64 * 0x1_0000_0000_0000 + b7 as u64
        * 0x100_0000_0000_0000
}

/// Decimal text of the signed reading of an unsigned 32-bit value.
pub fn i32_text(u: u32) -> (r: String)
    ensures
        r@ == signed_dec_digits(i32_val(u)),
{
    if u < 0x8000_0000 {
        u128_text(u as u128)
    } else {
        proof {
            reveal_strlit("-");
        }
        let mag: u64 = 0x1_0000_0000u64 - u as u64;
        let r = String::from_str("-").concat(u128_text(mag as u128).as_str());
        proof {
            assert(("-")@ =~= seq!['-']);
            assert(mag == -i32_val(u));
        }
        r
    }
}

/// Decimal text of the signed reading of an unsigned 64-bit value.
pub fn i64_text(u: u64) -> (r: String)
    ensures
        r@ == signed_dec_digits(i64_val(u)),
{
    if u < 0x8000_0000_0000_0000 {
        u128_text(u as u128)
    } else {
        proof {
            reveal_strlit("-");
        }
        let mag: u128 = 0x1_0000_0000_0000_0000u128 - u as u128;
        let r = String::from_str("-").concat(u128_text(mag).as_str());
        proof {
            assert(("-")@ =~= seq!['-']);
            assert(mag == -i64_val(u));
        }
        r
    }
}

/// Whether two string slices hold the same characters.
pub fn str_eq(a: &str, b: &str) -> (r: bool)
    ensures
        r == (a@ == b@),
{
    let sa = String::from_str(a);
    let sb = String::from_str(b);
    sa == sb
}

/// Whether the character sequence `n` occurs as a contiguous subsequence of `h`.
pub open spec fn seq_contains_sub(h: Seq<char>, n: Seq<char>) -> bool {
    exists|i: int| 0 <= i && i + n.len() <= h.len() && #[trigger] h.subrange(i, i + n.len()) == n
}

fn matches_at(h: &str, n: &str, i: usize) -> (r: bool)
    requires
        i + n@.len() <= h@.len(),
    ensures
        r == (h@.subrange(i as int, i + n@.len()) == n@),
{
    let hl = h.unicode_len();
    let nl = n.unicode_len();
    let mut j: usize = 0;
    while j < nl
        invariant
            hl == h@.len(),
            nl == n@.len(),
            i + nl <= hl,
            j <= nl,
            forall|k: int| 0 <= k < j ==> h@[i + k] == n@[k],
        decreases nl - j,
    {
        if h.get_char(i + j) != n.get_char(j) {
            proof {
                assert(h@.subrange(i as int, i + n@.len())[j as int] != n@[j as int]);
            }
            return false;
        }
        j += 1;
    }
    proof {
        assert(h@.subrange(i as int, i + n@.len()) =~= n@);
    }
    true
}

/// Whether `h` contains `n` as a substring (character-wise).
pub fn str_contains(h: &str, n: &str) -> (r: bool)
    ensures
        r == seq_contains_sub(h@, n@),
{
    let hl = h.unicode_len();
    let nl = n.unicode_len();
    if nl > hl {
        return false;
    }
    if nl == 0 {
        proof {
            assert(h@.subrange(0, 0 + n@.len() as int) =~= n@);
        }
        return true;
    }
    let mut i: usize = 0;
    while i <= hl - nl
        invariant
            1 <= nl <= hl,
            hl == h@.len(),
            nl == n@.len(),
            i <= hl - nl + 1,
            forall|k: int| 0 <= k < i ==> #[trigger] h@.subrange(k, k + n@.len()) != n@,
        decreases hl - nl - i + 1,
    {
        if matches_at(h, n, i) {
            return true;
        }
        i += 1;
    }
    proof {
        assert(forall|k: int| 0 <= k && k + n@.len() <= h@.len() ==> #[trigger] h@.subrange(
            k,
            k + n@.len(),
        ) != n@);
    }
    false
}

/// The characters with the Unicode `White_Space` property, those that
/// `str::trim` removes.
pub open spec fn is_space_char(c: char) -> bool {
    c == '\u{0009}' || c == '\u{000A}' || c == '\u{000B}' || c == '\u{000C}' || c == '\u{000D}'
        || c == '\u{0020}' || c == '\u{0085}' || c == '\u{00A0}' || c == '\u{1680}' || c
        == '\u{2000}' || c == '\u{2001}' || c == '\u{2002}' || c == '\u{2003}' || c == '\u{2004}'
        || c == '\u{2005}' || c == '\u{2006}' || c == '\u{2007}' || c == '\u{2008}' || c
        == '\u{2009}' || c == '\u{200A}' || c == '\u{2028}' || c == '\u{2029}' || c == '\u{202F}'
        || c == '\u{205F}' || c == '\u{3000}'
}

fn is_space(c: char) -> (r: bool)
    ensures
        r == is_space_char(c),
{
    c == '\u{0009}' || c == '\u{000A}' || c == '\u{000B}' || c == '\u{000C}' || c == '\u{000D}'
        || c == '\u{0020}' || c == '\u{0085}' || c == '\u{00A0}' || c == '\u{1680}' || c
        == '\u{2000}' || c == '\u{2001}' || c == '\u{2002}' || c == '\u{2003}' || c == '\u{2004}'
        || c == '\u{2005}' || c == '\u{2006}' || c == '\u{2007}' || c == '\u{2008}' || c
        == '\u{2009}' || c == '\u{200A}' || c == '\u{2028}' || c == '\u{2029}' || c == '\u{202F}'
        || c == '\u{205F}' || c == '\u{3000}'
}

/// `s` with leading and trailing whitespace removed: the subrange between the
/// first and last non-space characters.
pub open spec fn spec_trim(s: Seq<char>) -> Seq<char> {
    if forall|k: int| 0 <= k < s.len() ==> is_space_char(s[k]) {
        Seq::<char>::empty()
    } else {
        let lo = choose|lo: int|
            0 <= lo < s.len() && !is_space_char(s[lo]) && forall|k: int|
                0 <= k < lo ==> is_space_char(s[k]);
        let hi = choose|hi: int|
            lo <= hi < s.len() && !is_space_char(s[hi]) && forall|k: int|
                hi < k < s.len() ==> is_space_char(s[k]);
        s.subrange(lo, hi + 1)
    }
}

/// `str::trim`: strips Unicode whitespace from both ends.
pub fn trim(s: &str) -> (r: String)
    ensures
        r@ == spec_trim(s@),
{
    let len = s.unicode_len();
    let mut lo: usize = 0;
    while lo < len && is_space(s.get_char(lo))
        invariant
            len == s@.len(),
            lo <= len,
            forall|k: int| 0 <= k < lo ==> is_space_char(s@[k]),
        decreases len - lo,
    {
        lo += 1;
    }
    if lo == len {
        proof {
            assert(spec_trim(s@) =~= Seq::<char>::empty());
        }
        return String::new();
    }
    let mut hi: usize = len - 1;
    while hi > lo && is_space(s.get_char(hi))
        invariant
            len == s@.len(),
            lo < len,
            lo <= hi < len,
            !is_space_char(s@[lo as int]),
            forall|k: int| 0 <= k < lo ==> is_space_char(s@[k]),
            forall|k: int| hi < k < len ==> is_space_char(s@[k]),
        decreases hi,
    {
        hi -= 1;
    }
    let r = s.substring_char(lo, hi + 1).to_owned();
    proof {
        let lo0 = choose|l: int|
            0 <= l < s@.len() && !is_space_char(s@[l]) && forall|k: int|
                0 <= k < l ==> is_space_char(s@[k]);
        assert(lo0 == lo) by {
            if lo0 < lo {
                assert(is_space_char(s@[lo0]));
            }
            if lo0 > lo {
                assert(is_space_char(s@[lo as int]));
            }
        }
        let hi0 = choose|h: int|
            lo0 <= h < s@.len() && !is_space_char(s@[h]) && forall|k: int|
                h < k < s@.len() ==> is_space_char(s@[k]);
        assert(hi0 == hi) by {
            if hi0 < hi {
                assert(is_space_char(s@[hi as int]));
            }
            if hi0 > hi {
                assert(is_space_char(s@[hi0]));
            }
        }
        assert(r@ =~= spec_trim(s@));
    }
    r
}

/// The first index at or after `from` where `c` occurs in `s`, or `-1`.
pub open spec fn find_at(s: Seq<char>, from: int, c: char) -> int
    decreases s.len() - from,
{
    if from < 0 || from >= s.len() {
        -1
    } else if s[from] == c {
        from
    } else {
        find_at(s, from + 1, c)
    }
}

proof fn lemma_find_at_skip(s: Seq<char>, from: int, upto: int, c: char)
    requires
        0 <= from <= upto <= s.len(),
        forall|k: int| from <= k < upto ==> s[k] != c,
    ensures
        find_at(s, from, c) == find_at(s, upto, c),
    decreases upto - from,
{
    if from < upto {
        lemma_find_at_skip(s, from + 1, upto, c);
    }
}

/// The first occurrence of `c` in `s` at or after `from`.
pub fn find_char_at(s: &str, from: usize, c: char) -> (r: Option<usize>)
    requires
        from <= s@.len(),
    ensures
        match r {
            Some(i) => from <= i < s@.len() && find_at(s@, from as int, c) == i,
            None => find_at(s@, from as int, c) == -1,
        },
{
    let len = s.unicode_len();
    let mut i: usize = from;
    while i < len
        invariant
            len == s@.len(),
            from <= i <= len,
            forall|k: int| from <= k < i ==> s@[k] != c,
        decreases len - i,
    {
        if s.get_char(i) == c {
            proof {
                lemma_find_at_skip(s@, from as int, i as int, c);
            }
            return Some(i);
        }
        i += 1;
    }
    proof {
        lemma_find_at_skip(s@, from as int, len as int, c);
    }
    None
}

} // verus!

//! Base64 encoding (standard alphabet, `=` padding), used to print keys.

use crate::text::push_char;
use vstd::prelude::*;

verus! {

/// The character of a 6-bit value in the standard Base64 alphabet
/// (`A`–`Z`, `a`–`z`, `0`–`9`, `+`, `/`).
pub open spec fn b64_digit(v: int) -> char {
    if v < 26 {
        (('A' as int) + v) as char
    } else if v < 52 {
        (('a' as int) + (v - 26)) as char
    } else if v < 62 {
        (('0' as int) + (v - 52)) as char
    } else if v == 62 {
        '+'
    } else {
        '/'
    }
}

/// Byte `i` of `d`, or zero past its end.
pub open spec fn byte_or_zero(d: Seq<u8>, i: int) -> int {
    if 0 <= i < d.len() {
        d[i] as int
    } else {
        0
    }
}

/// The 6-bit value `j` (0 to 3) of the 3-byte group `k` of `d`, missing bytes
/// read as zero.
pub open spec fn sextet(d: Seq<u8>, k: int, j: int) -> int {
    let b0 = byte_or_zero(d, 3 * k);
    let b1 = byte_or_zero(d, 3 * k + 1);
    let b2 = byte_or_zero(d, 3 * k + 2);
    if j == 0 {
        b0 / 4
    } else if j == 1 {
        (b0 % 4) * 16 + b1 / 16
    } else if j == 2 {
        (b1 % 16) * 4 + b2 / 64
    } else {
        b2 % 64
    }
}

/// Character `p` of the encoding of `d`: the third character of a group is
/// `=` when the group lacks its second byte, the fourth when it lacks its
/// third.
pub open spec fn base64_char(d: Seq<u8>, p: int) -> char {
    let k = p / 4;
    let j = p % 4;
    if j == 2 && 3 * k + 1 >= d.len() {
        '='
    } else if j == 3 && 3 * k + 2 >= d.len() {
        '='
    } else {
        b64_digit(sextet(d, k, j))
    }
}

/// The Base64 encoding of `d`: four characters for each group of three
/// bytes, the last group padded.
pub open spec fn base64(d: Seq<u8>) -> Seq<char> {
    Seq::new((4 * ((d.len() + 2) / 3)) as nat, |p: int| base64_char(d, p))
}

fn digit(v: u8) -> (c: char)
    requires
        v < 64,
    ensures
        c == b64_digit(v as int),
{
    if v < 26 {
        (65u8 + v) as char
    } else if v < 52 {
        (97u8 + (v - 26)) as char
    } else if v < 62 {
        (48u8 + (v - 52)) as char
    } else if v == 62 {
        '+'
    } else {
        '/'
    }
}

/// Encode bytes as Base64 with padding.
pub fn base64_encode(data: &[u8]) -> (s: String)
    ensures
        s@ == base64(data@),
{
    let ghost d = data@;
    let n = data.len();
    let mut result = String::new();
    let mut i: usize = 0;
    let ghost mut k: int = 0;
    while i < n
        invariant
            d == data@,
            n == d.len(),
            0 <= k,
            i == (if 3 * k <= n { 3 * k } else { n as int }),
            k == 0 || 3 * (k - 1) < n,
            4 * k <= base64(d).len(),
            result@ == base64(d).subrange(0, 4 * k),
        decreases n - i,
    {
        let b0: u8 = data[i];
        let b1: u8 = if i + 1 < n { data[i + 1] } else { 0 };
        let b2: u8 = if i + 2 < n { data[i + 2] } else { 0 };
        proof {
            assert(3 * k == i);
            assert(b0 as int == byte_or_zero(d, 3 * k));
            assert(b1 as int == byte_or_zero(d, 3 * k + 1));
            assert(b2 as int == byte_or_zero(d, 3 * k + 2));
        }
        let c0: u8 = b0 >> 2u8;
        let c1: u8 = ((b0 & 0x03) << 4u8) | (b1 >> 4u8);
        let c2: u8 = ((b1 & 0x0f) << 2u8) | (b2 >> 6u8);
        let c3: u8 = b2 & 0x3f;
        assert(c0 == b0 / 4 && c1 == (b0 % 4) * 16 + b1 / 16 && c2 == (b1 % 16) * 4 + b2 / 64 && c3 == b2 % 64)
            by (bit_vector)
            requires
                c0 == b0 >> 2u8,
                c1 == ((b0 & 0x03) << 4u8) | (b1 >> 4u8),
                c2 == ((b1 & 0x0f) << 2u8) | (b2 >> 6u8),
                c3 == b2 & 0x3f,
        ;
        push_char(&mut result, digit(c0));
        push_char(&mut result, digit(c1));
        if i + 1 < n {
            push_char(&mut result, digit(c2));
        } else {
            push_char(&mut result, '=');
        }
        if i + 2 < n {
            push_char(&mut result, digit(c3));
        } else {
            push_char(&mut result, '=');
        }
        proof {
            let e = base64(d);
            assert(4 * k + 4 <= e.len());
            assert(e[4 * k] == base64_char(d, 4 * k));
            assert((4 * k) / 4 == k && (4 * k) % 4 == 0);
            assert((4 * k + 1) / 4 == k && (4 * k + 1) % 4 == 1);
            assert((4 * k + 2) / 4 == k && (4 * k + 2) % 4 == 2);
            assert((4 * k + 3) / 4 == k && (4 * k + 3) % 4 == 3);
            assert(result@ =~= e.subrange(0, 4 * k + 4));
        }
        i = if n - i > 3 { i + 3 } else { n };
        proof {
            k = k + 1;
        }
    }
    proof {
        assert(4 * k == base64(d).len());
        assert(result@ =~= base64(d));
    }
    result
}

} // verus!

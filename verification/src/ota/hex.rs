//! Hex encoding utilities (lower-case encoding, decoding in pairs of bytes).

use vstd::prelude::*;
use vstd::utf8::{is_char_boundary, valid_utf8, valid_first_scalar, pop_first_scalar};
use vstd::string::StringSliceAdditionalSpecFns;
use crate::text::{push_char, append_str};

verus! {

/// The lower-case hex digit of a nibble.
pub open spec fn hex_digit(n: nat) -> char {
    if n < 10 {
        (('0' as u32) + n) as char
    } else {
        (('a' as u32) + (n - 10)) as char
    }
}

/// The two lower-case hex digits of a byte.
pub open spec fn hex_byte(b: u8) -> Seq<char> {
    seq![hex_digit((b / 16) as nat), hex_digit((b % 16) as nat)]
}

/// The lower-case hex encoding of a byte sequence: two digits per byte.
pub open spec fn hex_encode(bytes: Seq<u8>) -> Seq<char>
    decreases bytes.len(),
{
    if bytes.len() == 0 {
        Seq::empty()
    } else {
        hex_encode(bytes.drop_last()) + hex_byte(bytes.last())
    }
}

/// The value of an ASCII hex digit (either case), if the byte is one.
pub open spec fn hex_value(b: u8) -> Option<u8> {
    if 48 <= b <= 57 {
        Some((b - 48) as u8)
    } else if 97 <= b <= 102 {
        Some((b - 87) as u8)
    } else if 65 <= b <= 70 {
        Some((b - 55) as u8)
    } else {
        None
    }
}

/// The value of a two-byte string read as a base-16 `u8`: two hex digits, or
/// a `+` sign followed by one hex digit.
pub open spec fn pair_value(b0: u8, b1: u8) -> Option<u8> {
    match (hex_value(b0), hex_value(b1)) {
        (Some(hi), Some(lo)) => Some((hi * 16 + lo) as u8),
        (None, Some(lo)) => if b0 == 43 { Some(lo) } else { None },
        _ => None,
    }
}

/// Whether every pair of bytes of `bytes` (at even offsets) has a value.
pub open spec fn all_pairs_valid(bytes: Seq<u8>) -> bool {
    forall|k: int| 0 <= k < bytes.len() / 2 ==> #[trigger] pair_value(bytes[2 * k], bytes[2 * k + 1]) is Some
}

/// The bytes that the pairs of `bytes` decode to.
pub open spec fn decoded(bytes: Seq<u8>) -> Seq<u8> {
    Seq::new((bytes.len() / 2) as nat, |k: int| pair_value(bytes[2 * k], bytes[2 * k + 1])->0)
}

/// Slicing the string at every even byte offset is well-defined.
pub open spec fn even_offsets_on_boundaries(bytes: Seq<u8>) -> bool {
    forall|i: int| 0 <= i < bytes.len() && i % 2 == 0 ==> #[trigger] is_char_boundary(bytes, i)
}

fn nibble_char(n: u8) -> (c: char)
    requires
        n < 16,
    ensures
        c == hex_digit(n as nat),
{
    if n < 10 {
        ((48u8 + n) as char)
    } else {
        ((87u8 + n) as char)
    }
}

/// Encode bytes as a lower-case hex string.
pub fn encode(bytes: &[u8]) -> (s: String)
    ensures
        s@ == hex_encode(bytes@),
{
    let mut s = String::new();
    let mut i: usize = 0;
    while i < bytes.len()
        invariant
            i <= bytes@.len(),
            s@ == hex_encode(bytes@.subrange(0, i as int)),
        decreases bytes@.len() - i,
    {
        let b = bytes[i];
        push_char(&mut s, nibble_char(b / 16));
        push_char(&mut s, nibble_char(b % 16));
        proof {
            let pre = bytes@.subrange(0, i as int + 1);
            assert(pre.drop_last() =~= bytes@.subrange(0, i as int));
            assert(pre.last() == b);
            assert(s@ =~= hex_encode(pre));
        }
        i = i + 1;
    }
    proof {
        assert(bytes@.subrange(0, bytes@.len() as int) =~= bytes@);
    }
    s
}

fn hex_value_exec(b: u8) -> (r: Option<u8>)
    ensures
        r == hex_value(b),
{
    if 48 <= b && b <= 57 {
        Some(b - 48)
    } else if 97 <= b && b <= 102 {
        Some(b - 87)
    } else if 65 <= b && b <= 70 {
        Some(b - 55)
    } else {
        None
    }
}

fn pair_value_exec(b0: u8, b1: u8) -> (r: Option<u8>)
    ensures
        r == pair_value(b0, b1),
{
    match (hex_value_exec(b0), hex_value_exec(b1)) {
        (Some(hi), Some(lo)) => {
            assert(hi < 16 && lo < 16);
            Some(hi * 16 + lo)
        },
        (None, Some(lo)) => if b0 == 43 {
            Some(lo)
        } else {
            None
        },
        _ => None,
    }
}

/// The error text of decoding a string of odd length.
pub open spec fn odd_length_message() -> Seq<char> {
    "Invalid hex string length"@
}

/// The error text of decoding a pair that is no base-16 number.
pub open spec fn invalid_digit_message() -> Seq<char> {
    "Invalid hex: invalid digit found in string"@
}

/// Decode a hex string: each pair of bytes is read as a base-16 `u8`.
///
/// Fails on a string of odd length, and on a pair that is not a number.
pub fn decode(s: &str) -> (res: Result<Vec<u8>, String>)
    requires
        even_offsets_on_boundaries(s.spec_bytes()),
    ensures
        s.spec_bytes().len() % 2 != 0 ==> (res matches Err(m) && m@ == odd_length_message()),
        s.spec_bytes().len() % 2 == 0 && all_pairs_valid(s.spec_bytes()) ==> (res matches Ok(v)
            && v@ == decoded(s.spec_bytes())),
        s.spec_bytes().len() % 2 == 0 && !all_pairs_valid(s.spec_bytes()) ==> (res matches Err(m)
            && m@ == invalid_digit_message()),
{
    let bytes = s.as_bytes();
    let n = bytes.len();
    if n % 2 != 0 {
        let mut m = String::new();
        append_str(&mut m, "Invalid hex string length");
        proof {
            reveal_strlit("Invalid hex string length");
            assert(m@ =~= odd_length_message());
        }
        return Err(m);
    }
    let ghost bs = s.spec_bytes();
    let mut out: Vec<u8> = Vec::new();
    let mut k: usize = 0;
    while k < n / 2
        invariant
            bytes@ == bs,
            bs == s.spec_bytes(),
            n == bs.len(),
            n % 2 == 0,
            k <= n / 2,
            out@.len() == k,
            forall|j: int| 0 <= j < k ==> #[trigger] pair_value(bs[2 * j], bs[2 * j + 1]) is Some,
            forall|j: int| 0 <= j < k ==> out@[j] == #[trigger] pair_value(bs[2 * j], bs[2 * j + 1])->0,
        decreases n / 2 - k,
    {
        let b0 = bytes[2 * k];
        let b1 = bytes[2 * k + 1];
        match pair_value_exec(b0, b1) {
            Some(v) => {
                out.push(v);
            },
            None => {
                let mut m = String::new();
                append_str(&mut m, "Invalid hex: invalid digit found in string");
                proof {
                    reveal_strlit("Invalid hex: invalid digit found in string");
                    assert(m@ =~= invalid_digit_message());
                    assert(!(pair_value(bs[2 * (k as int)], bs[2 * (k as int) + 1]) is Some));
                }
                return Err(m);
            },
        }
        k = k + 1;
    }
    proof {
        assert(out@ =~= decoded(bs));
    }
    Ok(out)
}

/// Encoding then decoding gives back the bytes: every pair of an encoding is
/// two lower-case hex digits, whose value is the byte.
pub proof fn lemma_encode_pairs(bytes: Seq<u8>)
    ensures
        hex_encode(bytes).len() == 2 * bytes.len(),
        forall|k: int| 0 <= k < bytes.len() ==> #[trigger] hex_encode(bytes)[2 * k] == hex_digit((bytes[k] / 16) as nat)
            && hex_encode(bytes)[2 * k + 1] == hex_digit((bytes[k] % 16) as nat),
    decreases bytes.len(),
{
    if bytes.len() > 0 {
        lemma_encode_pairs(bytes.drop_last());
        let prev = hex_encode(bytes.drop_last());
        assert forall|k: int| 0 <= k < bytes.len() implies #[trigger] hex_encode(bytes)[2 * k] == hex_digit((bytes[k] / 16) as nat)
            && hex_encode(bytes)[2 * k + 1] == hex_digit((bytes[k] % 16) as nat) by {
            if k < bytes.len() - 1 {
                assert(bytes.drop_last()[k] == bytes[k]);
                assert(prev[2 * k] == hex_digit((bytes.drop_last()[k] / 16) as nat));
            }
        }
    }
}


/// Whether every byte is below 128 (ASCII).
pub open spec fn ascii_bytes(b: Seq<u8>) -> bool {
    forall|i: int| 0 <= i < b.len() ==> #[trigger] b[i] < 128
}

/// ASCII bytes are valid UTF-8, and every offset in them is a character
/// boundary.
pub proof fn lemma_ascii_boundaries(b: Seq<u8>)
    requires
        ascii_bytes(b),
    ensures
        valid_utf8(b),
        forall|i: int| 0 <= i <= b.len() ==> #[trigger] is_char_boundary(b, i),
    decreases b.len(),
{
    if b.len() > 0 {
        let rest = b.subrange(1, b.len() as int);
        assert(ascii_bytes(rest)) by {
            assert forall|i: int| 0 <= i < rest.len() implies #[trigger] rest[i] < 128 by {
                assert(rest[i] == b[i + 1]);
            }
        }
        lemma_ascii_boundaries(rest);
        assert(b[0] < 128);
        assert(valid_first_scalar(b));
        assert(pop_first_scalar(b) =~= rest);
        assert forall|i: int| 0 <= i <= b.len() implies #[trigger] is_char_boundary(b, i) by {
            if i > 0 {
                assert(is_char_boundary(rest, i - 1));
            }
        }
    }
}

/// Decoding an encoding gives back the bytes: the encoding of `bytes` is
/// ASCII of even length, every pair of it is valid, and the pairs decode to
/// `bytes`. With the contract of `decode`, `decode` of a string whose text
/// is `hex_encode(bytes)` returns `Ok` of `bytes`.
pub proof fn lemma_decode_encode(s: &str, bytes: Seq<u8>)
    requires
        s@ == hex_encode(bytes),
    ensures
        s.spec_bytes().len() == 2 * bytes.len(),
        even_offsets_on_boundaries(s.spec_bytes()),
        all_pairs_valid(s.spec_bytes()),
        decoded(s.spec_bytes()) == bytes,
{
    broadcast use vstd::string::is_ascii_spec_bytes;
    lemma_encode_pairs(bytes);
    let cs = s@;
    assert(vstd::string::is_ascii(s)) by {
        assert forall|i: int| 0 <= i < cs.len() implies '\0' <= #[trigger] cs[i] <= '\u{7f}' by {
            let k = i / 2;
            if i % 2 == 0 {
                assert(cs[2 * k] == hex_digit((bytes[k] / 16) as nat));
            } else {
                assert(cs[2 * k] == hex_digit((bytes[k] / 16) as nat));
                assert(cs[2 * k + 1] == hex_digit((bytes[k] % 16) as nat));
            }
        }
    }
    let sb = s.spec_bytes();
    assert(sb =~= Seq::new(cs.len(), |i: int| cs[i] as u8));
    assert forall|k: int| 0 <= k < bytes.len() implies #[trigger] pair_value(sb[2 * k], sb[2 * k + 1]) == Some(bytes[k]) by {
        let hi = (bytes[k] / 16) as nat;
        let lo = (bytes[k] % 16) as nat;
        assert(cs[2 * k] == hex_digit(hi));
        assert(cs[2 * k + 1] == hex_digit(lo));
        assert(hex_value(sb[2 * k]) == Some(hi as u8));
        assert(hex_value(sb[2 * k + 1]) == Some(lo as u8));
        assert(hi * 16 + lo == bytes[k]);
    }
    assert(ascii_bytes(sb)) by {
        assert forall|i: int| 0 <= i < sb.len() implies #[trigger] sb[i] < 128 by {
            let k = i / 2;
            if i % 2 == 0 {
                assert(cs[2 * k] == hex_digit((bytes[k] / 16) as nat));
            } else {
                assert(cs[2 * k] == hex_digit((bytes[k] / 16) as nat));
                assert(cs[2 * k + 1] == hex_digit((bytes[k] % 16) as nat));
            }
        }
    }
    lemma_ascii_boundaries(sb);
    assert forall|k: int| 0 <= k < sb.len() / 2 implies #[trigger] pair_value(sb[2 * k], sb[2 * k + 1]) is Some by {
        assert(pair_value(sb[2 * k], sb[2 * k + 1]) == Some(bytes[k]));
    }
    assert(decoded(sb) =~= bytes) by {
        assert forall|k: int| 0 <= k < bytes.len() implies #[trigger] decoded(sb)[k] == bytes[k] by {
            assert(pair_value(sb[2 * k], sb[2 * k + 1]) == Some(bytes[k]));
        }
    }
}

} // verus!

//! SHA-256 checksums in hexadecimal.

use sha2::{Digest, Sha256};
use vstd::prelude::*;

use crate::text::{ascii_lower, same_ignoring_case};

verus! {

/// The SHA-256 digest of the data.
pub uninterp spec fn sha256(data: Seq<u8>) -> Seq<u8>;

/// `sha2::Sha256::digest` computes the SHA-256 digest of the data, which is a function
/// of the data alone and has 32 bytes.
#[verifier::external_body]
fn sha256_digest(data: &[u8]) -> (digest: Vec<u8>)
    ensures
        digest@ == sha256(data@),
        digest@.len() == 32,
{
    Sha256::digest(data).to_vec()
}

/// The hexadecimal digit for a number below 16, in lower case.
pub open spec fn hex_digit(n: int) -> char {
    if n < 10 {
        ('0' as u8 + n) as char
    } else {
        ('a' as u8 + n - 10) as char
    }
}

/// The bytes in hexadecimal: two digits each, the higher one first.
pub open spec fn hex(bytes: Seq<u8>) -> Seq<char> {
    Seq::new(
        2 * bytes.len(),
        |i: int|
            if i % 2 == 0 {
                hex_digit(bytes[i / 2] as int / 16)
            } else {
                hex_digit(bytes[i / 2] as int % 16)
            },
    )
}

/// The checksum of the data as it is written: its SHA-256 digest in hexadecimal.
pub open spec fn checksum(data: Seq<u8>) -> Seq<char> {
    hex(sha256(data))
}

/// The hexadecimal digit for a number below 16.
fn digit(n: u8) -> (c: char)
    requires
        n < 16,
    ensures
        c == hex_digit(n as int),
{
    if n < 10 {
        ('0' as u8 + n) as char
    } else {
        ('a' as u8 + (n - 10)) as char
    }
}

/// Writes bytes in hexadecimal, in lower case.
pub fn to_hex(bytes: &[u8]) -> (text: String)
    ensures
        text@ == hex(bytes@),
{
    let mut text = String::new();
    assert(text@ =~= hex(bytes@.take(0)));
    for i in 0..bytes.len()
        invariant
            text@ == hex(bytes@.take(i as int)),
    {
        let ghost before = text@;
        text.push(digit(bytes[i] / 16));
        text.push(digit(bytes[i] % 16));
        proof {
            let now = bytes@.take(i + 1);
            assert forall|j: int| 0 <= j < 2 * i implies before[j] == #[trigger] hex(now)[j] by {
                assert(bytes@.take(i as int)[j / 2] == now[j / 2]);
            }
            assert(text@ =~= hex(now));
        }
    }
    assert(bytes@.take(bytes@.len() as int) =~= bytes@);
    text
}

/// The SHA-256 checksum of the data in hexadecimal, in lower case.
pub fn sha256_hex(data: &[u8]) -> (text: String)
    ensures
        text@ == checksum(data@),
        text@.len() == 64,
{
    to_hex(sha256_digest(data).as_slice())
}

/// Whether a character is a hexadecimal digit in lower case.
pub open spec fn lower_hex_digit(c: char) -> bool {
    '0' <= c <= '9' || 'a' <= c <= 'f'
}

/// A text in hexadecimal has two digits for each byte, in lower case.
pub proof fn law_hex_digits(bytes: Seq<u8>)
    ensures
        hex(bytes).len() == 2 * bytes.len(),
        forall|i: int| 0 <= i < hex(bytes).len() ==> lower_hex_digit(#[trigger] hex(bytes)[i]),
{
    assert forall|i: int| 0 <= i < hex(bytes).len() implies lower_hex_digit(
        #[trigger] hex(bytes)[i],
    ) by {
        let b = bytes[i / 2] as int;
        assert(0 <= b / 16 < 16 && 0 <= b % 16 < 16);
    }
}

/// Bytes that are written alike in hexadecimal, whatever the letter case, are equal.
pub proof fn law_hex_tells_bytes_apart(a: Seq<u8>, b: Seq<u8>)
    requires
        same_ignoring_case(hex(a), hex(b)),
    ensures
        a == b,
{
    law_hex_digits(a);
    law_hex_digits(b);
    assert(ascii_lower(hex(a)).len() == ascii_lower(hex(b)).len());
    assert forall|i: int| 0 <= i < a.len() implies a[i] == b[i] by {
        assert(ascii_lower(hex(a))[2 * i] == ascii_lower(hex(b))[2 * i]);
        assert(ascii_lower(hex(a))[2 * i + 1] == ascii_lower(hex(b))[2 * i + 1]);
        assert(lower_hex_digit(hex(a)[2 * i]) && lower_hex_digit(hex(b)[2 * i]));
        assert(lower_hex_digit(hex(a)[2 * i + 1]) && lower_hex_digit(hex(b)[2 * i + 1]));
        assert((2 * i) / 2 == i && (2 * i + 1) / 2 == i);
        assert((2 * i) % 2 == 0 && (2 * i + 1) % 2 == 1);
        assert(hex_digit(a[i] as int / 16) == hex_digit(b[i] as int / 16));
        assert(hex_digit(a[i] as int % 16) == hex_digit(b[i] as int % 16));
        assert(a[i] as int / 16 == b[i] as int / 16);
        assert(a[i] as int % 16 == b[i] as int % 16);
    }
    assert(a =~= b);
}

/// What a hexadecimal digit in lower case counts for.
pub open spec fn digit_value(c: char) -> int {
    if c as u32 <= 0x39 {
        c as u32 - 0x30
    } else {
        c as u32 - 0x57
    }
}

/// Each byte is read back from its two digits in hexadecimal, the first of which counts
/// sixteenfold.
pub proof fn law_hex_is_read_back(bytes: Seq<u8>)
    ensures
        hex(bytes).len() == 2 * bytes.len(),
        forall|i: int|
            0 <= i < bytes.len() ==> lower_hex_digit(hex(bytes)[2 * i]) && lower_hex_digit(
                hex(bytes)[2 * i + 1],
            ) && #[trigger] bytes[i] == 16 * digit_value(hex(bytes)[2 * i]) + digit_value(
                hex(bytes)[2 * i + 1],
            ),
{
    law_hex_digits(bytes);
    assert forall|i: int| 0 <= i < bytes.len() implies lower_hex_digit(hex(bytes)[2 * i])
        && lower_hex_digit(hex(bytes)[2 * i + 1]) && #[trigger] bytes[i] == 16 * digit_value(
        hex(bytes)[2 * i],
    ) + digit_value(hex(bytes)[2 * i + 1]) by {
        assert((2 * i) / 2 == i && (2 * i + 1) / 2 == i);
        assert((2 * i) % 2 == 0 && (2 * i + 1) % 2 == 1);
        let b = bytes[i] as int;
        assert(hex(bytes)[2 * i] == hex_digit(b / 16));
        assert(hex(bytes)[2 * i + 1] == hex_digit(b % 16));
        assert(digit_value(hex_digit(b / 16)) == b / 16);
        assert(digit_value(hex_digit(b % 16)) == b % 16);
    }
}

/// The SHA-256 digest of the data is read back from its checksum.
pub proof fn law_checksum_is_the_digest(data: Seq<u8>)
    ensures
        checksum(data).len() == 2 * sha256(data).len(),
        forall|i: int|
            0 <= i < sha256(data).len() ==> lower_hex_digit(checksum(data)[2 * i])
                && lower_hex_digit(checksum(data)[2 * i + 1]) && #[trigger] sha256(data)[i] == 16
                * digit_value(checksum(data)[2 * i]) + digit_value(checksum(data)[2 * i + 1]),
{
    law_hex_is_read_back(sha256(data));
}

} // verus!

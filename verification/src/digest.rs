//! Digest utilities: canonical decimal rendering, hex encoding and decoding,
//! and the SHA3-256 digest behind a trusted wrapper.

use vstd::prelude::*;
use vstd::string::StringSliceAdditionalSpecFns;

verus! {

/// Decimal ASCII digits of `n`, most significant first.
pub open spec fn dec_digits(n: nat) -> Seq<u8>
    decreases n,
{
    if n < 10 {
        seq![(48 + n) as u8]
    } else {
        dec_digits(n / 10).push((48 + n % 10) as u8)
    }
}

/// Appends the decimal rendering of `n` to `out`.
pub(crate) fn push_u64_decimal(out: &mut Vec<u8>, n: u64)
    ensures
        final(out)@ == old(out)@ + dec_digits(n as nat),
    decreases n,
{
    if n >= 10 {
        push_u64_decimal(out, n / 10);
        out.push(48 + (n % 10) as u8);
        proof {
            assert(final(out)@ =~= old(out)@ + dec_digits(n as nat));
        }
    } else {
        out.push(48 + n as u8);
        proof {
            assert(final(out)@ =~= old(out)@ + dec_digits(n as nat));
        }
    }
}

/// Appends all bytes of `b` to `out`.
pub(crate) fn push_bytes(out: &mut Vec<u8>, b: &[u8])
    ensures
        final(out)@ == old(out)@ + b@,
{
    let ghost orig: Seq<u8> = out@;
    let mut i: usize = 0;
    while i < b.len()
        invariant
            i <= b@.len(),
            out@ == orig + b@.take(i as int),
        decreases b@.len() - i,
    {
        out.push(*vstd::slice::slice_index_get(b, i));
        i = i + 1;
        proof {
            assert(out@ =~= orig + b@.take(i as int));
        }
    }
    proof {
        assert(orig + b@.take(b@.len() as int) =~= orig + b@);
    }
}

/// The lowercase hex digit for a value below 16.
pub open spec fn hex_digit(v: u8) -> char
    recommends
        v < 16,
{
    if v < 10 {
        ((48 + v) as u8) as char
    } else {
        ((87 + v) as u8) as char
    }
}

/// Lowercase hex rendering of a byte sequence, two digits per byte.
pub open spec fn hex_of(bytes: Seq<u8>) -> Seq<char> {
    Seq::new(
        bytes.len() * 2,
        |i: int|
            if i % 2 == 0 {
                hex_digit(bytes[i / 2] / 16)
            } else {
                hex_digit(bytes[i / 2] % 16)
            },
    )
}

/// The value of a hex digit character, or -1 for any other character.
pub open spec fn hex_char_val(c: char) -> int {
    if 48 <= c as int && c as int <= 57 {
        c as int - 48
    } else if 97 <= c as int && c as int <= 102 {
        c as int - 87
    } else if 65 <= c as int && c as int <= 70 {
        c as int - 55
    } else {
        -1
    }
}

/// Whether `c` is an upper- or lowercase hex digit.
pub open spec fn is_hex_char(c: char) -> bool {
    hex_char_val(c) >= 0
}

/// Whether a character sequence is decodable hex: even length, hex digits only.
pub open spec fn hex_decodable(s: Seq<char>) -> bool {
    s.len() % 2 == 0 && forall|i: int| 0 <= i < s.len() ==> is_hex_char(s[i])
}

/// The bytes a decodable hex sequence stands for.
pub open spec fn hex_bytes(s: Seq<char>) -> Seq<u8>
    recommends
        hex_decodable(s),
{
    Seq::new(
        s.len() / 2,
        |i: int| (hex_char_val(s[2 * i]) * 16 + hex_char_val(s[2 * i + 1])) as u8,
    )
}

/// Relies on hex::encode: renders each byte as two lowercase hex digits,
/// in order.
#[verifier::external_body]
pub(crate) fn hex_encode(bytes: &[u8]) -> (r: String)
    ensures
        r@ == hex_of(bytes@),
{
    hex::encode(bytes)
}

/// Relies on hex::decode: succeeds exactly on even-length strings of hex
/// digits (either case) and returns the bytes they stand for.
#[verifier::external_body]
pub(crate) fn hex_decode(s: &str) -> (r: Option<Vec<u8>>)
    ensures
        r is Some <==> hex_decodable(s@),
        r matches Some(b) ==> b@ == hex_bytes(s@),
{
    match hex::decode(s) {
        Ok(v) => Some(v),
        Err(_) => None,
    }
}

/// The SHA3-256 digest of a byte sequence: a function of the input alone.
pub uninterp spec fn sha3_of(input: Seq<u8>) -> Seq<u8>;

/// Relies on sha3::Sha3_256 (through the Digest trait): the digest is a
/// 32-byte value determined by the input bytes alone.
#[verifier::external_body]
pub(crate) fn sha3_256(input: &[u8]) -> (r: Vec<u8>)
    ensures
        r@ == sha3_of(input@),
        r@.len() == 32,
{
    <sha3::Sha3_256 as sha3::Digest>::digest(input).to_vec()
}

/// Byte-slice equality.
pub(crate) fn slice_bytes_eq(a: &[u8], b: &[u8]) -> (r: bool)
    ensures
        r == (a@ == b@),
{
    if a.len() != b.len() {
        return false;
    }
    let mut i: usize = 0;
    while i < a.len()
        invariant
            a@.len() == b@.len(),
            i <= a@.len(),
            forall|j: int| 0 <= j < i ==> a@[j] == b@[j],
        decreases a@.len() - i,
    {
        if *vstd::slice::slice_index_get(a, i) != *vstd::slice::slice_index_get(b, i) {
            return false;
        }
        i = i + 1;
    }
    proof {
        assert(a@ =~= b@);
    }
    true
}

/// String-slice equality, decided through the UTF-8 bytes.
pub(crate) fn str_eq(a: &str, b: &str) -> (r: bool)
    ensures
        r == (a@ == b@),
{
    let r = slice_bytes_eq(a.as_bytes(), b.as_bytes());
    proof {
        if a.spec_bytes() == b.spec_bytes() {
            vstd::utf8::encode_utf8_decode_utf8(a@);
            vstd::utf8::encode_utf8_decode_utf8(b@);
        }
    }
    r
}

/// A decimal rendering is never empty.
pub proof fn lemma_dec_digits_len(n: nat)
    ensures
        dec_digits(n).len() >= 1,
{
}

/// Every byte of a decimal rendering is an ASCII digit.
pub proof fn lemma_dec_digits_are_digits(n: nat)
    ensures
        forall|i: int|
            0 <= i < dec_digits(n).len() ==> 48 <= #[trigger] dec_digits(n)[i] <= 57,
    decreases n,
{
    if n >= 10 {
        lemma_dec_digits_are_digits(n / 10);
        assert forall|i: int|
            0 <= i < dec_digits(n).len() implies 48 <= #[trigger] dec_digits(n)[i] <= 57 by {
            if i < dec_digits(n / 10).len() {
                assert(dec_digits(n)[i] == dec_digits(n / 10)[i]);
            }
        }
    }
}

/// Two numbers with the same decimal rendering are equal.
pub proof fn lemma_dec_digits_injective(n1: nat, n2: nat)
    requires
        dec_digits(n1) == dec_digits(n2),
    ensures
        n1 == n2,
    decreases n1,
{
    if n1 < 10 && n2 < 10 {
        assert(dec_digits(n1) == seq![(48 + n1) as u8]);
        assert(dec_digits(n2) == seq![(48 + n2) as u8]);
        assert(seq![(48 + n1) as u8][0] == (48 + n1) as u8);
        assert(seq![(48 + n2) as u8][0] == (48 + n2) as u8);
        assert((48 + n1) as u8 == (48 + n2) as u8);
    } else if n1 < 10 {
        lemma_dec_digits_len(n2 / 10);
        assert(dec_digits(n2).len() >= 2);
    } else if n2 < 10 {
        lemma_dec_digits_len(n1 / 10);
        assert(dec_digits(n1).len() >= 2);
    } else {
        assert(dec_digits(n1).last() == dec_digits(n2).last());
        assert(dec_digits(n1).last() == (48 + n1 % 10) as u8);
        assert(dec_digits(n2).last() == (48 + n2 % 10) as u8);
        assert(n1 % 10 < 10 && n2 % 10 < 10);
        assert(n1 % 10 == n2 % 10);
        assert(dec_digits(n1).drop_last() =~= dec_digits(n1 / 10));
        assert(dec_digits(n2).drop_last() =~= dec_digits(n2 / 10));
        lemma_dec_digits_injective(n1 / 10, n2 / 10);
        assert(n1 == 10 * (n1 / 10) + n1 % 10);
        assert(n2 == 10 * (n2 / 10) + n2 % 10);
    }
}

/// A decimal rendering followed by a non-digit terminator parses
/// unambiguously: the digits end at the terminator, so the number and what
/// follows it are both determined.
pub proof fn lemma_digits_term_prefix(n1: nat, n2: nat, t: u8, r1: Seq<u8>, r2: Seq<u8>)
    requires
        !(48 <= t <= 57),
        dec_digits(n1) + seq![t] + r1 == dec_digits(n2) + seq![t] + r2,
    ensures
        n1 == n2,
        r1 == r2,
{
    let d1 = dec_digits(n1);
    let d2 = dec_digits(n2);
    let whole = d1 + seq![t] + r1;
    let whole2 = d2 + seq![t] + r2;
    lemma_dec_digits_are_digits(n1);
    lemma_dec_digits_are_digits(n2);
    if d1.len() < d2.len() {
        assert(whole[d1.len() as int] == t);
        assert(whole[d1.len() as int] == d2[d1.len() as int]);
        assert(false);
    } else if d2.len() < d1.len() {
        assert(whole[d2.len() as int] == d1[d2.len() as int]);
        assert(whole[d2.len() as int] == t);
        assert(false);
    } else {
        assert forall|i: int| 0 <= i < d1.len() implies d1[i] == d2[i] by {
            assert(whole[i] == d1[i]);
            assert(whole[i] == d2[i]);
        }
        assert(d1 =~= d2);
        lemma_dec_digits_injective(n1, n2);
        assert(whole.len() == whole2.len());
        assert forall|i: int| 0 <= i < r1.len() implies r1[i] == r2[i] by {
            assert(whole[d1.len() + 1 + i] == r1[i]);
            assert(whole2[d2.len() + 1 + i] == r2[i]);
            assert(whole == whole2);
        }
        assert(r1 =~= r2);
    }
}

/// A hex digit's character decodes back to its value.
pub proof fn lemma_hex_digit_val(v: u8)
    requires
        v < 16,
    ensures
        is_hex_char(hex_digit(v)),
        hex_char_val(hex_digit(v)) == v,
{
}

/// Decoding inverts encoding: the hex rendering of any byte sequence is
/// decodable and decodes to the original bytes.
pub proof fn lemma_hex_roundtrip(bytes: Seq<u8>)
    ensures
        hex_decodable(hex_of(bytes)),
        hex_bytes(hex_of(bytes)) == bytes,
        hex_of(bytes).len() == 2 * bytes.len(),
{
    let s = hex_of(bytes);
    assert forall|i: int| 0 <= i < s.len() implies is_hex_char(s[i]) by {
        let b = bytes[i / 2];
        lemma_hex_digit_val((b / 16) as u8);
        lemma_hex_digit_val((b % 16) as u8);
    }
    assert forall|i: int| 0 <= i < bytes.len() implies hex_bytes(s)[i] == bytes[i] by {
        let b = bytes[i];
        lemma_hex_digit_val((b / 16) as u8);
        lemma_hex_digit_val((b % 16) as u8);
        assert(s[2 * i] == hex_digit((b / 16) as u8));
        assert(s[2 * i + 1] == hex_digit((b % 16) as u8));
        assert(b / 16 * 16 + b % 16 == b) by (nonlinear_arith);
    }
    assert(hex_bytes(s) =~= bytes);
}

} // verus!

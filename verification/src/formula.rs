//! The code formula: device identifiers and a secret go through SHA-256,
//! the digest is cut to 52 bits, and the number left is written as sixteen
//! decimal digits.

use sha2::Digest;
use vstd::prelude::*;
use vstd::string::*;
use vstd::utf8::{encode_utf8, is_ascii_chars};

use crate::checksum::{luhn_ok, luhn_valid};
use crate::numeral::{
    all_digits, digit_of, format_zero_padded, is_numeral, lemma_value_bound,
    lemma_zero_padded_digits, lemma_zero_padded_injective, lemma_zero_padded_len, numeral_value,
    parse_unsigned, power, unsigned_body, zero_padded,
};

verus! {

/// The number of characters of a candidate code, and of a rendered secret.
pub const CODE_LEN: usize = 16;

/// The number of leading hexadecimal characters of the digest that make up
/// the code's number: 13 characters are 52 bits.
pub const HEX_PREFIX_LEN: usize = 13;

/// The SHA-256 digest of a message.
pub uninterp spec fn sha256(data: Seq<u8>) -> Seq<u8>;

/// The lower-case hexadecimal character for a value from 0 to 15.
pub open spec fn hex_digit(nibble: int) -> char {
    if nibble < 10 {
        ('0' as int + nibble) as char
    } else {
        ('a' as int + nibble - 10) as char
    }
}

/// The lower-case hexadecimal text of `bytes`: two characters for each
/// byte, the upper four bits first.
pub open spec fn hex_encoding(bytes: Seq<u8>) -> Seq<char> {
    Seq::new(
        2 * bytes.len(),
        |i: int|
            hex_digit(
                if i % 2 == 0 {
                    bytes[i / 2] as int / 16
                } else {
                    bytes[i / 2] as int % 16
                },
            ),
    )
}

/// A candidate code is exactly sixteen decimal digits.
pub open spec fn is_code(s: Seq<char>) -> bool {
    s.len() == CODE_LEN && all_digits(s)
}

/// The number read from the first thirteen hexadecimal characters of a
/// digest.
pub open spec fn truncated_value(digest: Seq<u8>) -> int {
    numeral_value(hex_encoding(digest).take(HEX_PREFIX_LEN as int), 16)
}

/// The code that a digest gives: its truncated value in sixteen decimal
/// digits.
pub open spec fn digest_code(digest: Seq<u8>) -> Seq<char> {
    zero_padded(truncated_value(digest) as nat, CODE_LEN as nat)
}

/// The number that `bytes` spell, most significant byte first.
pub open spec fn big_endian(bytes: Seq<u8>) -> int
    decreases bytes.len(),
{
    if bytes.len() == 0 {
        0
    } else {
        big_endian(bytes.drop_last()) * 256 + bytes.last() as int
    }
}

/// The text that is hashed for a candidate: the three identifiers, then the
/// secret in sixteen decimal digits.
pub open spec fn formula_message(imei: Seq<char>, sn: Seq<char>, pid: Seq<char>, secret: u64) -> Seq<
    char,
> {
    imei + sn + pid + zero_padded(secret as nat, CODE_LEN as nat)
}

/// The candidate code for a device and a secret.
pub open spec fn formula_code(imei: Seq<char>, sn: Seq<char>, pid: Seq<char>, secret: u64) -> Seq<
    char,
> {
    digest_code(sha256(encode_utf8(formula_message(imei, sn, pid, secret))))
}

/// Computes a SHA-256 digest with `sha2::Sha256::digest`, which feeds the
/// whole message to a fresh hasher and finalizes it. The contract names the
/// 32 bytes that come back; that they are the SHA-256 of the message is
/// taken from the `sha2` crate and not proved here.
#[verifier::external_body]
fn sha256_digest(data: &[u8]) -> (digest: [u8; 32])
    ensures
        digest@ == sha256(data@),
{
    sha2::Sha256::digest(data).into()
}

/// Writes bytes in hexadecimal with `hex::encode`, which maps each byte to
/// two characters of `0123456789abcdef`, the upper four bits first. The
/// contract states that text; it is read off the `hex` crate and not proved
/// here.
#[verifier::external_body]
fn hex_encode(data: &[u8]) -> (text: String)
    ensures
        text@ == hex_encoding(data@),
{
    hex::encode(data)
}

/// Hexadecimal text is ASCII, and each of its characters is a digit in
/// radix 16 that stands for the four bits it was made from.
pub proof fn lemma_hex_encoding_digits(bytes: Seq<u8>)
    ensures
        hex_encoding(bytes).len() == 2 * bytes.len(),
        is_ascii_chars(hex_encoding(bytes)),
        forall|i: int|
            0 <= i < 2 * bytes.len() ==> digit_of(#[trigger] hex_encoding(bytes)[i]) == if i % 2
                == 0 {
                bytes[i / 2] as int / 16
            } else {
                bytes[i / 2] as int % 16
            },
{
}

/// The truncated value of a digest of at least seven bytes is below 2 to
/// the power 52, and so its code is sixteen decimal digits.
pub proof fn lemma_digest_code_is_code(digest: Seq<u8>)
    requires
        digest.len() >= 7,
    ensures
        is_numeral(hex_encoding(digest).take(HEX_PREFIX_LEN as int), 16),
        0 <= truncated_value(digest) < 0x10_0000_0000_0000,
        is_code(digest_code(digest)),
{
    let prefix = hex_encoding(digest).take(HEX_PREFIX_LEN as int);
    lemma_hex_encoding_digits(digest);
    assert forall|i: int| 0 <= i < prefix.len() implies digit_of(#[trigger] prefix[i]) < 16 by {
        assert(prefix[i] == hex_encoding(digest)[i]);
    }
    lemma_value_bound(prefix, 16);
    assert(power(16, 13) == 0x10_0000_0000_0000) by {
        reveal_with_fuel(power, 14);
    }
    assert(power(10, 16) == 10_000_000_000_000_000) by {
        reveal_with_fuel(power, 17);
    }
    lemma_zero_padded_len(truncated_value(digest) as nat, CODE_LEN as nat);
    lemma_zero_padded_digits(truncated_value(digest) as nat, CODE_LEN as nat);
}

/// Read as a numeral in radix 16, the hexadecimal text of some bytes is the
/// number that the bytes spell.
pub proof fn lemma_hex_encoding_value(bytes: Seq<u8>)
    ensures
        numeral_value(hex_encoding(bytes), 16) == big_endian(bytes),
    decreases bytes.len(),
{
    let text = hex_encoding(bytes);
    lemma_hex_encoding_digits(bytes);
    if bytes.len() > 0 {
        lemma_hex_encoding_value(bytes.drop_last());
        assert(text.drop_last().drop_last() =~= hex_encoding(bytes.drop_last()));
        let upper = text.drop_last();
        assert(digit_of(text.last()) == bytes.last() as int % 16);
        assert(digit_of(upper.last()) == bytes.last() as int / 16);
        assert(numeral_value(upper, 16) == numeral_value(upper.drop_last(), 16) * 16 + digit_of(
            upper.last(),
        ));
        assert(numeral_value(text, 16) == numeral_value(upper, 16) * 16 + digit_of(text.last()));
    }
}

/// The truncated value of a digest is its leading 52 bits: the number that
/// its first seven bytes spell, without the lowest four bits.
pub proof fn lemma_truncated_value_is_leading_bits(digest: Seq<u8>)
    requires
        digest.len() >= 7,
    ensures
        truncated_value(digest) == big_endian(digest.take(7)) / 16,
{
    let seven = digest.take(7);
    let text = hex_encoding(seven);
    lemma_hex_encoding_digits(seven);
    lemma_hex_encoding_value(seven);
    assert(hex_encoding(digest).take(HEX_PREFIX_LEN as int) =~= text.drop_last());
    assert(text.last() == text[13]);
    assert(0 <= digit_of(text[13]) < 16);
}

/// Two secrets that give the same text to hash for one device are the same
/// secret: candidates for different secrets can only meet through the hash
/// and its truncation.
pub proof fn lemma_message_determines_secret(
    imei: Seq<char>,
    sn: Seq<char>,
    pid: Seq<char>,
    a: u64,
    b: u64,
)
    requires
        formula_message(imei, sn, pid, a) == formula_message(imei, sn, pid, b),
    ensures
        a == b,
{
    let prefix = imei + sn + pid;
    let start = prefix.len() as int;
    assert(formula_message(imei, sn, pid, a).skip(start) =~= zero_padded(
        a as nat,
        CODE_LEN as nat,
    ));
    assert(formula_message(imei, sn, pid, b).skip(start) =~= zero_padded(
        b as nat,
        CODE_LEN as nat,
    ));
    lemma_zero_padded_injective(a as nat, b as nat, CODE_LEN as nat);
}

/// Turns a digest into its candidate code, and tells whether the code
/// passes the Luhn checksum.
pub fn code_from_digest(digest: &[u8; 32]) -> (r: (String, bool))
    ensures
        r.0@ == digest_code(digest@),
        is_code(r.0@),
        r.1 == luhn_ok(r.0@),
{
    proof {
        lemma_hex_encoding_digits(digest@);
        lemma_digest_code_is_code(digest@);
    }
    let hex_hash = hex_encode(digest.as_slice());
    let hex_13 = hex_hash.as_str().substring_ascii(0, HEX_PREFIX_LEN);
    assert(hex_13@ =~= hex_encoding(digest@).take(HEX_PREFIX_LEN as int));
    assert(digit_of(hex_13@[0]) < 16);
    assert(unsigned_body(hex_13@) == hex_13@);
    let num = parse_unsigned(hex_13, 16).unwrap();
    let code = format_zero_padded(num, CODE_LEN);
    let luhn_ok = luhn_valid(code.as_str());
    (code, luhn_ok)
}

/// Hashes `input` and turns the digest into a candidate code, together
/// with the code's Luhn validity.
pub fn sha256_truncate_luhn(input: &str) -> (r: (String, bool))
    ensures
        r.0@ == digest_code(sha256(encode_utf8(input@))),
        is_code(r.0@),
        r.1 == luhn_ok(r.0@),
{
    let digest = sha256_digest(input.as_bytes());
    code_from_digest(&digest)
}

/// The candidate code for a device, given by its three identifiers, and a
/// secret.
pub fn huawei_hash_formula(imei: &str, sn: &str, pid: &str, secret_key: u64) -> (code: String)
    ensures
        code@ == formula_code(imei@, sn@, pid@, secret_key),
        is_code(code@),
{
    let secret_text = format_zero_padded(secret_key, CODE_LEN);
    let mut input = String::from_str(imei);
    input.append(sn);
    input.append(pid);
    input.append(secret_text.as_str());
    let (code, _) = sha256_truncate_luhn(input.as_str());
    code
}

} // verus!

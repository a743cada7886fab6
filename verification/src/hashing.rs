//! Password hashing: SHA-256 over the password, the minute of creation and the
//! account's nonce, printed as lower-case hexadecimal.

use crate::clock::Timestamp;
use sha2::Digest;
use vstd::prelude::*;
use vstd::utf8::{encode_utf8, encode_utf8_decode_utf8};

verus! {

/// The SHA-256 digest of `data`, as the crate sha2 computes it.
pub uninterp spec fn sha256(data: Seq<u8>) -> Seq<u8>;

/// Calls `sha2::Sha256::digest`. Not proved: that the bytes returned are
/// [`sha256`] of `data`, which says no more than that equal data have equal
/// digests.
#[verifier::external_body]
fn sha256_digest(data: &[u8]) -> (digest: Vec<u8>)
    ensures
        digest@ == sha256(data@),
{
    sha2::Sha256::digest(data).to_vec()
}

/// `String::push` of the standard library. Not proved: that it appends the
/// character and leaves what stood before it as it was.
pub assume_specification[ String::push ](text: &mut String, c: char)
    ensures
        final(text)@ == old(text)@.push(c),
;

/// The character that stands for a value below 16 in lower-case hexadecimal:
/// `0` to `9`, whose codes begin at 48, then `a` to `f`, whose codes begin at 97.
pub open spec fn hex_digit(value: int) -> char {
    if value < 10 {
        (value + 48) as char
    } else {
        (value + 87) as char
    }
}

/// Two hexadecimal digits for each byte, the high half first.
pub open spec fn hex_text(bytes: Seq<u8>) -> Seq<char> {
    Seq::new(
        2 * bytes.len(),
        |i: int|
            if i % 2 == 0 {
                hex_digit(bytes[i / 2] as int / 16)
            } else {
                hex_digit(bytes[i / 2] as int % 16)
            },
    )
}

/// The decimal numeral of `n`, without sign or leading zeros.
pub open spec fn decimal(n: nat) -> Seq<char>
    decreases n,
{
    if n < 10 {
        seq![hex_digit(n as int)]
    } else {
        decimal(n / 10).push(hex_digit((n % 10) as int))
    }
}

/// The bytes that are digested for a password: the password, then the minute of
/// creation, then the nonce in decimal.
pub open spec fn hash_input(password: Seq<char>, minute: Seq<char>, nonce: u64) -> Seq<u8> {
    encode_utf8(password) + encode_utf8(minute) + encode_utf8(decimal(nonce as nat))
}

/// The stored form of a password for an account created at `created` with
/// nonce `nonce`.
pub open spec fn password_hash(password: Seq<char>, created: Timestamp, nonce: u64) -> Seq<char> {
    hex_text(sha256(hash_input(password, created.minute(), nonce)))
}

/// The character that stands for `value`.
fn digit_char(value: u8) -> (c: char)
    requires
        value < 16,
    ensures
        c == hex_digit(value as int),
{
    if value < 10 {
        (value + 48) as char
    } else {
        (value + 87) as char
    }
}

/// Prints `bytes` in lower-case hexadecimal.
pub fn to_hex(bytes: &[u8]) -> (text: String)
    ensures
        text@ == hex_text(bytes@),
{
    let mut text = String::new();
    let mut i: usize = 0;
    while i < bytes.len()
        invariant
            i <= bytes.len(),
            text@ == hex_text(bytes@.take(i as int)),
        decreases bytes.len() - i,
    {
        let byte: u8 = bytes[i];
        text.push(digit_char(byte / 16));
        text.push(digit_char(byte % 16));
        assert(text@ =~= hex_text(bytes@.take(i + 1)));
        i += 1;
    }
    assert(bytes@.take(i as int) =~= bytes@);
    text
}

/// Appends the decimal numeral of `n` to `text`.
fn push_decimal(text: &mut String, n: u64)
    ensures
        final(text)@ == old(text)@ + decimal(n as nat),
    decreases n,
{
    if n >= 10 {
        push_decimal(text, n / 10);
    }
    text.push(digit_char((n % 10) as u8));
    assert(text@ =~= old(text)@ + decimal(n as nat));
}

/// The decimal numeral of `n`.
pub fn to_decimal(n: u64) -> (text: String)
    ensures
        text@ == decimal(n as nat),
{
    let mut text = String::new();
    push_decimal(&mut text, n);
    assert(text@ =~= decimal(n as nat));
    text
}

/// Hashes a password for an account created at `creation_time` with nonce `num`.
pub fn hash_password(password: &str, creation_time: Timestamp, num: u64) -> (hash: String)
    ensures
        hash@ == password_hash(password@, creation_time, num),
{
    let minute = creation_time.minute_text();
    let numeral = to_decimal(num);
    let mut input: Vec<u8> = Vec::new();
    input.extend_from_slice(password.as_bytes());
    input.extend_from_slice(minute.as_str().as_bytes());
    input.extend_from_slice(numeral.as_str().as_bytes());
    assert(input@ =~= hash_input(password@, creation_time.minute(), num));
    let digest = sha256_digest(input.as_slice());
    to_hex(digest.as_slice())
}

/// Whether two texts are equal, found in a number of steps that depends on
/// their lengths alone: where the lengths agree every byte is looked at,
/// wherever the first difference stands.
pub fn same_text(left: &str, right: &str) -> (same: bool)
    ensures
        same == (left@ == right@),
{
    let a = left.as_bytes();
    let b = right.as_bytes();
    proof {
        encode_utf8_decode_utf8(left@);
        encode_utf8_decode_utf8(right@);
    }
    if a.len() != b.len() {
        return false;
    }
    let mut differing: u8 = 0;
    let mut i: usize = 0;
    assert(a@.take(0) =~= b@.take(0));
    while i < a.len()
        invariant
            i <= a.len(),
            a.len() == b.len(),
            differing == 0 <==> a@.take(i as int) == b@.take(i as int),
        decreases a.len() - i,
    {
        let x: u8 = a[i];
        let y: u8 = b[i];
        let ghost before = differing;
        differing = differing | (x ^ y);
        proof {
            assert((before | (x ^ y)) == 0 <==> before == 0 && x == y) by (bit_vector);
            assert(a@.take(i + 1).drop_last() =~= a@.take(i as int));
            assert(b@.take(i + 1).drop_last() =~= b@.take(i as int));
            assert(a@.take(i + 1).last() == x);
            assert(b@.take(i + 1).last() == y);
            if a@.take(i as int) == b@.take(i as int) && x == y {
                assert(a@.take(i + 1) =~= b@.take(i + 1));
            }
        }
        i += 1;
    }
    assert(a@.take(i as int) =~= a@);
    assert(b@.take(i as int) =~= b@);
    differing == 0
}

} // verus!

//! What holds of the password hash.

use crate::clock::Timestamp;
use crate::hashing::{decimal, hash_input, hex_digit, hex_text, password_hash, sha256};
use vstd::prelude::*;
use vstd::utf8::{encode_utf8, encode_utf8_decode_utf8};

verus! {

/// The hash is a function of the password, the minute of creation and the
/// nonce: two hashes of equal passwords, for creation times within the same
/// minute and equal nonces, are equal.
pub proof fn lemma_hash_deterministic(
    password: Seq<char>,
    first_time: Timestamp,
    second_time: Timestamp,
    nonce: u64,
)
    requires
        first_time.minute() == second_time.minute(),
    ensures
        password_hash(password, first_time, nonce) == password_hash(password, second_time, nonce),
{
}

/// Two values below 16 with the same hexadecimal digit are equal.
proof fn lemma_hex_digit_one_to_one(a: int, b: int)
    requires
        0 <= a < 16,
        0 <= b < 16,
        hex_digit(a) == hex_digit(b),
    ensures
        a == b,
{
    let x = if a < 10 { a + 48 } else { a + 87 };
    let y = if b < 10 { b + 48 } else { b + 87 };
    assert((x as char) as int == x);
    assert((y as char) as int == y);
}

/// Byte strings with the same hexadecimal text are equal.
pub proof fn lemma_hex_text_one_to_one(a: Seq<u8>, b: Seq<u8>)
    requires
        hex_text(a) == hex_text(b),
    ensures
        a == b,
{
    assert(hex_text(a).len() == 2 * a.len());
    assert(hex_text(b).len() == 2 * b.len());
    assert forall|i: int| 0 <= i < a.len() implies a[i] == b[i] by {
        assert(hex_text(a)[2 * i] == hex_digit(a[i] as int / 16));
        assert(hex_text(b)[2 * i] == hex_digit(b[i] as int / 16));
        assert(hex_text(a)[2 * i + 1] == hex_digit(a[i] as int % 16));
        assert(hex_text(b)[2 * i + 1] == hex_digit(b[i] as int % 16));
        lemma_hex_digit_one_to_one(a[i] as int / 16, b[i] as int / 16);
        lemma_hex_digit_one_to_one(a[i] as int % 16, b[i] as int % 16);
    }
    assert(a =~= b);
}

/// A numeral has one digit exactly for the numbers below ten.
proof fn lemma_decimal_len(n: nat)
    ensures
        decimal(n).len() >= 1,
        decimal(n).len() == 1 <==> n < 10,
    decreases n,
{
    if n >= 10 {
        lemma_decimal_len(n / 10);
    }
}

/// Numbers with the same decimal numeral are equal.
pub proof fn lemma_decimal_one_to_one(a: nat, b: nat)
    requires
        decimal(a) == decimal(b),
    ensures
        a == b,
    decreases a,
{
    lemma_decimal_len(a);
    lemma_decimal_len(b);
    if a < 10 {
        assert(decimal(a)[0] == hex_digit(a as int));
        assert(decimal(b)[0] == hex_digit(b as int));
        lemma_hex_digit_one_to_one(a as int, b as int);
    } else {
        assert(decimal(a).last() == hex_digit((a % 10) as int));
        assert(decimal(b).last() == hex_digit((b % 10) as int));
        lemma_hex_digit_one_to_one((a % 10) as int, (b % 10) as int);
        assert(decimal(a).drop_last() =~= decimal(a / 10));
        assert(decimal(b).drop_last() =~= decimal(b / 10));
        lemma_decimal_one_to_one(a / 10, b / 10);
    }
}

/// Texts with the same UTF-8 bytes are equal.
pub proof fn lemma_utf8_one_to_one(a: Seq<char>, b: Seq<char>)
    requires
        encode_utf8(a) == encode_utf8(b),
    ensures
        a == b,
{
    encode_utf8_decode_utf8(a);
    encode_utf8_decode_utf8(b);
}

/// Byte strings that are equal once the same bytes are put before and behind
/// each of them are equal.
proof fn lemma_same_frame(before: Seq<u8>, a: Seq<u8>, b: Seq<u8>, behind: Seq<u8>)
    requires
        before + a + behind == before + b + behind,
    ensures
        a == b,
{
    let left = before + a + behind;
    let right = before + b + behind;
    assert(left.len() == before.len() + a.len() + behind.len());
    assert(right.len() == before.len() + b.len() + behind.len());
    assert forall|i: int| 0 <= i < a.len() implies a[i] == b[i] by {
        assert(left[before.len() + i] == a[i]);
        assert(right[before.len() + i] == b[i]);
    }
    assert(a =~= b);
}

/// Changing the password alone, the minute alone or the nonce alone changes
/// the bytes that are digested.
pub proof fn lemma_hash_input_sensitive(
    password: Seq<char>,
    minute: Seq<char>,
    nonce: u64,
    other_password: Seq<char>,
    other_minute: Seq<char>,
    other_nonce: u64,
)
    ensures
        other_password != password ==> hash_input(other_password, minute, nonce) != hash_input(
            password,
            minute,
            nonce,
        ),
        other_minute != minute ==> hash_input(password, other_minute, nonce) != hash_input(
            password,
            minute,
            nonce,
        ),
        other_nonce != nonce ==> hash_input(password, minute, other_nonce) != hash_input(
            password,
            minute,
            nonce,
        ),
{
    let none = Seq::<u8>::empty();
    let p = encode_utf8(password);
    let m = encode_utf8(minute);
    let n = encode_utf8(decimal(nonce as nat));
    if hash_input(other_password, minute, nonce) == hash_input(password, minute, nonce) {
        let q = encode_utf8(other_password);
        assert(none + q + (m + n) =~= q + m + n);
        assert(none + p + (m + n) =~= p + m + n);
        lemma_same_frame(none, q, p, m + n);
        lemma_utf8_one_to_one(other_password, password);
    }
    if hash_input(password, other_minute, nonce) == hash_input(password, minute, nonce) {
        lemma_same_frame(p, encode_utf8(other_minute), m, n);
        lemma_utf8_one_to_one(other_minute, minute);
    }
    if hash_input(password, minute, other_nonce) == hash_input(password, minute, nonce) {
        let o = encode_utf8(decimal(other_nonce as nat));
        assert((p + m) + o + none =~= p + m + o);
        assert((p + m) + n + none =~= p + m + n);
        lemma_same_frame(p + m, o, n, none);
        lemma_utf8_one_to_one(decimal(other_nonce as nat), decimal(nonce as nat));
        lemma_decimal_one_to_one(other_nonce as nat, nonce as nat);
    }
}

/// Two hashes are equal only where SHA-256 gives the two digested inputs one
/// digest. With the law before this one: a change of the password alone, of
/// the minute alone or of the nonce alone changes the hash unless SHA-256
/// takes two different inputs to the same digest.
pub proof fn lemma_equal_hashes_equal_digests(
    password: Seq<char>,
    created: Timestamp,
    nonce: u64,
    other_password: Seq<char>,
    other_created: Timestamp,
    other_nonce: u64,
)
    requires
        password_hash(password, created, nonce) == password_hash(
            other_password,
            other_created,
            other_nonce,
        ),
    ensures
        sha256(hash_input(password, created.minute(), nonce)) == sha256(
            hash_input(other_password, other_created.minute(), other_nonce),
        ),
{
    lemma_hex_text_one_to_one(
        sha256(hash_input(password, created.minute(), nonce)),
        sha256(hash_input(other_password, other_created.minute(), other_nonce)),
    );
}

} // verus!

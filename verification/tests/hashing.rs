use abuelo::clock::Timestamp;
use abuelo::hashing::{hash_password, same_text, to_decimal, to_hex};
use chrono::DateTime;
use sha2::{Digest, Sha256};

fn at(secs: i64) -> Timestamp {
    Timestamp::new(secs, 0).expect("a valid instant")
}

#[test]
fn hash_of_a_known_input() {
    // SHA-256 of "pw1" + "2015-05-15-00-00" + "42"
    assert_eq!(
        hash_password("pw1", at(1431648000), 42),
        "09d2b6ff8e21b5e55153aa57bf22f8ae70c615bcef4e25fdb193252ae99dfceb"
    );
}

#[test]
fn hash_of_the_empty_password_at_the_epoch() {
    // SHA-256 of "1970-01-01-00-00" + "0"
    assert_eq!(
        hash_password("", at(0), 0),
        "849d15c7a4661a87a2cfce6c263370762fd44752424f514b5b92b9fa31009dd3"
    );
}

#[test]
fn hash_takes_the_password_as_utf8() {
    assert_eq!(
        hash_password("päss€", at(1700000000), 7),
        "ece9766d27dbb16871645efa5bf58a6ddcb7bb105efd61b18e6222005c76aa7a"
    );
}

#[test]
fn hash_is_deterministic() {
    let first = hash_password("pw1", at(1431648000), 42);
    let second = hash_password("pw1", at(1431648000), 42);
    assert_eq!(first, second);
}

#[test]
fn hash_is_the_same_within_a_minute() {
    let start = hash_password("pw1", at(1431648000), 42);
    let end = hash_password("pw1", Timestamp::new(1431648059, 999_999_999).unwrap(), 42);
    assert_eq!(start, end);
}

#[test]
fn hash_changes_with_each_input() {
    let base = hash_password("pw1", at(1431648000), 42);
    assert_eq!(
        hash_password("pw2", at(1431648000), 42),
        "a1d18fa702cddc613c9ea6bc0587fd134f38a720ad3f6b4f8d031af960436ebd"
    );
    assert_eq!(
        hash_password("pw1", at(1431648060), 42),
        "ccfac57b548557c6698bb1b27bb0e46f2cce4b9eab5f1733199408f7d4c9572a"
    );
    assert_eq!(
        hash_password("pw1", at(1431648000), u64::MAX),
        "39585747a86925bca740d23a889a841f9a1ebd237cc5cd586ebdf6de8cfa1294"
    );
    assert_ne!(base, hash_password("pw2", at(1431648000), 42));
    assert_ne!(base, hash_password("pw1", at(1431648060), 42));
    assert_ne!(base, hash_password("pw1", at(1431648000), u64::MAX));
}

#[test]
fn hash_is_64_lower_case_hex_digits() {
    let hash = hash_password("anything", at(1431648000), 1);
    assert_eq!(hash.len(), 64);
    assert!(hash.chars().all(|c| c.is_ascii_digit() || ('a'..='f').contains(&c)));
}

#[test]
fn hex_of_bytes() {
    assert_eq!(to_hex(&[]), "");
    assert_eq!(to_hex(&[0x00]), "00");
    assert_eq!(to_hex(&[0x0f, 0xf0, 0xa9]), "0ff0a9");
    assert_eq!(to_hex(&[0xde, 0xad, 0xbe, 0xef, 0x01, 0x99]), "deadbeef0199");
    assert_eq!(to_hex(&[255, 16, 9, 10]), "ff10090a");
}

#[test]
fn decimal_numerals() {
    assert_eq!(to_decimal(0), "0");
    assert_eq!(to_decimal(7), "7");
    assert_eq!(to_decimal(10), "10");
    assert_eq!(to_decimal(42), "42");
    assert_eq!(to_decimal(1_000_000), "1000000");
    assert_eq!(to_decimal(9_007_199_254_740_993), "9007199254740993");
    assert_eq!(to_decimal(u64::MAX), "18446744073709551615");
}

#[test]
fn decimal_agrees_with_the_standard_library() {
    let mut n: u64 = 1;
    for _ in 0..64 {
        assert_eq!(to_decimal(n), n.to_string());
        assert_eq!(to_decimal(n - 1), (n - 1).to_string());
        n = n.wrapping_mul(2);
    }
}

#[test]
fn comparing_texts() {
    assert!(same_text("", ""));
    assert!(same_text("abc", "abc"));
    assert!(!same_text("abc", "abd"));
    assert!(!same_text("abc", "xbc"));
    assert!(!same_text("abc", "ab"));
    assert!(!same_text("", "a"));
    assert!(same_text("päss€", "päss€"));
    assert!(!same_text("päss€", "pass€"));
    let hash = hash_password("pw1", at(1431648000), 42);
    assert!(same_text(&hash, "09d2b6ff8e21b5e55153aa57bf22f8ae70c615bcef4e25fdb193252ae99dfceb"));
    assert!(!same_text(&hash, "09d2b6ff8e21b5e55153aa57bf22f8ae70c615bcef4e25fdb193252ae99dfcec"));
}

#[test]
fn hash_agrees_with_digesting_the_three_parts_in_turn() {
    let passwords = ["", "pw1", "test_password", "päss€", "a much longer pass phrase, with spaces"];
    let times: [(i64, u32); 5] =
        [(0, 0), (-1, 0), (1431648000, 0), (1700000000, 123_456_789), (253402300799, 999_999_999)];
    let nonces: [i64; 5] = [0, 1, -1, i64::MAX, i64::MIN];
    for password in passwords {
        for (secs, nanos) in times {
            for nonce in nonces {
                let num = nonce as u64;
                let creation_time = DateTime::from_timestamp(secs, nanos).unwrap();
                let mut hasher = Sha256::new();
                hasher.update(password);
                hasher.update(creation_time.format("%Y-%m-%d-%H-%M").to_string());
                hasher.update(num.to_string());
                let expected = format!("{:x}", hasher.finalize());

                let time = Timestamp::new(secs, nanos).unwrap();
                assert_eq!(hash_password(password, time, num), expected);
            }
        }
    }
}

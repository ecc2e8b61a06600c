use snipespotter::sha256::{sha256, sha256_hex};
use snipespotter::text::{
    collapse_whitespace, decimal, hex, is_before, parse_decimal, same_text, split_chars, to_chars,
    trim,
};

#[test]
fn digests_are_those_of_the_standard() {
    assert_eq!(
        sha256_hex(b""),
        "e3b0c44298fc1c149afbf4c8996fb92427ae41e4649b934ca495991b7852b855"
    );
    assert_eq!(
        sha256_hex(b"abc"),
        "ba7816bf8f01cfea414140de5dae2223b00361a396177a9cb410ff61f20015ad"
    );
    assert_eq!(
        sha256_hex(b"abcdbcdecdefdefgefghfghighijhijkijkljklmklmnlmnomnopnopq"),
        "248d6a61d20638b8e5c026930c3e6039a33ce45964ff2167f6ecedd419db06c1"
    );
    assert_eq!(
        sha256_hex(&vec![b'a'; 1000]),
        "41edece42d63e8d9bf515a9ba6932e1c20cbc9f5a5d134645adb5db1b9737ea3"
    );
    assert_eq!(sha256(b"abc").len(), 32);
}

#[test]
fn numbers_are_written_and_read() {
    assert_eq!(decimal(0), "0");
    assert_eq!(decimal(u128::MAX), "340282366920938463463374607431768211455");
    assert_eq!(parse_decimal(&to_chars("0042"), u64::MAX), Some(42));
    assert_eq!(parse_decimal(&to_chars("+42"), u64::MAX), Some(42));
    assert_eq!(parse_decimal(&to_chars("18446744073709551615"), u64::MAX), Some(u64::MAX));
    assert_eq!(parse_decimal(&to_chars("18446744073709551616"), u64::MAX), None);
    assert_eq!(parse_decimal(&to_chars("4294967296"), u64::from(u32::MAX)), None);
    assert_eq!(parse_decimal(&to_chars(""), u64::MAX), None);
    assert_eq!(parse_decimal(&to_chars("4x"), u64::MAX), None);
    assert_eq!(hex(&[0, 255, 16]), "00ff10");
}

#[test]
fn texts_are_trimmed_split_and_ordered() {
    assert_eq!(collapse_whitespace("  a \t b\u{a0}c "), "a b c");
    assert_eq!(trim(&to_chars(" x y\n")), to_chars("x y"));
    assert_eq!(split_chars(&to_chars("a;;b"), ';'), vec!["a", "", "b"]);
    assert!(same_text("a", "a"));
    assert!(!same_text("a", "A"));
    assert!(is_before("a", "ab"));
    assert!(is_before("Z", "a"));
    assert!(!is_before("a", "a"));
}

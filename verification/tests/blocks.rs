use minimuas::blocks::{from_hex, hex, BlockRef};

#[test]
fn hex_round_trips() {
    let h = [0xabu8; 32];
    assert_eq!(from_hex::<32>(&hex(&h)).unwrap(), h);
    assert!(from_hex::<32>("zz").is_err());
}

#[test]
fn hex_digits_are_read_in_both_cases_and_trimmed() {
    assert_eq!(from_hex::<2>(" 0aFf\n").unwrap(), [0x0a, 0xff]);
    assert_eq!(from_hex::<2>("0a").unwrap_err(), "expected 4 hex chars, got 2");
    assert_eq!(from_hex::<1>("0g").unwrap_err(), "bad hex digit");
    assert_eq!(from_hex::<1>("é").unwrap_err(), "bad hex digit");
}

#[test]
fn citations_carry_the_hash_in_hex() {
    let c = BlockRef { hash: [1; 32], chain: "/c".into(), seq: 7 }.citation();
    assert_eq!(c.hash, "01".repeat(32));
    assert_eq!(c.chain, "/c");
    assert_eq!(c.seq, 7);
}

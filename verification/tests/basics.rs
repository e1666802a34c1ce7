use fynd_core::amount::Amount;
use fynd_core::bytes::Bytes;
use fynd_core::split::{add_up, one, Split};
use fynd_core::table::Table;
use fynd_core::text::{contains, decimal, hex, join, starts_with};

fn amount(n: u64) -> Amount {
    Amount::from_u64(n)
}

#[test]
fn amounts_add_up() {
    assert!(amount(5).plus(&amount(7)) == amount(12));
    assert!(amount(u64::MAX).plus(&amount(1)).to_text() == "18446744073709551616");
}

#[test]
fn amounts_subtract_multiply_and_divide() {
    assert!(amount(12).minus(&amount(7)) == amount(5));
    assert!(amount(1 << 40).times(&amount(1 << 40)).to_text() == "1208925819614629174706176");
    assert!(amount(1_000_000).divided_by(&amount(7)) == amount(142_857));
}

#[test]
fn amounts_compare_by_value() {
    assert!(amount(3).at_most(&amount(3)));
    assert!(amount(2).less_than(&amount(3)));
    assert!(!amount(3).less_than(&amount(3)));
    assert!(Amount::zero().is_zero());
    assert!(Amount::from_digits(vec![5, 0, 0]) == amount(5));
}

#[test]
fn large_amounts_read_back_from_text() {
    let text = "115792089237316195423570985008687907853269984665640564039457584007913129639935";
    let large = Amount::parse(text).unwrap();
    assert_eq!(large.to_text(), text);
    assert!(large.plus(&amount(1)).to_text() > text.to_string());
}

#[test]
fn amount_text_rules() {
    assert!(Amount::parse("+15").unwrap() == amount(15));
    assert!(Amount::parse("1_000").unwrap() == amount(1000));
    assert!(Amount::parse("007").unwrap() == amount(7));
    assert!(Amount::parse("").is_none());
    assert!(Amount::parse("_1").is_none());
    assert!(Amount::parse("++1").is_none());
    assert!(Amount::parse("-1").is_none());
    assert!(Amount::parse("0x10").is_none());
}

#[test]
fn decimal_text_of_numbers() {
    assert_eq!(decimal(0), "0");
    assert_eq!(decimal(21_000_000), "21000000");
    assert_eq!(decimal(u64::MAX), "18446744073709551615");
}

#[test]
fn bytes_read_back_from_text() {
    let bytes = Bytes::new(vec![0x00, 0xab, 0xff, 0x10]);
    assert_eq!(bytes.to_text(), "0x00abff10");
    assert_eq!(bytes.to_debug_text(), "Bytes(0x00abff10)");
    assert!(Bytes::parse("0x00abff10").unwrap() == bytes);
    assert!(Bytes::parse("00ABFF10").unwrap() == bytes);
    assert_eq!(hex(&vec![0x0f, 0xf0]), "0ff0");
}

#[test]
fn bytes_reject_other_text() {
    assert_eq!(
        Bytes::parse("0xzz").unwrap_err(),
        "0xzz".parse::<tycho_common::Bytes>().unwrap_err().to_string()
    );
    let reason = |text: &str| Bytes::parse(text).unwrap_err();
    let odd = "Failed to parse bytes: Invalid hex: Odd number of digits";
    assert_eq!(reason("0x1"), odd);
    assert_eq!(reason("zzz"), odd);
    // The first character that is no digit is named, with its place behind the prefix.
    let bad = |c: &str, place: usize| {
        format!("Failed to parse bytes: Invalid hex: Invalid character {c} at position {place}")
    };
    assert_eq!(reason("0xzz"), bad("'z'", 0));
    assert_eq!(reason("0x12ag"), bad("'g'", 3));
    assert_eq!(reason("0X10"), bad("'X'", 1));
    // Letters beyond ASCII count by their bytes.
    assert_eq!(reason("1é"), odd);
    assert_eq!(reason("12é"), bad("'Ã'", 2));
    assert!(Bytes::parse("").unwrap().is_empty());
}

#[test]
fn zero_bytes_are_zero() {
    let zero = Bytes::zero(20);
    assert_eq!(zero.len(), 20);
    assert!(zero.as_vec().iter().all(|b| *b == 0));
}

#[test]
fn texts_join_and_match() {
    let parts = vec!["a".to_string(), "b".to_string(), "c".to_string()];
    assert_eq!(join(&parts, " -> "), "a -> b -> c");
    assert_eq!(join(&vec![], " -> "), "");
    assert!(contains("singleSwapPermit2(uint256)", "Permit2"));
    assert!(!contains("singleSwap(uint256)", "Permit2"));
    assert!(starts_with("rfq:bebop", "rfq:"));
    assert!(!starts_with("uniswap_v2", "rfq:"));
}

#[test]
fn tables_keep_the_last_value_of_a_key() {
    let mut table: Table<String, u32> = Table::new();
    table.insert("a".to_string(), 1);
    table.insert("b".to_string(), 2);
    table.insert("a".to_string(), 3);
    assert_eq!(table.get(&"a".to_string()), Some(&3));
    assert_eq!(table.get(&"c".to_string()), None);
    table.remove(&"a".to_string());
    assert!(!table.contains(&"a".to_string()));
    assert!(table.contains(&"b".to_string()));
}

fn split(x: f64) -> Split {
    Split::from_bits(x.to_bits())
}

#[test]
fn shares_are_classified_like_numbers() {
    assert!(split(0.0).is_zero() && split(-0.0).is_zero());
    assert!(!split(-0.0).is_negative());
    assert!(split(-0.5).is_negative());
    assert!(split(0.5).is_positive());
    assert!(!split(0.999).is_at_least_one());
    assert!(split(1.0).is_at_least_one() && split(f64::INFINITY).is_at_least_one());
    assert!(split(f64::NAN).is_nan() && !split(f64::NAN).is_positive());
}

#[test]
fn shares_add_up_like_numbers() {
    let samples: [&[f64]; 8] = [
        &[],
        &[0.5, 0.5],
        &[0.1, 0.2, 0.3, 0.4],
        &[0.3, 0.3, 0.3],
        &[0.1; 10],
        &[0.9, 0.09, 0.009, 0.0009],
        &[1e-300, 0.7, 1e-17],
        &[0.333333333333, 0.666666666667],
    ];
    for shares in samples {
        let sum: f64 = shares.iter().sum();
        let list: Vec<Split> = shares.iter().map(|x| split(*x)).collect();
        assert_eq!(one().at_most(&add_up(&list)), sum >= 1.0, "{shares:?}");
    }
}

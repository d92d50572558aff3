use lab_suite::json::{clone_json, Json};
use lab_suite::text::{hex_fixed, i64_text, trim, u64_text};

#[test]
fn decimal_and_hex_text() {
    assert_eq!(u64_text(0), "0");
    assert_eq!(u64_text(18446744073709551615), "18446744073709551615");
    assert_eq!(i64_text(-9223372036854775808), "-9223372036854775808");
    assert_eq!(i64_text(1700000000000), "1700000000000");
    assert_eq!(hex_fixed(255, 4), "00ff");
    assert_eq!(hex_fixed(u128::MAX, 32), "ffffffffffffffffffffffffffffffff");
}

#[test]
fn trim_removes_unicode_white_space() {
    assert_eq!(trim("\u{3000} a b \t\n"), "a b");
    assert_eq!(trim("   "), "");
}

#[test]
fn json_copies_are_equal() {
    let j = Json::Arr(vec![Json::Obj(vec![("k".to_string(), Json::Bool(true))]), Json::Num("1.5".to_string())]);
    let c = clone_json(&j);
    match c {
        Json::Arr(v) => {
            assert_eq!(v.len(), 2);
            assert!(matches!(&v[1], Json::Num(n) if n == "1.5"));
        },
        _ => panic!("expected an array"),
    }
}

#[test]
fn clock_readings_become_milliseconds() {
    assert_eq!(lab_suite::clock::epoch_millis(Some(1_700_000_000_000)), 1_700_000_000_000);
    assert_eq!(lab_suite::clock::epoch_millis(None), 0);
    assert_eq!(lab_suite::clock::epoch_millis(Some(u64::MAX as u128)), -1);
    assert!(lab_suite::clock::now_ms() > 1_600_000_000_000);
}

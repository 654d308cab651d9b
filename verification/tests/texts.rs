use frontend::text::{push_decimal, utf8_width};

fn numeral(n: u64) -> String {
    let mut out = String::new();
    push_decimal(&mut out, n);
    out
}

#[test]
fn decimal_numerals() {
    assert_eq!(numeral(0), "0");
    assert_eq!(numeral(7), "7");
    assert_eq!(numeral(9), "9");
    assert_eq!(numeral(10), "10");
    assert_eq!(numeral(11), "11");
    assert_eq!(numeral(99), "99");
    assert_eq!(numeral(100), "100");
    assert_eq!(numeral(1234567890), "1234567890");
    assert_eq!(numeral(4294967295), "4294967295");
    assert_eq!(numeral(u64::MAX), "18446744073709551615");
}

#[test]
fn decimal_numeral_is_appended() {
    let mut out = String::from("at ");
    push_decimal(&mut out, 42);
    push_decimal(&mut out, 0);
    assert_eq!(out, "at 420");
}

#[test]
fn widths_in_utf8() {
    assert_eq!(utf8_width('\0'), 1);
    assert_eq!(utf8_width('a'), 1);
    assert_eq!(utf8_width('\u{7f}'), 1);
    assert_eq!(utf8_width('\u{80}'), 2);
    assert_eq!(utf8_width('é'), 2);
    assert_eq!(utf8_width('\u{7ff}'), 2);
    assert_eq!(utf8_width('\u{800}'), 3);
    assert_eq!(utf8_width('京'), 3);
    assert_eq!(utf8_width('\u{ffff}'), 3);
    assert_eq!(utf8_width('\u{10000}'), 4);
    assert_eq!(utf8_width('𝒳'), 4);
    assert_eq!(utf8_width('\u{10ffff}'), 4);
    for c in ['a', 'é', '京', '𝒳', '\u{d7ff}', '\u{e000}'] {
        assert_eq!(utf8_width(c), c.len_utf8());
    }
}

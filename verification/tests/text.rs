use framing::text::{decimal_len, decimal_string, push_decimal, push_padded_decimal};

#[test]
fn decimal_digits() {
    assert_eq!(decimal_string(0), "0");
    assert_eq!(decimal_string(7), "7");
    assert_eq!(decimal_string(10), "10");
    assert_eq!(decimal_string(1234567890), "1234567890");
    assert_eq!(decimal_string(u64::MAX), "18446744073709551615");
    for n in 0..2000u64 {
        assert_eq!(decimal_string(n), n.to_string());
    }
}

#[test]
fn decimal_lengths() {
    assert_eq!(decimal_len(0), 1);
    assert_eq!(decimal_len(9), 1);
    assert_eq!(decimal_len(10), 2);
    assert_eq!(decimal_len(99999), 5);
    assert_eq!(decimal_len(u64::MAX), 20);
}

#[test]
fn push_appends() {
    let mut out = String::from("n=");
    push_decimal(&mut out, 305);
    assert_eq!(out, "n=305");
}

#[test]
fn padding_fills_up_to_the_width() {
    let cases = [(5u64, 2usize, "05"), (0, 2, "00"), (42, 2, "42"), (123, 2, "123"), (42, 7, "0000042"), (9, 0, "9"), (9, 1, "9")];
    for (n, width, expected) in cases {
        let mut out = String::new();
        push_padded_decimal(&mut out, n, width);
        assert_eq!(out, expected);
        assert_eq!(out, format!("{:0width$}", n, width = width));
    }
}

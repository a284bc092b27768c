use utility_tasks::integer::Integer;
use utility_tasks::task_01::simple::{ordinal, IntoOrdinal, Ordinal};

#[test]
fn first() {
    assert_eq!("1st", Ordinal(1).to_string())
}

#[test]
fn second() {
    assert_eq!("2nd", Ordinal(2).to_string())
}

#[test]
fn minus1() {
    assert_eq!("-1st", Ordinal(-1).to_string())
}

#[test]
fn zero() {
    assert_eq!("0th", Ordinal(0).to_string())
}

#[test]
fn first_trait() {
    assert_eq!("1st", 1.into_ordinal().to_string())
}

#[test]
fn simple_ordinals() {
    let test_cases = vec![
        ("1st", 1),
        ("2nd", 2),
        ("3rd", 3),
        ("4th", 4),
        ("11th", 11),
        ("12th", 12),
        ("21st", 21),
        ("0th", 0),
        ("-1st", -1),
        ("-2nd", -2),
    ];

    for (expected, input) in test_cases {
        assert_eq!(expected, ordinal(input));
    }
}

#[test]
fn teens_end_in_th() {
    let test_cases = vec![
        ("10th", 10),
        ("13th", 13),
        ("14th", 14),
        ("19th", 19),
        ("20th", 20),
        ("22nd", 22),
        ("23rd", 23),
        ("100th", 100),
        ("101st", 101),
        ("102nd", 102),
        ("103rd", 103),
        ("111th", 111),
        ("112th", 112),
        ("113th", 113),
        ("121st", 121),
        ("1011th", 1011),
        ("1012th", 1012),
        ("1013th", 1013),
        ("-3rd", -3),
        ("-11th", -11),
        ("-12th", -12),
        ("-13th", -13),
        ("-21st", -21),
        ("-111th", -111),
        ("2147483647th", i32::MAX),
        ("-2147483648th", i32::MIN),
    ];

    for (expected, input) in test_cases {
        assert_eq!(expected, ordinal(input));
        assert_eq!(expected, Ordinal(input).to_string());
    }
}

#[test]
fn every_integer_type_has_its_decimal_notation() {
    assert_eq!("-128", i8::MIN.to_decimal());
    assert_eq!("127", i8::MAX.to_decimal());
    assert_eq!("-32768", i16::MIN.to_decimal());
    assert_eq!("-2147483648", i32::MIN.to_decimal());
    assert_eq!("-9223372036854775808", i64::MIN.to_decimal());
    assert_eq!("9223372036854775807", i64::MAX.to_decimal());
    assert_eq!(i128::MIN.to_string(), i128::MIN.to_decimal());
    assert_eq!(i128::MAX.to_string(), i128::MAX.to_decimal());
    assert_eq!(isize::MIN.to_string(), isize::MIN.to_decimal());
    assert_eq!("0", 0u8.to_decimal());
    assert_eq!("255", u8::MAX.to_decimal());
    assert_eq!("65535", u16::MAX.to_decimal());
    assert_eq!("4294967295", u32::MAX.to_decimal());
    assert_eq!("18446744073709551615", u64::MAX.to_decimal());
    assert_eq!("340282366920938463463374607431768211455", u128::MAX.to_decimal());
    assert_eq!(usize::MAX.to_string(), usize::MAX.to_decimal());
    for value in -1200i32..1200 {
        assert_eq!(value.to_string(), value.to_decimal());
    }
}

#[test]
fn ordinals_of_the_widest_types() {
    assert_eq!(
        "-170141183460469231731687303715884105728th",
        Ordinal(i128::MIN).to_string()
    );
    assert_eq!(
        "340282366920938463463374607431768211455th",
        Ordinal(u128::MAX).to_string()
    );
    assert_eq!("18446744073709551615th", Ordinal(u64::MAX).to_string());
    assert_eq!("-127th", Ordinal(-127i8).to_string());
    assert_eq!("-128th", Ordinal(i8::MIN).to_string());
}

#[test]
fn ordinal_is_appended() {
    let mut text = String::from("the ");
    Ordinal(22u8).fmt(&mut text);
    assert_eq!("the 22nd", text);
}

#[test]
fn suffix_goes_by_the_last_two_digits() {
    for value in -500i64..500 {
        let size = value.abs();
        let suffix = match (size % 10, size % 100) {
            (1, tens) if tens != 11 => "st",
            (2, tens) if tens != 12 => "nd",
            (3, tens) if tens != 13 => "rd",
            _ => "th",
        };
        assert_eq!(format!("{}{}", value, suffix), ordinal_of(value));
    }
}

fn ordinal_of(value: i64) -> String {
    Ordinal(value).to_string()
}

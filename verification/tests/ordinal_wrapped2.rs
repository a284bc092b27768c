use utility_tasks::task_01::wrapped2::{ordinal, OrdinalError, TryIntoOrdinal};

#[test]
fn wrapped2_types() {
    assert_eq!(Ok(1), (1 as i8).try_into_ordinal().map(|ordinal| ordinal.get()));
    assert_eq!(Ok(1), (1 as i16).try_into_ordinal().map(|ordinal| ordinal.get()));
    assert_eq!(Ok(1), (1 as i32).try_into_ordinal().map(|ordinal| ordinal.get()));
    assert_eq!(Ok(1), (1 as i64).try_into_ordinal().map(|ordinal| ordinal.get()));
    assert_eq!(Ok(1), (1 as u8).try_into_ordinal().map(|ordinal| ordinal.get()));
    assert_eq!(Ok(1), (1 as u16).try_into_ordinal().map(|ordinal| ordinal.get()));
    assert_eq!(Ok(1), (1 as u32).try_into_ordinal().map(|ordinal| ordinal.get()));
    assert_eq!(Ok(1), (1 as u64).try_into_ordinal().map(|ordinal| ordinal.get()));
}

#[test]
fn wrapped2_various() {
    assert_eq!(Ok(1), 1.try_into_ordinal().map(|ordinal| ordinal.get()));
    assert_eq!(1, 1.try_into_ordinal().unwrap().get());
    assert_eq!("1st", 1.try_into_ordinal().unwrap().to_string());
}

#[test]
fn wrapped2_try_from_to_ok() {
    let test_cases = vec![
        (1, 1),
        (2, 2),
        (3, 3),
        (4, 4),
        (11, 11),
        (12, 12),
        (21, 21),
    ];

    for (expected, input) in test_cases {
        assert_eq!(expected, input.try_into_ordinal().unwrap().get())
    }
}

#[test]
fn wrapped2_try_from_to_err() {
    let test_cases = vec![-11, -10, -3, -2, -1, 0];

    for input in test_cases {
        assert!(input.try_into_ordinal().is_err())
    }
}

#[test]
fn wrapped2_converted() {
    let test_cases = vec![
        ("1st", 1),
        ("2nd", 2),
        ("3rd", 3),
        ("4th", 4),
        ("11th", 11),
        ("12th", 12),
        ("21st", 21),
    ];

    for (expected, input) in test_cases {
        assert_eq!(expected, input.try_into_ordinal().unwrap().to_string())
    }
}

#[test]
fn wrapped2_ordinals() {
    let test_cases = vec![
        ("1st", 1),
        ("2nd", 2),
        ("3rd", 3),
        ("4th", 4),
        ("11th", 11),
        ("12th", 12),
        ("21st", 21),
    ];

    for (expected, input) in test_cases {
        assert_eq!(expected, ordinal(input).unwrap());
    }
}

#[test]
fn ordinals_err() {
    let test_cases = vec![-11, -10, -3, -2, -1, 0];

    for input in test_cases {
        assert!(ordinal(input).is_err());
    }
}

#[test]
fn wrapped2_refusal_says_why() {
    let message = "Ordinal inner value must be greater than zero";
    assert_eq!(Err(message), 0u8.try_into_ordinal().map(|ordinal| ordinal.get()));
    assert_eq!(Err(message), 0u16.try_into_ordinal().map(|ordinal| ordinal.get()));
    assert_eq!(Err(message), 0u32.try_into_ordinal().map(|ordinal| ordinal.get()));
    assert_eq!(Err(message), 0u64.try_into_ordinal().map(|ordinal| ordinal.get()));
    assert_eq!(Err(message), (-1i8).try_into_ordinal().map(|ordinal| ordinal.get()));
    assert_eq!(Err(message), i16::MIN.try_into_ordinal().map(|ordinal| ordinal.get()));
    assert_eq!(Err(message), 0i32.try_into_ordinal().map(|ordinal| ordinal.get()));
    assert_eq!(Err(message), i64::MIN.try_into_ordinal().map(|ordinal| ordinal.get()));
}

#[test]
fn wrapped2_ordinal_of_each_type() {
    assert_eq!(Ok("127th".to_string()), ordinal(i8::MAX));
    assert_eq!(Ok("32767th".to_string()), ordinal(i16::MAX));
    assert_eq!(Ok("2147483647th".to_string()), ordinal(i32::MAX));
    assert_eq!(Ok("9223372036854775807th".to_string()), ordinal(i64::MAX));
    assert_eq!(Ok("255th".to_string()), ordinal(u8::MAX));
    assert_eq!(Ok("65535th".to_string()), ordinal(u16::MAX));
    assert_eq!(Ok("4294967295th".to_string()), ordinal(u32::MAX));
    assert_eq!(Ok("18446744073709551615th".to_string()), ordinal(u64::MAX));
    assert_eq!(Ok("113th".to_string()), ordinal(113u8));
    assert_eq!(Ok("123rd".to_string()), ordinal(123u8));
    assert_eq!(Err(OrdinalError::ConvertError), ordinal(0u8));
    assert_eq!(Err(OrdinalError::ConvertError), ordinal(i64::MIN));
}

#[test]
fn wrapped2_ordinals_compare_as_their_integers() {
    let third = 3u32.try_into_ordinal().unwrap();
    let fourth = 4u32.try_into_ordinal().unwrap();
    assert!(third < fourth);
    assert_eq!(third, third.clone());
    let mut text = String::from("the ");
    third.fmt(&mut text);
    assert_eq!("the 3rd", text);
}

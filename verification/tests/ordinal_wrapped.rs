use std::convert::{TryFrom, TryInto};
use utility_tasks::task_01::wrapped::Ordinal;

#[test]
fn wrapped_types() {
    assert_eq!(Ok(1), Ordinal::try_from(1 as i8).map(|ordinal| ordinal.get()));
    assert_eq!(Ok(1), Ordinal::try_from(1 as i16).map(|ordinal| ordinal.get()));
    assert_eq!(Ok(1), Ordinal::try_from(1 as i32).map(|ordinal| ordinal.get()));
    assert_eq!(Ok(1), Ordinal::try_from(1 as i64).map(|ordinal| ordinal.get()));
    assert_eq!(Ok(1), Ordinal::try_from(1 as u8).map(|ordinal| ordinal.get()));
    assert_eq!(Ok(1), Ordinal::try_from(1 as u16).map(|ordinal| ordinal.get()));
    assert_eq!(Ok(1), Ordinal::try_from(1 as u32).map(|ordinal| ordinal.get()));
    assert_eq!(Ok(1), Ordinal::try_from(1 as u64).map(|ordinal| ordinal.get()));
}

#[test]
fn wrapped_various() {
    assert_eq!(Ok(1), Ordinal::try_from(1).map(|ordinal| ordinal.get()));
    let made: Result<Ordinal<i32>, &'static str> = 1_i32.try_into();
    assert_eq!(Ok(1), made.map(|ordinal| ordinal.get()));
    assert_eq!(1, Ordinal::try_from(1).unwrap().get());
    assert_eq!("1st", Ordinal::try_from(1).unwrap().to_string());
}

#[test]
fn wrapped_try_from_to_ok() {
    let test_cases = vec![
        (1, 1),
        (2, 2),
        (3, 3),
        (4, 4),
        (11, 11),
        (12, 12),
        (21, 21),
    ];

    for (expected, input) in test_cases {
        assert_eq!(expected, Ordinal::try_from(input).unwrap().get())
    }
}

#[test]
fn wrapped_try_from_to_err() {
    let test_cases = vec![-11, -10, -3, -2, -1, 0];

    for input in test_cases {
        assert!(Ordinal::try_from(input).is_err())
    }
}

#[test]
fn wrapped_converted() {
    let test_cases = vec![
        ("1st", 1),
        ("2nd", 2),
        ("3rd", 3),
        ("4th", 4),
        ("11th", 11),
        ("12th", 12),
        ("21st", 21),
    ];

    for (expected, input) in test_cases {
        assert_eq!(expected, Ordinal::try_from(input).unwrap().to_string())
    }
}

#[test]
fn wrapped_refusal_says_why() {
    let message = "Ordinal inner value must be greater than zero";
    assert_eq!(Err(message), Ordinal::try_from(0u8).map(|ordinal| ordinal.get()));
    assert_eq!(Err(message), Ordinal::try_from(0u64).map(|ordinal| ordinal.get()));
    assert_eq!(Err(message), Ordinal::try_from(-1i8).map(|ordinal| ordinal.get()));
    assert_eq!(Err(message), Ordinal::try_from(i16::MIN).map(|ordinal| ordinal.get()));
    assert_eq!(Err(message), Ordinal::try_from(i64::MIN).map(|ordinal| ordinal.get()));
    assert_eq!(Err(message), Ordinal::try_from(0u16).map(|ordinal| ordinal.get()));
    assert_eq!(Err(message), Ordinal::try_from(0u32).map(|ordinal| ordinal.get()));
}

#[test]
fn wrapped_ordinals_compare_as_their_integers() {
    let third = Ordinal::try_from(3u32).unwrap();
    let fourth = Ordinal::try_from(4u32).unwrap();
    assert!(third < fourth);
    assert_eq!(third, third.clone());
    assert_ne!(third, fourth);
    let mut text = String::from("the ");
    fourth.fmt(&mut text);
    assert_eq!("the 4th", text);
    assert_eq!("255th", Ordinal::try_from(u8::MAX).unwrap().to_string());
    assert_eq!(
        "9223372036854775807th",
        Ordinal::try_from(i64::MAX).unwrap().to_string()
    );
}

use dice_roller::dice::Dice;
use dice_roller::error::{MalformedReason, ParseDieError};

fn malformed(token: &str, reason: MalformedReason) -> ParseDieError {
    ParseDieError::MalformedToken { token: token.to_string(), reason }
}

#[test]
fn test_parse() {
    let expected = Dice::new(6, 5);
    assert_eq!(expected, Dice::from_str("6d5").unwrap());

    let expected = Dice::new(1, 120);
    assert_eq!(expected, Dice::from_str("d120").unwrap());

    assert!(Dice::from_str("-5d20").is_err());
    assert!(Dice::from_str("5d-20").is_err());
    assert!(Dice::from_str("5d").is_err());
}

#[test]
fn parse_reads_as_from_str_does() {
    assert_eq!("6d5".parse::<Dice>(), Ok(Dice::new(6, 5)));
    assert_eq!("d120".parse::<Dice>(), Ok(Dice::new(1, 120)));
    assert_eq!("5d".parse::<Dice>(), Dice::from_str("5d"));
    assert_eq!("0d6".parse::<Dice>(), Dice::from_str("0d6"));
    assert_eq!(<Dice as std::str::FromStr>::from_str("2d4"), Ok(Dice::new(2, 4)));
}

#[test]
fn accepts_count_and_sides() {
    let dice = Dice::from_str("6d5").unwrap();
    assert_eq!(dice.count(), 6);
    assert_eq!(dice.sides(), 5);
}

#[test]
fn missing_count_is_one() {
    let dice = Dice::from_str("d120").unwrap();
    assert_eq!(dice.count(), 1);
    assert_eq!(dice.sides(), 120);
}

#[test]
fn leading_zeros_change_nothing() {
    assert_eq!(Dice::from_str("007d0020").unwrap(), Dice::new(7, 20));
    assert_eq!(
        Dice::from_str("00000000000000000001d00000000000000000002").unwrap(),
        Dice::new(1, 2)
    );
}

#[test]
fn greatest_numbers_are_read() {
    let dice = Dice::from_str("4294967295d4294967295").unwrap();
    assert_eq!(dice.count(), u32::MAX);
    assert_eq!(dice.sides(), u32::MAX);
}

#[test]
fn rejects_missing_sides() {
    assert_eq!(Dice::from_str("5d"), Err(malformed("5d", MalformedReason::MissingSides)));
    assert_eq!(Dice::from_str("d"), Err(malformed("d", MalformedReason::MissingSides)));
}

#[test]
fn rejects_missing_separator() {
    assert_eq!(Dice::from_str(""), Err(malformed("", MalformedReason::MissingSeparator)));
    assert_eq!(Dice::from_str("20"), Err(malformed("20", MalformedReason::MissingSeparator)));
}

#[test]
fn rejects_invalid_characters() {
    for token in [
        "-5d20", "5d-20", "bad", "3D6", "3d6 ", " 3d6", "3 d6", "3d 6", "3d6x", "x3d6", "1d2d3",
        "dd6", "3dd6", "3.5d6", "3d6.0", "+3d6", "3d+6", "3d6\n", "٣d6", "3d٦", "３d6",
    ] {
        assert_eq!(
            Dice::from_str(token),
            Err(malformed(token, MalformedReason::InvalidCharacter)),
            "{:?}",
            token
        );
    }
}

#[test]
fn rejects_numbers_that_do_not_fit() {
    assert_eq!(
        Dice::from_str("4294967296d6"),
        Err(malformed("4294967296d6", MalformedReason::CountOverflow))
    );
    assert_eq!(
        Dice::from_str("3d4294967296"),
        Err(malformed("3d4294967296", MalformedReason::SidesOverflow))
    );
    assert_eq!(
        Dice::from_str("99999999999999999999999999d99999999999999999999999999"),
        Err(malformed(
            "99999999999999999999999999d99999999999999999999999999",
            MalformedReason::CountOverflow
        ))
    );
    assert_eq!(
        Dice::from_str("0d18446744073709551616"),
        Err(malformed("0d18446744073709551616", MalformedReason::SidesOverflow))
    );
}

#[test]
fn rejects_sides_below_two() {
    assert_eq!(
        Dice::from_str("d1"),
        Err(ParseDieError::InvalidDescriptor { token: "d1".to_string(), count: 1, sides: 1 })
    );
    assert_eq!(
        Dice::from_str("d0"),
        Err(ParseDieError::InvalidDescriptor { token: "d0".to_string(), count: 1, sides: 0 })
    );
    assert_eq!(
        Dice::from_str("4d01"),
        Err(ParseDieError::InvalidDescriptor { token: "4d01".to_string(), count: 4, sides: 1 })
    );
}

#[test]
fn rejects_count_of_zero() {
    assert_eq!(
        Dice::from_str("0d6"),
        Err(ParseDieError::InvalidDescriptor { token: "0d6".to_string(), count: 0, sides: 6 })
    );
    assert_eq!(
        Dice::from_str("000d1"),
        Err(ParseDieError::InvalidDescriptor { token: "000d1".to_string(), count: 0, sides: 1 })
    );
}

#[test]
fn form_is_judged_before_size() {
    assert_eq!(
        Dice::from_str("4294967296d"),
        Err(malformed("4294967296d", MalformedReason::MissingSides))
    );
    assert_eq!(
        Dice::from_str("4294967296d6x"),
        Err(malformed("4294967296d6x", MalformedReason::InvalidCharacter))
    );
}

#[test]
fn try_new_refuses_what_is_no_descriptor() {
    assert_eq!(Dice::try_new(1, 2), Some(Dice::new(1, 2)));
    assert_eq!(Dice::try_new(0, 6), None);
    assert_eq!(Dice::try_new(3, 1), None);
    assert_eq!(Dice::try_new(3, 0), None);
    assert_eq!(Dice::try_new(0, 0), None);
    assert_eq!(Dice::try_new(u32::MAX, u32::MAX).map(|d| (d.count(), d.sides())), Some((u32::MAX, u32::MAX)));
}

#[test]
fn writes_canonical_notation() {
    assert_eq!(Dice::new(3, 6).to_string(), "3d6");
    assert_eq!(Dice::new(1, 120).to_string(), "1d120");
    assert_eq!(Dice::new(10, 100).to_string(), "10d100");
    assert_eq!(Dice::new(u32::MAX, u32::MAX).to_string(), "4294967295d4294967295");
}

#[test]
fn reading_what_was_written_gives_the_same_dice() {
    for token in ["d120", "6d5", "1d2", "007d0020", "4294967295d2", "12d4294967295"] {
        let dice = Dice::from_str(token).unwrap();
        assert_eq!(Dice::from_str(&dice.to_string()), Ok(dice), "{}", token);
    }
    for count in [1u32, 2, 9, 10, 11, 99, 100, 101, 1000, 65535, 65536, u32::MAX - 1, u32::MAX] {
        for sides in [2u32, 3, 9, 10, 19, 20, 100, 999, 1000, 1 << 31, u32::MAX] {
            let dice = Dice::new(count, sides);
            assert_eq!(Dice::from_str(&dice.to_string()), Ok(dice));
        }
    }
}

#[test]
fn errors_say_what_is_wrong() {
    assert_eq!(
        Dice::from_str("5d").unwrap_err().to_string(),
        "malformed dice notation '5d': the number of sides is missing"
    );
    assert_eq!(
        Dice::from_str("20").unwrap_err().to_string(),
        "malformed dice notation '20': the separator 'd' is missing"
    );
    assert_eq!(
        Dice::from_str("bad").unwrap_err().to_string(),
        "malformed dice notation 'bad': only digits and one 'd' may appear"
    );
    assert_eq!(
        Dice::from_str("4294967296d6").unwrap_err().to_string(),
        "malformed dice notation '4294967296d6': the number of dice is too large"
    );
    assert_eq!(
        Dice::from_str("6d4294967296").unwrap_err().to_string(),
        "malformed dice notation '6d4294967296': the number of sides is too large"
    );
    assert_eq!(
        Dice::from_str("0d6").unwrap_err().to_string(),
        "invalid dice '0d6': there must be at least one die, of at least two sides"
    );
    assert_eq!(MalformedReason::MissingSides.text(), "the number of sides is missing");
}

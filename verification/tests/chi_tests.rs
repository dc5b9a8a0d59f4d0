use chi::date::Date;
use chi::{Chi, Gender, InvalidDateError, ParseError};

#[test]
fn valid_date_of_birth() {
    let x = Chi::parse("1811431232").unwrap();
    assert_eq!(
        x.date_of_birth(23),
        Ok(Date { year: 1943, month: 11, day: 18 })
    );
    let y = Chi::parse("1304236366").unwrap();
    assert_eq!(
        y.date_of_birth(23),
        Ok(Date { year: 2023, month: 4, day: 13 })
    );
    let z = Chi::parse("1304496368").unwrap();
    assert_eq!(
        z.date_of_birth(23),
        Ok(Date { year: 1949, month: 4, day: 13 })
    );
}

#[test]
fn gender() {
    let x = Chi::parse("1811431232").unwrap();
    assert_eq!(x.gender(), Gender::Male);
    let y = Chi::parse("1304236366").unwrap();
    assert_eq!(y.gender(), Gender::Female);
    let z = Chi::parse("1304496368").unwrap();
    assert_eq!(z.gender(), Gender::Female);
}

#[test]
fn invalid_date_of_birth() {
    // A correct check digit does not make the date digits a real date:
    // month 97 is rejected.
    let x = Chi::parse("1097011232").unwrap();
    assert_eq!(x.date_of_birth(23), Err(InvalidDateError));
}

#[test]
fn wrong_length() {
    assert!(matches!(
        Chi::parse("100970123"),
        Err(ParseError::FormatError)
    ));
    assert!(matches!(
        Chi::parse("18114312322"),
        Err(ParseError::FormatError)
    ));
    assert!(matches!(Chi::parse(""), Err(ParseError::FormatError)));
}

#[test]
fn non_digit_characters() {
    assert!(matches!(
        Chi::parse("18114312a2"),
        Err(ParseError::FormatError)
    ));
    assert!(matches!(
        Chi::parse("18/11/1943"),
        Err(ParseError::FormatError)
    ));
}

#[test]
fn checksum_mismatch() {
    // "1811431232" is valid; any other final digit must be rejected.
    assert!(matches!(
        Chi::parse("1811431233"),
        Err(ParseError::ChecksumError)
    ));
    assert!(matches!(
        Chi::parse("1811431231"),
        Err(ParseError::ChecksumError)
    ));
    // The weighted sum of "100970123" demands a check digit of 1, not 4.
    assert!(matches!(
        Chi::parse("1009701234"),
        Err(ParseError::ChecksumError)
    ));
    assert!(Chi::parse("1009701231").is_ok());
}

#[test]
fn parse_keeps_digit_content() {
    let x = Chi::parse("1811431232").unwrap();
    let expected: [u8; 10] = [1, 8, 1, 1, 4, 3, 1, 2, 3, 2];
    for (i, d) in expected.iter().enumerate() {
        assert_eq!(x.digit(i), *d);
    }
}

#[test]
fn zero_remainder_check_digit() {
    // All-zero digits have weighted sum 0, so the raw formula yields 11,
    // which must be corrected to a check digit of 0.
    let x = Chi::parse("0000000000").unwrap();
    // Day 0 and month 0 are no calendar date.
    assert_eq!(x.date_of_birth(23), Err(InvalidDateError));
    assert_eq!(x.gender(), Gender::Female);
}

#[test]
fn century_boundary() {
    // Year suffix 23: at cutoff 23 it is 2023, at cutoff 22 it is 1923.
    let y = Chi::parse("1304236366").unwrap();
    assert_eq!(y.date_of_birth(23).unwrap().year, 2023);
    assert_eq!(y.date_of_birth(22).unwrap().year, 1923);
    // Year suffix 49: one past cutoff 48 falls back to 1949, at cutoff
    // 49 it resolves to 2049.
    let z = Chi::parse("1304496368").unwrap();
    assert_eq!(z.date_of_birth(48).unwrap().year, 1949);
    assert_eq!(z.date_of_birth(49).unwrap().year, 2049);
}

#[test]
fn leap_year_dates() {
    // 29 February 2004 exists.
    let leap = Chi::parse("2902040008").unwrap();
    assert_eq!(
        leap.date_of_birth(23),
        Ok(Date { year: 2004, month: 2, day: 29 })
    );
    // 29 February 2003 does not.
    let common = Chi::parse("2902030002").unwrap();
    assert_eq!(common.date_of_birth(23), Err(InvalidDateError));
}

#[test]
fn gender_parity_all_digits() {
    // One valid CHI number for each possible ninth digit 0..=9.
    let cases = [
        ("0000000000", Gender::Female),
        ("0000000019", Gender::Male),
        ("0000000027", Gender::Female),
        ("0000000035", Gender::Male),
        ("0000000043", Gender::Female),
        ("0000000051", Gender::Male),
        ("0000000167", Gender::Female),
        ("0000000078", Gender::Male),
        ("0000000086", Gender::Female),
        ("0000000094", Gender::Male),
    ];
    for (raw, expected) in cases.iter() {
        let x = Chi::parse(raw).unwrap();
        assert_eq!(x.gender(), *expected);
    }
}

#[test]
fn date_of_birth_deterministic() {
    let a = Chi::parse("1811431232").unwrap();
    let b = Chi::parse("1811431232").unwrap();
    assert_eq!(a.date_of_birth(23), b.date_of_birth(23));
    assert_eq!(a.date_of_birth(23), a.date_of_birth(23));
}

#[test]
fn date_from_ymd_rejects_bad_triples() {
    assert_eq!(
        Date::from_ymd(2023, 4, 13),
        Some(Date { year: 2023, month: 4, day: 13 })
    );
    assert_eq!(Date::from_ymd(2023, 13, 1), None);
    assert_eq!(Date::from_ymd(2023, 0, 1), None);
    assert_eq!(Date::from_ymd(2023, 4, 31), None);
    assert_eq!(Date::from_ymd(2023, 4, 0), None);
    assert!(Date::from_ymd(1943, 11, 18).is_some());
}

#[test]
fn date_validity_agrees_with_chrono() {
    let triples = [
        (1943u32, 11u32, 18u32),
        (2023, 4, 13),
        (1949, 4, 13),
        (2004, 2, 29),
        (2003, 2, 29),
        (2000, 2, 29),
        (1900, 2, 29),
        (1970, 97, 10),
        (2011, 11, 31),
        (1999, 12, 31),
        (2020, 0, 1),
        (2020, 1, 0),
    ];
    for (y, m, d) in triples.iter() {
        let ours = Date::from_ymd(*y, *m, *d);
        let chronos = chrono::NaiveDate::from_ymd_opt(*y as i32, *m, *d);
        assert_eq!(ours.is_some(), chronos.is_some());
    }
}

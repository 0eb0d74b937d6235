use baru::number::message_of;
use baru::number::decimal_chars;
use baru::number::padded;
use baru::number::parse_i32;
use baru::number::IntErrorKind;
use baru::temperature::shown;

fn kind_of_std(text: &str) -> Result<i32, IntErrorKind> {
    match text.parse::<i32>() {
        Ok(value) => Ok(value),
        Err(error) => Err(match error.kind() {
            std::num::IntErrorKind::Empty => IntErrorKind::Empty,
            std::num::IntErrorKind::InvalidDigit => IntErrorKind::InvalidDigit,
            std::num::IntErrorKind::PosOverflow => IntErrorKind::PosOverflow,
            std::num::IntErrorKind::NegOverflow => IntErrorKind::NegOverflow,
            other => panic!("unexpected kind {:?}", other),
        }),
    }
}

#[test]
fn parse_plain_numbers() {
    assert_eq!(parse_i32("45000"), Ok(45000));
    assert_eq!(parse_i32("0"), Ok(0));
    assert_eq!(parse_i32("-5"), Ok(-5));
    assert_eq!(parse_i32("+7"), Ok(7));
    assert_eq!(parse_i32("-0"), Ok(0));
    assert_eq!(parse_i32("007"), Ok(7));
    assert_eq!(parse_i32("0000000000000000000012"), Ok(12));
}

#[test]
fn parse_limits() {
    assert_eq!(parse_i32("2147483647"), Ok(i32::MAX));
    assert_eq!(parse_i32("-2147483648"), Ok(i32::MIN));
    assert_eq!(parse_i32("+2147483647"), Ok(i32::MAX));
    assert_eq!(parse_i32("2147483648"), Err(IntErrorKind::PosOverflow));
    assert_eq!(parse_i32("-2147483649"), Err(IntErrorKind::NegOverflow));
    assert_eq!(parse_i32("99999999999"), Err(IntErrorKind::PosOverflow));
    assert_eq!(parse_i32("-99999999999"), Err(IntErrorKind::NegOverflow));
}

#[test]
fn parse_empty_text() {
    assert_eq!(parse_i32(""), Err(IntErrorKind::Empty));
}

#[test]
fn parse_invalid_digit() {
    assert_eq!(parse_i32("-"), Err(IntErrorKind::InvalidDigit));
    assert_eq!(parse_i32("+"), Err(IntErrorKind::InvalidDigit));
    assert_eq!(parse_i32("12a"), Err(IntErrorKind::InvalidDigit));
    assert_eq!(parse_i32("a12"), Err(IntErrorKind::InvalidDigit));
    assert_eq!(parse_i32(" 5"), Err(IntErrorKind::InvalidDigit));
    assert_eq!(parse_i32("5 "), Err(IntErrorKind::InvalidDigit));
    assert_eq!(parse_i32("1_000"), Err(IntErrorKind::InvalidDigit));
    assert_eq!(parse_i32("--5"), Err(IntErrorKind::InvalidDigit));
    assert_eq!(parse_i32("+-5"), Err(IntErrorKind::InvalidDigit));
    assert_eq!(parse_i32("4.5"), Err(IntErrorKind::InvalidDigit));
    assert_eq!(parse_i32("\u{663}"), Err(IntErrorKind::InvalidDigit));
}

#[test]
fn parse_first_fault_decides() {
    // the number leaves the range before the letter is reached
    assert_eq!(parse_i32("99999999999x"), Err(IntErrorKind::PosOverflow));
    assert_eq!(parse_i32("-99999999999x"), Err(IntErrorKind::NegOverflow));
    // the letter is reached before the number leaves the range
    assert_eq!(parse_i32("1x99999999999"), Err(IntErrorKind::InvalidDigit));
    assert_eq!(parse_i32("2147483647x"), Err(IntErrorKind::InvalidDigit));
    assert_eq!(parse_i32("214748364x8"), Err(IntErrorKind::InvalidDigit));
}

#[test]
fn parse_agrees_with_std() {
    let texts = [
        "", "0", "-0", "+0", "-", "+", "1", "-1", "+1", "45000", "-45000", "2147483647",
        "2147483648", "-2147483648", "-2147483649", "21474836470", "99999999999x", "x9", "9x",
        "-99999999999x", "1x99999999999", " 1", "1 ", "1\n", "\t1", "0x10", "1e3", "1.0", "١٢٣",
        "000000000000000000000000001", "-000000000000000000002147483648", "+-1", "-+1", "++1",
        "4294967296", "4294967295", "-4294967296", "12345678", "1234567", "-1234567",
        "-12345678", "214748364", "2147483640", "2147483649", "3000000000", "-3000000000",
    ];
    for text in texts {
        assert_eq!(parse_i32(text), kind_of_std(text), "text {:?}", text);
    }
}

#[test]
fn messages_agree_with_std() {
    for text in ["", "x", "2147483648", "-2147483649"] {
        let kind = parse_i32(text).unwrap_err();
        let error = text.parse::<i32>().unwrap_err();
        assert_eq!(message_of(kind), error.to_string());
    }
}

#[test]
fn messages_of_the_four_kinds() {
    assert_eq!(message_of(IntErrorKind::Empty), "cannot parse integer from empty string");
    assert_eq!(message_of(IntErrorKind::InvalidDigit), "invalid digit found in string");
    assert_eq!(message_of(IntErrorKind::PosOverflow), "number too large to fit in target type");
    assert_eq!(message_of(IntErrorKind::NegOverflow), "number too small to fit in target type");
}

#[test]
fn decimal_of_some_numbers() {
    let text = |v: i32| decimal_chars(v).into_iter().collect::<String>();
    assert_eq!(text(0), "0");
    assert_eq!(text(7), "7");
    assert_eq!(text(10), "10");
    assert_eq!(text(45), "45");
    assert_eq!(text(-45), "-45");
    assert_eq!(text(1000000), "1000000");
    assert_eq!(text(i32::MAX), "2147483647");
    assert_eq!(text(i32::MIN), "-2147483648");
}

#[test]
fn padded_fills_three_columns() {
    assert_eq!(padded(45, 3), " 45");
    assert_eq!(padded(5, 3), "  5");
    assert_eq!(padded(0, 3), "  0");
    assert_eq!(padded(100, 3), "100");
    assert_eq!(padded(1000, 3), "1000");
    assert_eq!(padded(-5, 3), " -5");
    assert_eq!(padded(-45, 3), "-45");
    assert_eq!(padded(-100, 3), "-100");
    assert_eq!(padded(7, 0), "7");
    assert_eq!(padded(7, 1), "7");
    assert_eq!(padded(i32::MIN, 12), " -2147483648");
}

#[test]
fn padded_agrees_with_std() {
    let values = [
        0, 1, -1, 9, 10, -9, -10, 99, 100, -99, -100, 999, 1000, 45, 2147483, -2147484,
        i32::MAX, i32::MIN,
    ];
    for v in values {
        assert_eq!(padded(v, 3), format!("{:3}", v));
        assert_eq!(padded(v, 0), format!("{}", v));
        assert_eq!(padded(v, 11), format!("{:11}", v));
    }
}

#[test]
fn decimal_is_read_back() {
    for v in [0, 1, -1, 45, -45, 1000, 2147483, i32::MAX, i32::MIN] {
        let text: String = decimal_chars(v).into_iter().collect();
        assert_eq!(parse_i32(&text), Ok(v));
    }
}

#[test]
fn four_readings_average_to_45() {
    assert_eq!(shown(45000, 46000, 44000, 45000), 45);
}

#[test]
fn a_half_rounds_away_from_zero() {
    // sum 2000 is half a degree, sum 6000 is one and a half
    assert_eq!(shown(2000, 0, 0, 0), 1);
    assert_eq!(shown(1999, 0, 0, 0), 0);
    assert_eq!(shown(6000, 0, 0, 0), 2);
    assert_eq!(shown(5999, 0, 0, 0), 1);
    assert_eq!(shown(-2000, 0, 0, 0), -1);
    assert_eq!(shown(-1999, 0, 0, 0), 0);
    assert_eq!(shown(-6000, 0, 0, 0), -2);
    assert_eq!(shown(-5999, 0, 0, 0), -1);
    assert_eq!(shown(49500, 49500, 49500, 49500), 50);
    assert_eq!(shown(49499, 49500, 49500, 49500), 49);
}

#[test]
fn shown_at_the_limits() {
    assert_eq!(shown(i32::MAX, i32::MAX, i32::MAX, i32::MAX), 2147484);
    assert_eq!(shown(i32::MIN, i32::MIN, i32::MIN, i32::MIN), -2147484);
    assert_eq!(shown(i32::MAX, i32::MIN, 0, 0), 0);
    assert_eq!(shown(0, 0, 0, 0), 0);
}

#[test]
fn shown_agrees_with_rounding_of_the_mean() {
    let readings = [
        -100000, -50500, -50000, -2001, -2000, -1999, -1, 0, 1, 499, 500, 1999, 2000, 2001,
        44000, 45000, 46000, 49499, 49500, 50000, 69500, 70000, 100499, 100500,
    ];
    for a in readings {
        for b in readings {
            let sum = a as f64 + b as f64 + 45000.0 + 46000.0;
            let expected = ((sum / 4.0) / 1000.0).round() as i32;
            assert_eq!(shown(a, b, 45000, 46000), expected);
        }
    }
}

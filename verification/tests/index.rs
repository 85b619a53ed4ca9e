use quartz_messenger::error::ClientError;
use quartz_messenger::index::parse_index;

#[test]
fn plain_digits_are_an_index() {
    assert_eq!(parse_index("0"), Ok(0));
    assert_eq!(parse_index("7"), Ok(7));
    assert_eq!(parse_index("12"), Ok(12));
    assert_eq!(parse_index("4096"), Ok(4096));
}

#[test]
fn leading_plus_and_zeros_are_accepted() {
    assert_eq!(parse_index("+5"), Ok(5));
    assert_eq!(parse_index("+0"), Ok(0));
    assert_eq!(parse_index("0007"), Ok(7));
    assert_eq!(parse_index("+0007"), Ok(7));
}

#[test]
fn text_that_is_no_number_is_refused() {
    for text in ["abc", "", "+", "-", "-1", "++1", "+-1", "1+", "1a", "a1", " 1", "1 ", "1.0", "1_000", "0x10"] {
        assert_eq!(parse_index(text), Err(ClientError::NonNumericIndex), "{:?}", text);
    }
}

#[test]
fn digits_outside_ascii_are_refused() {
    for text in ["\u{0661}", "1\u{0662}", "\u{ff11}", "1\u{00e9}", "\u{1d7cf}"] {
        assert_eq!(parse_index(text), Err(ClientError::NonNumericIndex), "{:?}", text);
    }
}

#[test]
fn largest_index_is_accepted_and_the_next_refused() {
    let largest = format!("{}", usize::MAX);
    assert_eq!(parse_index(&largest), Ok(usize::MAX));
    let next = format!("{}", usize::MAX as u128 + 1);
    assert_eq!(parse_index(&next), Err(ClientError::NonNumericIndex));
    let tenfold = format!("{}0", usize::MAX);
    assert_eq!(parse_index(&tenfold), Err(ClientError::NonNumericIndex));
    assert_eq!(parse_index("99999999999999999999999999999999999999999"), Err(ClientError::NonNumericIndex));
    let padded = format!("000000000000000000000000000000{}", usize::MAX);
    assert_eq!(parse_index(&padded), Ok(usize::MAX));
}

#[test]
fn agrees_with_the_standard_parser() {
    let samples = [
        "0", "1", "10", "+10", "010", "18446744073709551615", "18446744073709551616",
        "4294967295", "4294967296", "", "+", "-0", "-", "abc", "12abc", " 12", "12\n", "1e3",
        "+ 1", "\u{0663}", "\u{ff11}\u{ff12}", "0000000000000000000000000000000000000001",
    ];
    for text in samples {
        assert_eq!(parse_index(text).ok(), text.parse::<usize>().ok(), "{:?}", text);
    }
}

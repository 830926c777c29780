use treat_dispenser::count::{parse_count, PayloadError};

#[test]
fn digits_are_read() {
    assert_eq!(parse_count(b"0"), Ok(0));
    assert_eq!(parse_count(b"7"), Ok(7));
    assert_eq!(parse_count(b"1234567890"), Ok(1234567890));
    assert_eq!(parse_count(b"0042"), Ok(42));
}

#[test]
fn plus_sign_is_optional() {
    assert_eq!(parse_count(b"+42"), Ok(42));
    assert_eq!(parse_count(b"+"), Err(PayloadError::NotACount));
    assert_eq!(parse_count(b"++1"), Err(PayloadError::NotACount));
    assert_eq!(parse_count(b"-1"), Err(PayloadError::NotACount));
    assert_eq!(parse_count(b"-0"), Err(PayloadError::NotACount));
}

#[test]
fn largest_count_is_read_and_the_next_is_not() {
    assert_eq!(parse_count(b"4294967295"), Ok(u32::MAX));
    assert_eq!(parse_count(b"4294967296"), Err(PayloadError::NotACount));
    assert_eq!(parse_count(b"99999999999999999999999999"), Err(PayloadError::NotACount));
    assert_eq!(parse_count(b"00000000000000000000004294967295"), Ok(u32::MAX));
}

#[test]
fn other_text_is_no_count() {
    assert_eq!(parse_count(b""), Err(PayloadError::NotACount));
    assert_eq!(parse_count(b" 1"), Err(PayloadError::NotACount));
    assert_eq!(parse_count(b"1\n"), Err(PayloadError::NotACount));
    assert_eq!(parse_count(b"1_000"), Err(PayloadError::NotACount));
    assert_eq!(parse_count(b"1.0"), Err(PayloadError::NotACount));
    assert_eq!(parse_count("\u{0661}".as_bytes()), Err(PayloadError::NotACount));
}

#[test]
fn bytes_that_are_no_text_are_told_apart() {
    assert_eq!(parse_count(&[0xff]), Err(PayloadError::NotUtf8));
    assert_eq!(parse_count(&[0x31, 0x80]), Err(PayloadError::NotUtf8));
    assert_eq!(parse_count(&[0xe2, 0x82]), Err(PayloadError::NotUtf8));
}

#[test]
fn reads_what_the_standard_library_reads() {
    let texts = [
        "", "+", "-", "0", "+0", "-0", "00", "1", "+1", "1+", "9", ":", "/", "10", "0x10", "1e3", "4294967294",
        "4294967295", "4294967296", "42949672950", "+4294967295", "+4294967296", "99999999999x", " 1", "1 ", "\u{ff11}",
    ];
    for text in texts {
        assert_eq!(parse_count(text.as_bytes()).ok(), text.parse::<u32>().ok(), "{:?}", text);
    }
}

#[test]
fn decimal_text_reads_back() {
    for count in (0..2_000u32).chain(u32::MAX - 2_000..=u32::MAX) {
        assert_eq!(parse_count(format!("{}", count).as_bytes()), Ok(count));
        assert_eq!(parse_count(format!("+{}", count).as_bytes()), Ok(count));
    }
}

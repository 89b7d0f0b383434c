use spvc::codec::{i64_to_dec, parse_i64};

#[test]
fn renders_zero() {
    assert_eq!(i64_to_dec(0), b"0".to_vec());
}

#[test]
fn renders_positive() {
    assert_eq!(i64_to_dec(7), b"7".to_vec());
    assert_eq!(i64_to_dec(1234567), b"1234567".to_vec());
    assert_eq!(i64_to_dec(i64::MAX), b"9223372036854775807".to_vec());
}

#[test]
fn renders_negative() {
    assert_eq!(i64_to_dec(-42), b"-42".to_vec());
    assert_eq!(i64_to_dec(i64::MIN), b"-9223372036854775808".to_vec());
}

#[test]
fn rendering_matches_std() {
    for n in [0i64, 1, -1, 10, 99, -100, 4096, i64::MAX, i64::MIN, i64::MAX - 1, i64::MIN + 1] {
        assert_eq!(i64_to_dec(n), n.to_string().into_bytes());
    }
}

#[test]
fn parses_plain_integers() {
    assert_eq!(parse_i64(&b"0".to_vec()), Some(0));
    assert_eq!(parse_i64(&b"42".to_vec()), Some(42));
    assert_eq!(parse_i64(&b"007".to_vec()), Some(7));
}

#[test]
fn parses_signed_integers() {
    assert_eq!(parse_i64(&b"+17".to_vec()), Some(17));
    assert_eq!(parse_i64(&b"-42".to_vec()), Some(-42));
    assert_eq!(parse_i64(&b"-0".to_vec()), Some(0));
}

#[test]
fn parses_extremes() {
    assert_eq!(parse_i64(&b"9223372036854775807".to_vec()), Some(i64::MAX));
    assert_eq!(parse_i64(&b"-9223372036854775808".to_vec()), Some(i64::MIN));
}

#[test]
fn rejects_out_of_range() {
    assert_eq!(parse_i64(&b"9223372036854775808".to_vec()), None);
    assert_eq!(parse_i64(&b"-9223372036854775809".to_vec()), None);
    assert_eq!(parse_i64(&b"99999999999999999999999999".to_vec()), None);
}

#[test]
fn rejects_malformed() {
    assert_eq!(parse_i64(&b"".to_vec()), None);
    assert_eq!(parse_i64(&b"+".to_vec()), None);
    assert_eq!(parse_i64(&b"-".to_vec()), None);
    assert_eq!(parse_i64(&b"12a".to_vec()), None);
    assert_eq!(parse_i64(&b"a12".to_vec()), None);
    assert_eq!(parse_i64(&b" 1".to_vec()), None);
    assert_eq!(parse_i64(&b"1 ".to_vec()), None);
    assert_eq!(parse_i64(&b"--1".to_vec()), None);
    assert_eq!(parse_i64(&b"+-1".to_vec()), None);
}

#[test]
fn parsing_matches_std() {
    for s in ["0", "42", "+17", "-42", "", "+", "-", "12a", "9223372036854775808",
        "-9223372036854775808", "007", " 1"]
    {
        assert_eq!(parse_i64(&s.as_bytes().to_vec()), s.parse::<i64>().ok(), "input {:?}", s);
    }
}

#[test]
fn round_trips() {
    for n in [0i64, 1, -1, 77, -4096, i64::MAX, i64::MIN] {
        assert_eq!(parse_i64(&i64_to_dec(n)), Some(n));
    }
}

use microblog::identity::{format_user_id, parse_user_id};

fn parse(s: &str) -> Option<i32> {
    parse_user_id(&s.to_string())
}

#[test]
fn formats_ids_in_decimal() {
    assert_eq!(format_user_id(0), "0");
    assert_eq!(format_user_id(42), "42");
    assert_eq!(format_user_id(-7), "-7");
    assert_eq!(format_user_id(i32::MAX), "2147483647");
    assert_eq!(format_user_id(i32::MIN), "-2147483648");
}

#[test]
fn parses_like_str_parse() {
    for s in ["0", "12", "+12", "-0", "-15", "2147483647", "-2147483648", "007"] {
        assert_eq!(parse(s), s.parse::<i32>().ok(), "{}", s);
    }
    for s in ["", "-", "+", "12a", " 1", "1 ", "2147483648", "-2147483649", "99999999999", "1_000", "--1"] {
        assert_eq!(parse(s), None, "{}", s);
        assert!(s.parse::<i32>().is_err());
    }
}

#[test]
fn identity_round_trips() {
    for v in [0, 1, -1, 9, 10, 99, 100, 123456, -98765, i32::MAX, i32::MIN] {
        assert_eq!(parse_user_id(&format_user_id(v)), Some(v));
        assert_eq!(format_user_id(v), v.to_string());
    }
}

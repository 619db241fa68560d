use resocks5::text::{
    begins_with, chars_of, join, decimal, eq_ignore_ascii_case, push_number, rsplit_once,
    same_text, signed_decimal, split_once, trim, white_space,
};

#[test]
fn white_space_is_that_of_unicode() {
    for n in 0..=0x10ffffu32 {
        if let Some(c) = char::from_u32(n) {
            assert_eq!(white_space(c), c.is_whitespace(), "{:x}", n);
        }
    }
}

#[test]
fn trimming_and_splitting_agree_with_std() {
    for s in [
        "", " ", "  a b\t", "\u{2003}é \u{3000}", "a:b:c", ":", "::", "a:", ":b", "no colon", "ü:ö",
    ] {
        assert_eq!(trim(s), s.trim());
        assert_eq!(split_once(s, ':'), s.split_once(':'));
        assert_eq!(rsplit_once(s, ':'), s.rsplit_once(':'));
        assert_eq!(chars_of(s), s.chars().collect::<Vec<char>>());
        for p in ["", "a", ":", "no", "ü", "a:b:c:d"] {
            assert_eq!(begins_with(s, p), s.starts_with(p));
            assert_eq!(same_text(s, p), s == p);
            assert_eq!(eq_ignore_ascii_case(s, p), s.eq_ignore_ascii_case(p));
        }
    }
    assert!(eq_ignore_ascii_case("bAsIc", "Basic"));
    assert!(!eq_ignore_ascii_case("É", "é"));
    assert!(!eq_ignore_ascii_case("[", "{"));
}

#[test]
fn numbers_are_written_as_std_writes_them() {
    for n in [0u64, 7, 9, 10, 99, 100, 16384, u64::MAX] {
        assert_eq!(decimal(n), format!("{}", n));
        let mut s = String::new();
        push_number(&mut s, n, 16);
        assert_eq!(s, format!("{:x}", n));
        let mut s = String::from("0o");
        push_number(&mut s, n, 8);
        assert_eq!(s, format!("0o{:o}", n));
    }
    for n in [0, 1, -1, 1176, i32::MAX, i32::MIN] {
        assert_eq!(signed_decimal(n), format!("{}", n));
    }
    assert_eq!(join("a", "é"), "aé");
}

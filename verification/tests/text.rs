use popis::text::{chars_of, parse_i32, parse_u32, parse_u8, push_decimal, split_chars, trim_chars};

fn c(s: &str) -> Vec<char> {
    s.chars().collect()
}

#[test]
fn numbers_parse_as_std_parses_them() {
    for s in ["0", "7", "+7", "255", "256", "-1", "", "+", "-", "1a", " 1", "007", "+-1"] {
        assert_eq!(parse_u8(&c(s)), s.parse::<u8>().ok(), "u8 {s:?}");
        assert_eq!(parse_u32(&c(s)), s.parse::<u32>().ok(), "u32 {s:?}");
        assert_eq!(parse_i32(&c(s)), s.parse::<i32>().ok(), "i32 {s:?}");
    }
    for s in ["4294967295", "4294967296", "2147483647", "2147483648", "-2147483648", "-2147483649", "-0", "+0"] {
        assert_eq!(parse_u32(&c(s)), s.parse::<u32>().ok(), "u32 {s:?}");
        assert_eq!(parse_i32(&c(s)), s.parse::<i32>().ok(), "i32 {s:?}");
    }
}

#[test]
fn decimals_are_written_as_display_writes_them() {
    for n in [0u64, 5, 10, 99, 12345, u64::MAX] {
        let mut s = String::from("x=");
        push_decimal(&mut s, n);
        assert_eq!(s, format!("x={n}"));
    }
}

#[test]
fn trimming_and_splitting() {
    assert_eq!(trim_chars(&c("\u{a0} 12 maja\t\n")), c("12 maja"));
    assert_eq!(trim_chars(&c("   ")), c(""));
    let pieces = split_chars(&c("a  b c"), ' ');
    let expected: Vec<Vec<char>> = "a  b c".split(' ').map(c).collect();
    assert_eq!(pieces, expected);
    assert_eq!(split_chars(&c(""), ' '), vec![c("")]);
    assert_eq!(chars_of("września"), c("września"));
}

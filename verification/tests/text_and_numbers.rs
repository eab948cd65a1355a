use mcp_stdio::decimal::{format_decimal, parse_usize, IntErrorKind};
use mcp_stdio::text::{chars_of, is_whitespace, strip_prefix, trim};

fn chars(s: &str) -> Vec<char> {
    s.chars().collect()
}

fn std_kind(s: &str) -> Result<usize, IntErrorKind> {
    match s.parse::<usize>() {
        Ok(n) => Ok(n),
        Err(e) => match e.kind() {
            std::num::IntErrorKind::Empty => Err(IntErrorKind::Empty),
            std::num::IntErrorKind::InvalidDigit => Err(IntErrorKind::InvalidDigit),
            std::num::IntErrorKind::PosOverflow => Err(IntErrorKind::PosOverflow),
            other => panic!("unexpected kind {other:?}"),
        },
    }
}

#[test]
fn format_decimal_matches_display() {
    for n in [0usize, 1, 9, 10, 11, 99, 100, 4096, 1234567890, usize::MAX, usize::MAX - 1] {
        assert_eq!(format_decimal(n).iter().collect::<String>(), n.to_string());
    }
    for n in 0usize..2000 {
        assert_eq!(format_decimal(n).iter().collect::<String>(), n.to_string());
    }
}

#[test]
fn parse_usize_matches_std() {
    let max = usize::MAX.to_string();
    let over = format!("{}0", max);
    let just_over = {
        let mut m = max.clone().into_bytes();
        let last = m.len() - 1;
        m[last] += 1;
        String::from_utf8(m).unwrap()
    };
    let over_then_bad = format!("{}x", over);
    let bad_then_over = format!("1x{}", over);
    let cases: Vec<&str> = vec![
        "", "0", "7", "42", "+42", "+", "-", "-0", "-5", "++5", "+-5", "4 2", " 42", "42 ", "4a",
        "a4", "007", "\u{663}", "٣", &max, &over, &just_over, &over_then_bad, &bad_then_over,
        "18446744073709551616", "99999999999999999999",
    ];
    for s in cases {
        assert_eq!(parse_usize(&chars(s)), std_kind(s), "{s:?}");
    }
}

#[test]
fn parse_reads_back_formatted_numbers() {
    for n in [0usize, 5, 10, 65535, usize::MAX] {
        assert_eq!(parse_usize(&format_decimal(n)), Ok(n));
    }
}

#[test]
fn whitespace_matches_char_is_whitespace() {
    for code in 0u32..0x3100 {
        if let Some(c) = char::from_u32(code) {
            assert_eq!(is_whitespace(c), c.is_whitespace(), "{code:#x}");
        }
    }
    for c in ['\u{feff}', '\u{10ffff}', '\u{e000}', '\u{200b}'] {
        assert_eq!(is_whitespace(c), c.is_whitespace());
    }
}

#[test]
fn trim_matches_str_trim() {
    for s in [
        "", " ", "  a  ", "\t\r\nabc\r\n", "\u{a0}x\u{3000}", "a b", "   \u{2028}", "x", "\u{85}y z\u{85}",
    ] {
        assert_eq!(trim(&chars(s)), chars(s.trim()), "{s:?}");
    }
}

#[test]
fn strip_prefix_matches_str_strip_prefix() {
    for (s, p) in [
        ("Content-Length: 5", "Content-Length:"),
        ("Content-Length:", "Content-Length:"),
        ("Content-Lengt", "Content-Length:"),
        ("content-length: 5", "Content-Length:"),
        ("abc", ""),
    ] {
        assert_eq!(strip_prefix(&chars(s), &chars(p)), s.strip_prefix(p).map(chars), "{s:?}");
    }
}

#[test]
fn chars_of_collects_characters() {
    for s in ["", "abc", "héllo wörld", "\u{10ffff}\r\n"] {
        assert_eq!(chars_of(s), chars(s));
    }
}

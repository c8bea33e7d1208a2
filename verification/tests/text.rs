use kernel_sysctl::chars::{chars_of, scan, scan_back, trimmed, CharClass};
use kernel_sysctl::decimal::{parse_i32, parse_u64, parse_u8, push_decimal};
use kernel_sysctl::source::without_newline;
use kernel_sysctl::split::{cut_piece, cut_token};
use kernel_sysctl::IntError;

fn chars(s: &str) -> Vec<char> {
    s.chars().collect()
}

fn text(s: &[char]) -> String {
    s.iter().collect()
}

#[test]
fn chars_of_keeps_every_character() {
    assert_eq!(chars_of(""), Vec::<char>::new());
    assert_eq!(chars_of("3.16"), vec!['3', '.', '1', '6']);
    assert_eq!(chars_of("a\u{e9}\u{3000}\u{1f600}z"), vec!['a', '\u{e9}', '\u{3000}', '\u{1f600}', 'z']);
}

#[test]
fn classes_hold_their_characters() {
    for c in "0123456789".chars() {
        assert!(CharClass::Digit.has(c));
        assert!(CharClass::Numeric.has(c));
        assert!(!CharClass::Dot.has(c));
        assert!(!CharClass::AsciiSpace.has(c));
        assert!(!CharClass::Space.has(c));
    }
    for c in "/:aA-+_ \u{660}\u{ff10}".chars() {
        assert!(!CharClass::Digit.has(c), "{:?}", c);
        assert!(!CharClass::Numeric.has(c), "{:?}", c);
    }
    assert!(CharClass::Dot.has('.'));
    assert!(CharClass::Numeric.has('.'));
    assert!(!CharClass::Dot.has(','));
    assert!(!CharClass::Digit.has('.'));
}

#[test]
fn ascii_whitespace_is_what_std_says() {
    for code in 0u32..0x3100 {
        if let Some(c) = char::from_u32(code) {
            assert_eq!(CharClass::AsciiSpace.has(c), c.is_ascii_whitespace(), "{:?}", c);
        }
    }
}

#[test]
fn whitespace_is_what_std_says() {
    for code in 0u32..0x11_0000 {
        if let Some(c) = char::from_u32(code) {
            assert_eq!(CharClass::Space.has(c), c.is_whitespace(), "{:?}", c);
        }
    }
}

#[test]
fn digits_are_what_std_says() {
    for code in 0u32..0x11_0000 {
        if let Some(c) = char::from_u32(code) {
            assert_eq!(CharClass::Digit.has(c), c.is_ascii_digit(), "{:?}", c);
        }
    }
}

#[test]
fn scan_counts_the_leading_run() {
    assert_eq!(scan(&chars("3.16.0-6-amd64"), CharClass::Numeric, true), 6);
    assert_eq!(scan(&chars("3.16.0-6-amd64"), CharClass::Digit, true), 1);
    assert_eq!(scan(&chars("3.16.0-6-amd64"), CharClass::Dot, false), 1);
    assert_eq!(scan(&chars("316"), CharClass::Dot, false), 3);
    assert_eq!(scan(&chars("316"), CharClass::Digit, true), 3);
    assert_eq!(scan(&chars(""), CharClass::Digit, true), 0);
    assert_eq!(scan(&chars(""), CharClass::Digit, false), 0);
    assert_eq!(scan(&chars("  \t x "), CharClass::AsciiSpace, true), 4);
    assert_eq!(scan(&chars("x  "), CharClass::AsciiSpace, true), 0);
}

#[test]
fn scan_back_counts_the_trailing_run() {
    assert_eq!(scan_back(&chars("x  \n"), CharClass::Space, true), 3);
    assert_eq!(scan_back(&chars("x  \ny"), CharClass::Space, true), 0);
    assert_eq!(scan_back(&chars("  "), CharClass::Space, true), 2);
    assert_eq!(scan_back(&chars(""), CharClass::Space, true), 0);
    assert_eq!(scan_back(&chars("ab12"), CharClass::Digit, true), 2);
    assert_eq!(scan_back(&chars("ab12"), CharClass::Digit, false), 0);
    assert_eq!(scan_back(&chars("12ab"), CharClass::Digit, false), 2);
}

#[test]
fn trimmed_drops_both_ends() {
    assert_eq!(text(trimmed(&chars("  a b \n"))), "a b");
    assert_eq!(text(trimmed(&chars("a b"))), "a b");
    assert_eq!(text(trimmed(&chars(" \t\n"))), "");
    assert_eq!(text(trimmed(&chars(""))), "");
    assert_eq!(text(trimmed(&chars("\u{2003}x\u{a0}"))), "x");
    for s in ["", " ", "x", " x", "x ", "  x y  ", "\u{b}\u{c}q\r\n", "\u{feff} x"].iter() {
        assert_eq!(text(trimmed(&chars(s))), s.trim());
    }
}

#[test]
fn without_newline_drops_one_line_feed() {
    assert_eq!(text(without_newline(&chars("abc\n"))), "abc");
    assert_eq!(text(without_newline(&chars("abc\n\n"))), "abc\n");
    assert_eq!(text(without_newline(&chars("abc"))), "abc");
    assert_eq!(text(without_newline(&chars("abc\r\n"))), "abc\r");
    assert_eq!(text(without_newline(&chars("abc\n "))), "abc\n ");
    assert_eq!(text(without_newline(&chars("\n"))), "");
    assert_eq!(text(without_newline(&chars(""))), "");
}

fn pieces(s: &str) -> Vec<String> {
    let all = chars(s);
    let mut out = Vec::new();
    let mut rest: Option<&[char]> = Some(&all);
    while let Some(r) = rest {
        let (piece, next) = cut_piece(r, CharClass::Dot);
        out.push(text(piece));
        rest = next;
    }
    out
}

#[test]
fn cut_piece_splits_as_std_does() {
    for s in ["", ".", "..", "3", "3.16", "3.16.0", ".3", "3.", "3..16", "a.b.c.d.e", "...x..."].iter() {
        let want: Vec<String> = s.split('.').map(|p| p.to_string()).collect();
        assert_eq!(pieces(s), want, "{:?}", s);
    }
}

#[test]
fn cut_piece_returns_the_first_piece() {
    let all = chars("3.16.0");
    let (piece, rest) = cut_piece(&all, CharClass::Dot);
    assert_eq!(text(piece), "3");
    assert_eq!(text(rest.unwrap()), "16.0");
    let all = chars("316");
    let (piece, rest) = cut_piece(&all, CharClass::Dot);
    assert_eq!(text(piece), "316");
    assert!(rest.is_none());
    let all = chars("316.");
    let (piece, rest) = cut_piece(&all, CharClass::Dot);
    assert_eq!(text(piece), "316");
    assert_eq!(text(rest.unwrap()), "");
}

fn all_tokens(s: &str) -> Vec<String> {
    let all = chars(s);
    let mut out = Vec::new();
    let mut rest: &[char] = &all;
    while let Some((token, next)) = cut_token(rest) {
        out.push(text(token));
        rest = next;
    }
    out
}

#[test]
fn cut_token_splits_as_std_does() {
    for s in [
        "",
        " ",
        "1",
        " 1",
        "1 ",
        "1 2",
        "32000\t1024000000\t500\t32000\n",
        "  a \t\r\n b\u{c}c  ",
        "a\u{b}b c",
        "a\u{a0}b c",
    ]
    .iter()
    {
        let want: Vec<String> = s.split_ascii_whitespace().map(|p| p.to_string()).collect();
        assert_eq!(all_tokens(s), want, "{:?}", s);
    }
}

#[test]
fn cut_token_returns_the_first_token() {
    let all = chars("  12 34 ");
    let (token, rest) = cut_token(&all).unwrap();
    assert_eq!(text(token), "12");
    assert_eq!(text(rest), " 34 ");
    assert!(cut_token(&chars(" \t ")).is_none());
    assert!(cut_token(&chars("")).is_none());
}

#[test]
fn parse_u8_is_what_std_says() {
    for s in [
        "", "0", "7", "+7", "-7", "-0", "+", "-", "255", "256", "0255", "00000256", "1a", "a1", " 1", "1 ",
        "++1", "999999999999999999999999", "12", "\u{661}",
    ]
    .iter()
    {
        assert_eq!(parse_u8(&chars(s)).ok(), s.parse::<u8>().ok(), "{:?}", s);
    }
    for n in 0u32..=300 {
        let s = n.to_string();
        assert_eq!(parse_u8(&chars(&s)).ok(), s.parse::<u8>().ok(), "{:?}", s);
    }
}

#[test]
fn parse_u64_is_what_std_says() {
    for s in [
        "",
        "0",
        "+0",
        "-0",
        "18446744073709551615",
        "18446744073709551616",
        "18446744073709551625",
        "28446744073709551615",
        "+18446744073709551615",
        "000018446744073709551615",
        "184467440737095516150",
        "340282366920938463463374607431768211455",
        "340282366920938463463374607431768211456",
        "9999999999999999999999999999999999999999999999999999",
        "1_000",
        "1,000",
    ]
    .iter()
    {
        assert_eq!(parse_u64(&chars(s)).ok(), s.parse::<u64>().ok(), "{:?}", s);
    }
}

#[test]
fn parse_i32_is_what_std_says() {
    for s in [
        "",
        "0",
        "+0",
        "-0",
        "-",
        "+",
        "2147483647",
        "2147483648",
        "-2147483648",
        "-2147483649",
        "+2147483647",
        "-00002147483648",
        "21474836470",
        "- 1",
        "-+1",
        "1-",
        "4194304",
    ]
    .iter()
    {
        assert_eq!(parse_i32(&chars(s)).ok(), s.parse::<i32>().ok(), "{:?}", s);
    }
}

#[test]
fn parse_errors_say_why() {
    assert_eq!(parse_u8(&chars("")), Err(IntError::Empty));
    assert_eq!(parse_u8(&chars("+")), Err(IntError::Invalid));
    assert_eq!(parse_u8(&chars("-1")), Err(IntError::Invalid));
    assert_eq!(parse_u8(&chars("1x")), Err(IntError::Invalid));
    assert_eq!(parse_u8(&chars("256")), Err(IntError::OutOfRange));
    assert_eq!(parse_u8(&chars("256x")), Err(IntError::Invalid));
    assert_eq!(parse_u8(&chars("255")), Ok(255));
    assert_eq!(parse_u64(&chars("18446744073709551616")), Err(IntError::OutOfRange));
    assert_eq!(parse_u64(&chars("18446744073709551615")), Ok(u64::MAX));
    assert_eq!(parse_i32(&chars("-2147483649")), Err(IntError::OutOfRange));
    assert_eq!(parse_i32(&chars("-2147483648")), Ok(i32::MIN));
    assert_eq!(parse_i32(&chars("-")), Err(IntError::Invalid));
}

#[test]
fn push_decimal_writes_the_shortest_text() {
    for &n in [0u64, 1, 9, 10, 11, 99, 100, 101, 255, 32000, 1024000000, u64::MAX - 1, u64::MAX].iter() {
        let mut out = String::from("x=");
        push_decimal(&mut out, n);
        assert_eq!(out, format!("x={}", n));
    }
}

#[test]
fn written_numbers_read_back() {
    for &n in [0u64, 7, 10, 255, 256, 4294967296, u64::MAX].iter() {
        let mut out = String::new();
        push_decimal(&mut out, n);
        assert_eq!(parse_u64(&chars(&out)), Ok(n));
    }
}

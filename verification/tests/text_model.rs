use rocm_telemetry::decimal::{is_digit, parse_digits_u32, parse_u32, parse_u64};
use rocm_telemetry::text::{
    ascii_lower, chars_of, contains, occurs_at, same_chars, slice_of, split_bounds, starts_with,
    str_eq, to_ascii_lowercase, trim, trim_bounds, CharClass,
};

fn cv(s: &str) -> Vec<char> {
    s.chars().collect()
}

fn text(v: &Vec<char>) -> String {
    v.iter().collect()
}

const SAMPLES: [&str; 30] = [
    "", "0", "7", "007", "+7", "+", "-", "-7", "++7", "+-7", "7+", " 7", "7 ", "1350", "1350MHz",
    "4294967295", "4294967296", "04294967295", "18446744073709551615", "18446744073709551616",
    "99999999999999999999999", "000000000000000000000000000000001", "1_000", "0x10", "١٢٣",
    "12a", "a12", "1.5", "6352367616", "+0",
];

#[test]
fn chars_of_lists_every_character() {
    for s in ["", "a", "héllo", "van gogh", "日本語"] {
        assert_eq!(chars_of(s), cv(s));
    }
}

#[test]
fn parse_u32_agrees_with_std() {
    for s in SAMPLES {
        assert_eq!(parse_u32(&cv(s)), s.parse::<u32>().ok(), "{:?}", s);
    }
}

#[test]
fn parse_u64_agrees_with_std() {
    for s in SAMPLES {
        assert_eq!(parse_u64(&cv(s)), s.parse::<u64>().ok(), "{:?}", s);
    }
}

#[test]
fn parse_u32_exact_values() {
    assert_eq!(parse_u32(&cv("1350")), Some(1350));
    assert_eq!(parse_u32(&cv("+42")), Some(42));
    assert_eq!(parse_u32(&cv("4294967295")), Some(u32::MAX));
    assert_eq!(parse_u32(&cv("4294967296")), None);
    assert_eq!(parse_u64(&cv("18446744073709551615")), Some(u64::MAX));
    assert_eq!(parse_u64(&cv("18446744073709551616")), None);
    assert_eq!(parse_u32(&cv("")), None);
}

#[test]
fn parse_digits_takes_no_sign() {
    assert_eq!(parse_digits_u32(&cv("PID144763"), 3), Some(144763));
    assert_eq!(parse_digits_u32(&cv("+5"), 0), None);
    assert_eq!(parse_digits_u32(&cv("5"), 0), Some(5));
    assert_eq!(parse_digits_u32(&cv("5"), 1), None);
    assert_eq!(parse_digits_u32(&cv("x4294967296"), 1), None);
}

#[test]
fn is_digit_is_ascii_digit() {
    for u in 0..=0x10ffffu32 {
        if let Some(c) = char::from_u32(u) {
            assert_eq!(is_digit(c), c.is_ascii_digit());
        }
    }
}

#[test]
fn whitespace_class_is_unicode_white_space() {
    for u in 0..=0x10ffffu32 {
        if let Some(c) = char::from_u32(u) {
            assert_eq!(CharClass::Whitespace.holds(c), c.is_whitespace(), "{:x}", u);
        }
    }
}

#[test]
fn clock_mark_class() {
    for u in 0..=0x10ffffu32 {
        if let Some(c) = char::from_u32(u) {
            assert_eq!(CharClass::ClockMark.holds(c), "()Mmhz".contains(c), "{:x}", u);
        }
    }
}

#[test]
fn ascii_lower_agrees_with_std() {
    for u in 0..=0x10ffffu32 {
        if let Some(c) = char::from_u32(u) {
            assert_eq!(ascii_lower(c), c.to_ascii_lowercase());
        }
    }
    assert_eq!(text(&to_ascii_lowercase(&cv("AMD RaPhAeL É"))), "amd raphael É");
}

#[test]
fn trim_agrees_with_std() {
    for s in ["", " ", "  a  ", "a", " a b ", "\t\n x\u{3000}", "\u{a0}y\u{2009}", "x  ", "  x"] {
        assert_eq!(text(&trim(&cv(s), CharClass::Whitespace)), s.trim(), "{:?}", s);
    }
    let marks = |c: char| "()Mmhz".contains(c);
    for s in ["1350MHz", "(1350Mhz)", "Mhz", "", "MH1zM", "h1h2h", "1350", "(m)"] {
        assert_eq!(text(&trim(&cv(s), CharClass::ClockMark)), s.trim_matches(marks), "{:?}", s);
    }
    assert_eq!(text(&trim(&cv("(1350Mhz)"), CharClass::ClockMark)), "1350");
    assert_eq!(text(&trim(&cv("1350MHz"), CharClass::ClockMark)), "1350MH");
}

#[test]
fn trim_bounds_mark_what_trimming_leaves() {
    let row = cv("ollama,  1 ,6352367616");
    assert_eq!(trim_bounds(&row, 7, 11, CharClass::Whitespace), (9, 10));
    assert_eq!(trim_bounds(&row, 0, 6, CharClass::Whitespace), (0, 6));
    let blank = cv("a,   ,b");
    let (from, to) = trim_bounds(&blank, 2, 5, CharClass::Whitespace);
    assert_eq!(from, to);
    assert_eq!(split_bounds(&row, ','), vec![(0, 6), (7, 11), (12, 22)]);
    assert_eq!(split_bounds(&cv(""), ','), vec![(0, 0)]);
    assert_eq!(split_bounds(&cv(","), ','), vec![(0, 0), (1, 1)]);
}

#[test]
fn split_agrees_with_std() {
    for s in ["", ",", "a", "a,b", "a,,b", ",a,", "ollama, 1, 6352367616, 0, unknown", ",,,"] {
        let row = cv(s);
        let got: Vec<String> = split_bounds(&row, ',')
            .iter()
            .map(|b| text(&slice_of(&row, b.0, b.1)))
            .collect();
        let expected: Vec<String> = s.split(',').map(|p| p.to_string()).collect();
        assert_eq!(got, expected, "{:?}", s);
    }
}

#[test]
fn contains_and_starts_with_agree_with_std() {
    let hays = ["", "a", "card0", "xcard", "amd raphael", "r7", "aaab", "car"];
    let needles = ["", "a", "card", "r7", "ab", "raphael", "aab", "b", "card00"];
    for h in hays {
        for n in needles {
            assert_eq!(contains(&cv(h), &cv(n)), h.contains(n), "{:?} {:?}", h, n);
            assert_eq!(starts_with(&cv(h), &cv(n)), h.starts_with(n), "{:?} {:?}", h, n);
            assert_eq!(str_eq(h, n), h == n);
            assert_eq!(same_chars(&cv(h), &cv(n)), h == n);
        }
    }
}

#[test]
fn occurs_at_checks_the_place() {
    assert!(occurs_at(&cv("xcard"), &cv("card"), 1));
    assert!(!occurs_at(&cv("xcard"), &cv("card"), 0));
    assert!(!occurs_at(&cv("xcard"), &cv("card"), 2));
    assert!(!occurs_at(&cv("xcard"), &cv("card"), 9));
    assert!(occurs_at(&cv("abc"), &cv(""), 3));
    assert!(!occurs_at(&cv("abc"), &cv(""), 4));
}

#[test]
fn slice_of_copies_the_range() {
    assert_eq!(text(&slice_of(&cv("PID144763"), 3, 9)), "144763");
    assert_eq!(text(&slice_of(&cv("abc"), 1, 1)), "");
}

use fuzzy_date::text::{
    chars_of, contains_char, is_whitespace, parse_number, push_decimal, push_digit, push_padded,
    split_bounds, trim_bounds,
};

fn chars(text: &str) -> Vec<char> {
    text.chars().collect()
}

fn slice(v: &[char], bounds: (usize, usize)) -> String {
    v[bounds.0..bounds.1].iter().collect()
}

#[test]
fn white_space_is_what_the_standard_library_trims() {
    for code in 0u32..=0x10FFFF {
        if let Some(c) = char::from_u32(code) {
            assert_eq!(is_whitespace(c), c.is_whitespace(), "U+{code:04X}");
        }
    }
}

#[test]
fn chars_of_gives_every_character() {
    assert_eq!(chars_of(""), Vec::<char>::new());
    assert_eq!(chars_of("1991-08"), vec!['1', '9', '9', '1', '-', '0', '8']);
    assert_eq!(chars_of("\u{3000}é/1"), vec!['\u{3000}', 'é', '/', '1']);
}

#[test]
fn trim_bounds_agree_with_the_standard_library() {
    for text in ["", " ", "  \t\n", "a", " a", "a ", "  a b  ", "\u{a0}x\u{2009}y\u{3000}", " - "] {
        let v = chars(text);
        let bounds = trim_bounds(&v, 0, v.len());
        assert_eq!(slice(&v, bounds), text.trim(), "{text:?}");
    }
    let v = chars("ab  cd  ef");
    assert_eq!(trim_bounds(&v, 2, 8), (4, 6));
    assert_eq!(trim_bounds(&v, 2, 4), (4, 4));
    assert_eq!(trim_bounds(&v, 0, 2), (0, 2));
}

#[test]
fn split_bounds_agree_with_the_standard_library() {
    for text in ["", "-", "--", "a", "a-b", "-a", "a-", "1991-08-15", "a--b", "1/2-3/4"] {
        let v = chars(text);
        let fields = split_bounds(&v, 0, v.len(), '-');
        let found: Vec<String> = fields.iter().map(|f| slice(&v, *f)).collect();
        let expected: Vec<String> = text.split('-').map(|f| f.to_string()).collect();
        assert_eq!(found, expected, "{text:?}");
    }
    let v = chars("x/1990/2000/y");
    assert_eq!(split_bounds(&v, 2, 11, '/'), vec![(2, 6), (7, 11)]);
    assert_eq!(split_bounds(&v, 2, 6, '/'), vec![(2, 6)]);
    assert_eq!(split_bounds(&v, 1, 2, '/'), vec![(1, 1), (2, 2)]);
}

#[test]
fn contains_char_looks_only_within_the_bounds() {
    let v = chars("a-b/c");
    assert!(contains_char(&v, 0, 5, '-'));
    assert!(contains_char(&v, 0, 5, '/'));
    assert!(!contains_char(&v, 2, 5, '-'));
    assert!(!contains_char(&v, 0, 3, '/'));
    assert!(!contains_char(&v, 1, 1, '-'));
    assert!(!contains_char(&v, 0, 5, 'x'));
}

#[test]
fn parse_number_agrees_with_the_standard_library() {
    let texts = [
        "", "+", "-", "0", "00", "7", "+7", "-7", "++7", "+-7", "7+", "12", "012", "255", "256",
        "0255", "+255", "65535", "65536", "065535", "99999", "4294967296", "00000000000000000001",
        "1 ", " 1", "1a", "a", "١٢", "1_0", "0x10", "1e3",
    ];
    for text in texts {
        let v = chars(text);
        assert_eq!(
            parse_number(&v, 0, v.len(), 0xFFFF),
            text.parse::<u16>().ok().map(u32::from),
            "{text:?}"
        );
        assert_eq!(
            parse_number(&v, 0, v.len(), 0xFF),
            text.parse::<u8>().ok().map(u32::from),
            "{text:?}"
        );
    }
    let v = chars("a15b");
    assert_eq!(parse_number(&v, 1, 3, 0xFF), Some(15));
    assert_eq!(parse_number(&v, 1, 4, 0xFF), None);
    assert_eq!(parse_number(&v, 1, 1, 0xFF), None);
    assert_eq!(parse_number(&v, 1, 3, 14), None);
    assert_eq!(parse_number(&v, 1, 3, 15), Some(15));
    let big = chars("429496728");
    assert_eq!(parse_number(&big, 0, big.len(), 429_496_728), Some(429_496_728));
    let bigger = chars("429496729");
    assert_eq!(parse_number(&bigger, 0, bigger.len(), 429_496_728), None);
}

#[test]
fn numbers_are_written_as_the_standard_library_writes_them() {
    for n in [0u64, 1, 9, 10, 11, 99, 100, 101, 9999, 10000, 65535, 4294967296, u64::MAX] {
        let mut out = String::from("n=");
        push_decimal(&mut out, n);
        assert_eq!(out, format!("n={n}"));
    }
    for n in [0u16, 1, 9, 10, 99, 100, 999, 1000, 9999, 10000, 65535] {
        for width in 0usize..=7 {
            let mut out = String::from("<");
            push_padded(&mut out, n, width);
            assert_eq!(out, format!("<{n:0width$}"), "{n} to {width}");
        }
    }
    let mut out = String::new();
    for d in 0u8..=9 {
        push_digit(&mut out, d);
    }
    assert_eq!(out, "0123456789");
}

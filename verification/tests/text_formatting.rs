use live2d_chat_core::text::{
    append_decimal, append_hex, append_padded_decimal, append_signed_decimal, chars_of,
    is_whitespace_char, split_bounds, trim_bounds,
};

#[test]
fn white_space_is_what_the_standard_library_calls_white_space() {
    for code in 0..=0x10FFFFu32 {
        if let Some(c) = char::from_u32(code) {
            assert_eq!(is_whitespace_char(c), c.is_whitespace(), "U+{:04X}", code);
        }
    }
}

#[test]
fn decimal_digits_of_unsigned_numbers() {
    let cases: [(u64, &str); 7] = [
        (0, "0"),
        (7, "7"),
        (10, "10"),
        (99, "99"),
        (100, "100"),
        (1234567890, "1234567890"),
        (u64::MAX, "18446744073709551615"),
    ];
    for (n, expected) in cases {
        let mut out = String::from("n=");
        append_decimal(&mut out, n);
        assert_eq!(out, format!("n={}", expected));
    }
}

#[test]
fn decimal_text_of_signed_numbers() {
    for value in [0i64, 1, -1, 9, -10, 1700000000000, i64::MAX, i64::MIN, i64::MIN + 1] {
        let mut out = String::new();
        append_signed_decimal(&mut out, value);
        assert_eq!(out, format!("{}", value));
    }
}

#[test]
fn padded_decimal_fills_up_with_zeros() {
    let cases: [(u64, usize, &str); 8] = [
        (0, 2, "00"),
        (5, 2, "05"),
        (12, 2, "12"),
        (255, 2, "255"),
        (7, 4, "0007"),
        (65535, 4, "65535"),
        (3, 0, "3"),
        (3, 1, "3"),
    ];
    for (n, width, expected) in cases {
        let mut out = String::new();
        append_padded_decimal(&mut out, n, width);
        assert_eq!(out, expected);
    }
}

#[test]
fn hex_digits_are_lower_case_and_of_fixed_width() {
    let cases: [(u32, u32, &str); 6] = [
        (0, 8, "00000000"),
        (0xdeadbeef, 8, "deadbeef"),
        (0x1a2, 8, "000001a2"),
        (0x1a2, 2, "a2"),
        (0xf, 1, "f"),
        (0xf, 0, "f"),
    ];
    for (n, width, expected) in cases {
        let mut out = String::new();
        append_hex(&mut out, n, width);
        assert_eq!(out, expected);
    }
}

#[test]
fn chars_of_lists_every_character() {
    assert_eq!(chars_of(""), Vec::<char>::new());
    assert_eq!(chars_of("aé."), vec!['a', 'é', '.']);
}

fn trimmed(text: &str) -> String {
    let chars = chars_of(text);
    let (from, to) = trim_bounds(&chars);
    chars[from..to].iter().collect()
}

#[test]
fn trim_bounds_agree_with_trim() {
    for text in ["", " ", "a", " a", "a ", "  a b  ", "\t\n x \r\n", "\u{3000}é\u{a0}", "\u{200b}x "] {
        assert_eq!(trimmed(text), text.trim(), "text {:?}", text);
    }
}

fn pieces(text: &str) -> Vec<String> {
    let chars = chars_of(text);
    split_bounds(&chars, 0, chars.len(), '.')
        .iter()
        .map(|(from, to)| chars[*from..*to].iter().collect())
        .collect()
}

#[test]
fn split_bounds_agree_with_split() {
    for text in ["", ".", "a", "a.b", "a.b.c", "..", "a..b", ".a.", "é.ü.x", "a.b.c.d"] {
        let expected: Vec<String> = text.split('.').map(|s| s.to_string()).collect();
        assert_eq!(pieces(text), expected, "text {:?}", text);
    }
}

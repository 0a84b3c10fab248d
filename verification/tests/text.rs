use fit_parser::decimal::parse_decimal;
use fit_parser::profile_types::parse_type_value;
use fit_parser::text::{
    char_digit_value, char_is_digit, char_is_whitespace, chars_of, has_prefix_ignoring_ascii_case,
    parse_i16, parse_numeral, parse_u8, parse_unsigned, split_ranges, str_equals, trim_bounds,
    Radix,
};

/// Every text of up to `length` characters of `alphabet`.
fn texts(alphabet: &[char], length: usize) -> Vec<String> {
    let mut all = vec![String::new()];
    let mut last = vec![String::new()];
    for _ in 0..length {
        let mut next = Vec::new();
        for text in &last {
            for c in alphabet {
                let mut longer = text.clone();
                longer.push(*c);
                next.push(longer);
            }
        }
        all.extend(next.iter().cloned());
        last = next;
    }
    all
}

fn chars(text: &str) -> Vec<char> {
    text.chars().collect()
}

#[test]
fn characters_of_a_text() {
    assert_eq!(chars_of(""), Vec::<char>::new());
    assert_eq!(chars_of("a,b"), vec!['a', ',', 'b']);
    assert_eq!(chars_of("grüße \u{1F6B4}"), chars("grüße \u{1F6B4}"));
    assert!(str_equals("", ""));
    assert!(str_equals("abc", "abc"));
    assert!(!str_equals("abc", "abd"));
    assert!(!str_equals("abc", "ab"));
    assert!(!str_equals("ab", "abc"));
    assert!(str_equals("grüße", "grüße"));
}

#[test]
fn white_space_is_what_the_standard_library_says() {
    for code in 0..=0x10FFFFu32 {
        if let Some(c) = char::from_u32(code) {
            assert_eq!(char_is_whitespace(c), c.is_whitespace(), "{:X}", code);
            assert_eq!(char_is_digit(c), c.is_ascii_digit(), "{:X}", code);
            let value = char_digit_value(c);
            assert_eq!(value, c.to_digit(16).map(|d| d as u8).unwrap_or(16), "{:X}", code);
        }
    }
}

#[test]
fn trimming_is_what_the_standard_library_does() {
    let alphabet = [' ', '\t', 'a', '\u{A0}', '\u{3000}', '\u{200B}', '\n'];
    for text in texts(&alphabet, 5) {
        let all = chars(&text);
        let (start, end) = trim_bounds(&all);
        let trimmed: String = all[start..end].iter().collect();
        assert_eq!(trimmed, text.trim(), "{:?}", text);
    }
}

#[test]
fn splitting_is_what_the_standard_library_does() {
    let alphabet = [',', 'a', ' ', '.'];
    for text in texts(&alphabet, 6) {
        let all = chars(&text);
        for separator in [',', '.'] {
            let pieces: Vec<String> = split_ranges(&all, separator)
                .iter()
                .map(|(from, to)| all[*from..*to].iter().collect())
                .collect();
            let expected: Vec<String> =
                text.split(separator).map(|piece| piece.to_string()).collect();
            assert_eq!(pieces, expected, "{:?}", text);
        }
    }
}

#[test]
fn numbers_are_read_as_the_standard_library_reads_them() {
    let alphabet = ['0', '1', '2', '5', '9', '+', '-', ' ', 'a', '\u{663}'];
    for text in texts(&alphabet, 5) {
        let all = chars(&text);
        assert_eq!(parse_u8(&all), text.parse::<u8>().ok(), "{:?}", text);
        assert_eq!(parse_i16(&all), text.parse::<i16>().ok(), "{:?}", text);
        assert_eq!(
            parse_unsigned(&all, Radix::Decimal, u32::MAX as u64),
            text.parse::<u32>().ok().map(|number| number as u64),
            "{:?}",
            text
        );
    }
    for number in [0i32, 1, 127, 128, 255, 256, 999, 32767, 32768, 32769, 65535, 65536] {
        for text in [format!("{}", number), format!("-{}", number), format!("+{}", number)] {
            let all = chars(&text);
            assert_eq!(parse_u8(&all), text.parse::<u8>().ok(), "{:?}", text);
            assert_eq!(parse_i16(&all), text.parse::<i16>().ok(), "{:?}", text);
        }
    }
}

#[test]
fn hexadecimal_numbers_are_read_as_the_standard_library_reads_them() {
    let alphabet = ['0', '1', '9', 'a', 'F', 'f', 'g', 'x', '+', '-'];
    for text in texts(&alphabet, 4) {
        let all = chars(&text);
        assert_eq!(
            parse_unsigned(&all, Radix::Hexadecimal, u32::MAX as u64),
            u32::from_str_radix(&text, 16).ok().map(|number| number as u64),
            "{:?}",
            text
        );
        assert_eq!(
            parse_unsigned(&all, Radix::Hexadecimal, 0xFF),
            u8::from_str_radix(&text, 16).ok().map(|number| number as u64),
            "{:?}",
            text
        );
    }
    assert_eq!(parse_numeral(&chars("ffffffff"), Radix::Hexadecimal, u32::MAX as u64), Some(0xFFFF_FFFF));
    assert_eq!(parse_numeral(&chars("100000000"), Radix::Hexadecimal, u32::MAX as u64), None);
    assert_eq!(parse_numeral(&chars("+1"), Radix::Hexadecimal, u32::MAX as u64), None);
    assert_eq!(parse_numeral(&chars(""), Radix::Decimal, u64::MAX), None);
    assert_eq!(
        parse_numeral(&chars("18446744073709551615"), Radix::Decimal, u64::MAX),
        Some(u64::MAX)
    );
    assert_eq!(parse_numeral(&chars("18446744073709551616"), Radix::Decimal, u64::MAX), None);
    assert_eq!(parse_numeral(&chars("99999999999999999999999999"), Radix::Decimal, u64::MAX), None);
}

#[test]
fn type_values_take_one_prefix() {
    let alphabet = ['0', 'x', 'X', '1', 'f', 'G', '+', ' '];
    for text in texts(&alphabet, 5) {
        let trimmed = text.trim();
        let expected = if trimmed.starts_with("0x") || trimmed.starts_with("0X") {
            u32::from_str_radix(&trimmed[2..], 16).ok()
        } else {
            trimmed.parse::<u32>().ok()
        };
        assert_eq!(parse_type_value(&text), expected, "{:?}", text);
    }
}

#[test]
fn decimals_are_worth_what_the_standard_library_reads() {
    let alphabet = ['0', '1', '5', '9', '.', '+', '-', 'e'];
    for text in texts(&alphabet, 5) {
        let all = chars(&text);
        let standard = text.parse::<f64>().ok();
        match parse_decimal(&all) {
            Some(decimal) => {
                let worth =
                    decimal.mantissa as f64 / 10f64.powi(decimal.fraction_digits as i32);
                let read = standard.unwrap();
                assert!((worth - read).abs() <= 1e-9 * read.abs(), "{:?}", text);
                assert_eq!(decimal.is_positive(), read > 0.0, "{:?}", text);
            }
            None => {
                // what is not read is no number, or is written with a minus sign or an
                // exponent
                assert!(
                    standard.is_none() || text.contains('-') || text.contains('e'),
                    "{:?}",
                    text
                );
            }
        }
    }
}

#[test]
fn prefixes_in_any_case() {
    let has = |text: &str, prefix: &str| has_prefix_ignoring_ascii_case(&chars(text), &chars(prefix));
    assert!(has("", ""));
    assert!(has("abc", ""));
    assert!(has("abc", "abc"));
    assert!(has("ABC", "abc"));
    assert!(has("aBcd", "AbC"));
    assert!(!has("ab", "abc"));
    assert!(!has("abd", "abc"));
    assert!(!has("\u{212A}", "k"));
    assert!(has("[N]", "[n]"));
    assert!(!has("{n}", "[n]"));
    for text in texts(&['a', 'A', 'b', '[', '{', '@', '`'], 3) {
        for prefix in texts(&['a', 'A', 'b', '[', '{', '@', '`'], 2) {
            let expected = text.len() >= prefix.len()
                && text[..prefix.len()].eq_ignore_ascii_case(&prefix);
            assert_eq!(has(&text, &prefix), expected, "{:?} {:?}", text, prefix);
        }
    }
}

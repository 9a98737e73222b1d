use pwm::text::{lines, parse_i8, parse_u32_radix, parse_u64, trim, words, chars_of, str_eq};

fn s(v: &[char]) -> String {
    v.iter().collect()
}

fn all(v: Vec<Vec<char>>) -> Vec<String> {
    v.iter().map(|l| s(l)).collect()
}

#[test]
fn trim_like_str_trim() {
    for input in ["  a b  ", "\t\n x\u{3000}", "", "   ", "abc", "\u{a0}y\u{2029}"] {
        assert_eq!(s(&trim(&chars_of(input))), input.trim());
    }
}

#[test]
fn lines_like_str_lines() {
    for input in ["a\nb", "a\n", "a\r\nb\r\n", "\n\n", "", "a\rb\n", "x\r", "one"] {
        let expected: Vec<String> = input.lines().map(|l| l.to_string()).collect();
        assert_eq!(all(lines(&chars_of(input))), expected);
    }
}

#[test]
fn words_like_split_whitespace() {
    for input in [" a  b\tc\n", "", "   ", "x", "cpu  1 2"] {
        let expected: Vec<String> = input.split_whitespace().map(|w| w.to_string()).collect();
        assert_eq!(all(words(&chars_of(input))), expected);
    }
}

#[test]
fn integer_parsing_like_std() {
    for input in ["0", "+7", "18446744073709551615", "18446744073709551616", "", "+", "-1", "1a", " 1"] {
        assert_eq!(parse_u64(&chars_of(input)), input.parse::<u64>().ok());
    }
    for input in ["127", "-128", "128", "-129", "-", "+-1", "-0", "12"] {
        assert_eq!(parse_i8(&chars_of(input)), input.parse::<i8>().ok());
    }
    for input in ["ff", "FFFFFFFF", "100000000", "+a", "g", "0x10", ""] {
        assert_eq!(parse_u32_radix(&chars_of(input), 16), u32::from_str_radix(input, 16).ok());
    }
}

#[test]
fn string_equality() {
    assert!(str_eq("abc", "abc"));
    assert!(!str_eq("abc", "abd"));
    assert!(!str_eq("abc", "ab"));
    assert!(str_eq("", ""));
}

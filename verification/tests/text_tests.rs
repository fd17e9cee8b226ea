use library::text::{
    find_str_index, parse_i32_chars, parse_unsigned_chars, replace_chars, second_piece_chars, split_lines,
    split_words, strip_prefixes_chars, strip_suffixes_chars, to_lowercase, trim_chars,
};

fn c(s: &str) -> Vec<char> {
    s.chars().collect()
}

fn strs(v: Vec<Vec<char>>) -> Vec<String> {
    v.into_iter().map(|l| l.into_iter().collect()).collect()
}

#[test]
fn lines_match_str_lines() {
    for text in ["", "a", "a\n", "a\r\nb", "a\n\nb\n", "x\r", "\r\n", "a\rb\n"] {
        let expected: Vec<String> = text.lines().map(|l| l.to_string()).collect();
        assert_eq!(strs(split_lines(&c(text))), expected, "{:?}", text);
    }
}

#[test]
fn words_match_split_whitespace() {
    for text in ["", "  a  b ", "one\ttwo\nthree", "x", "\u{a0}y\u{2003}z"] {
        let expected: Vec<String> = text.split_whitespace().map(|l| l.to_string()).collect();
        assert_eq!(strs(split_words(&c(text))), expected, "{:?}", text);
    }
}

#[test]
fn numbers_parse_as_std_does() {
    for text in ["0", "+7", "-7", "2147483647", "2147483648", "-2147483648", "-2147483649", "", "-", "+", "1a", "-+1"] {
        assert_eq!(parse_i32_chars(&c(text)), text.parse::<i32>().ok(), "{:?}", text);
    }
    for text in ["255", "256", "+0", "007", "-1"] {
        assert_eq!(parse_unsigned_chars(&c(text), 255), text.parse::<u8>().ok().map(|v| v as u64), "{:?}", text);
    }
}

#[test]
fn trimming_and_replacing_match_std() {
    for text in ["  a b  ", "\u{3000}x\u{85}", "", "   "] {
        let t: String = trim_chars(&c(text)).into_iter().collect();
        assert_eq!(t, text.trim());
    }
    let r: String = replace_chars(&c("aaa"), &c("aa"), &c("b")).into_iter().collect();
    assert_eq!(r, "aaa".replace("aa", "b"));
    let r: String = replace_chars(&c("Windows 10 / Windows 10"), &c("Windows 10"), &c("Windows 11")).into_iter().collect();
    assert_eq!(r, "Windows 11 / Windows 11");
    let s: String = strip_suffixes_chars(&c("a::"), &c(":")).into_iter().collect();
    assert_eq!(s, "a::".trim_end_matches(':'));
    let s: String = strip_prefixes_chars(&c("\"\"q\""), &c("\"")).into_iter().collect();
    assert_eq!(s, "\"\"q\"".trim_start_matches('"'));
    assert_eq!(to_lowercase("ÉCOLE Kitty"), "école kitty");
}

#[test]
fn string_patterns() {
    assert_eq!(find_str_index(&c("abcabc"), &c("ca")), Some(2));
    assert_eq!(find_str_index(&c("abc"), &c("x")), None);
    let p: Option<String> = second_piece_chars(&c("x controller: y controller: z"), &c("controller:")).map(|v| v.into_iter().collect());
    assert_eq!(p, "x controller: y controller: z".split("controller:").nth(1).map(|s| s.to_string()));
    assert_eq!(second_piece_chars(&c("none"), &c("controller:")), None);
}

use syrillian::text::{chars_of, decimal_chars, find_in, replace_chars, split_lines, trim_slice};

fn s(x: &str) -> Vec<char> {
    x.chars().collect()
}

#[test]
fn decimal_formats_numbers() {
    assert_eq!(decimal_chars(0), s("0"));
    assert_eq!(decimal_chars(7), s("7"));
    assert_eq!(decimal_chars(42), s("42"));
    assert_eq!(decimal_chars(4294967295), s("4294967295"));
}

#[test]
fn trim_removes_surrounding_whitespace() {
    let v = s("  \t model \r");
    assert_eq!(trim_slice(&v, 0, v.len()), s("model"));
    let w = s("   ");
    assert_eq!(trim_slice(&w, 0, w.len()), s(""));
}

#[test]
fn find_reports_first_match() {
    assert_eq!(find_in(&s("a #use b #use c"), &s("#use ")), Some(2));
    assert_eq!(find_in(&s("abc"), &s("#use ")), None);
    assert_eq!(find_in(&s("abc"), &s("")), Some(0));
}

#[test]
fn lines_split_like_str_lines() {
    let text = "one\r\ntwo\n\nthree\n";
    let expected: Vec<Vec<char>> = text.lines().map(|l| l.chars().collect()).collect();
    assert_eq!(split_lines(&s(text)), expected);
    let text2 = "a\rb\r";
    let expected2: Vec<Vec<char>> = text2.lines().map(|l| l.chars().collect()).collect();
    assert_eq!(split_lines(&s(text2)), expected2);
}

#[test]
fn replace_is_non_overlapping_left_to_right() {
    assert_eq!(replace_chars(&s("aaaa"), &s("aa"), &s("b")), s("bb"));
    assert_eq!(replace_chars(&s("@group(1) x @group(1)"), &s("@group(1)"), &s("@group(3)")), s("@group(3) x @group(3)"));
    assert_eq!("aaa".replace("aa", "b"), "ba");
    assert_eq!(replace_chars(&s("aaa"), &s("aa"), &s("b")), s("ba"));
}

#[test]
fn chars_of_keeps_unicode() {
    assert_eq!(chars_of("héllo"), s("héllo"));
}

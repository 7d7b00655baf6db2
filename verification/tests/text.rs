use infinite_package_manager::text::{
    char_is_space, chars_of, find_char, same_text, skip_spaces, skip_spaces_back, split_lines,
    split_tokens, text_of, trim_bounds,
};

fn chars(s: &str) -> Vec<char> {
    s.chars().collect()
}

fn lines_of(s: &str) -> Vec<String> {
    split_lines(&chars(s)).into_iter().map(|l| l.into_iter().collect()).collect()
}

#[test]
fn whitespace_is_what_std_calls_whitespace() {
    let mut n: u32 = 0;
    while n <= 0x10FFFF {
        if let Some(c) = char::from_u32(n) {
            assert_eq!(char_is_space(c), c.is_whitespace(), "U+{:04X}", n);
        }
        n += 1;
    }
}

#[test]
fn chars_of_keeps_every_character() {
    assert_eq!(chars_of("a\u{e9}\u{3000}z"), vec!['a', '\u{e9}', '\u{3000}', 'z']);
    assert!(chars_of("").is_empty());
}

#[test]
fn lines_split_as_std_does() {
    for s in ["", "a", "a\n", "a\n\n", "\n", "a\r\nb", "a\rb\n", "a\r", "a\n\r", "\r\n\r\n", "x\r\r\ny"] {
        let expected: Vec<String> = s.lines().map(|l| l.to_string()).collect();
        assert_eq!(lines_of(s), expected, "{:?}", s);
    }
    assert_eq!(lines_of("a\r\nb\n\nc"), vec!["a", "b", "", "c"]);
}

#[test]
fn tokens_split_as_std_does() {
    for s in ["", "   ", "a", " a  b\tc ", "a\u{a0}b", "one", "x  "] {
        let v = chars(s);
        let expected: Vec<String> = s.split_whitespace().map(|t| t.to_string()).collect();
        assert_eq!(split_tokens(&v, 0, v.len()), expected, "{:?}", s);
    }
    let v = chars("ab cd ef");
    assert_eq!(split_tokens(&v, 1, 7), vec!["b", "cd", "e"]);
}

#[test]
fn trimming_finds_the_visible_part() {
    let v = chars("  a b \t");
    assert_eq!(skip_spaces(&v, 0, v.len()), 2);
    assert_eq!(skip_spaces_back(&v, 0, v.len()), 5);
    assert_eq!(trim_bounds(&v, 0, v.len()), (2, 5));
    assert_eq!(text_of(&v, 2, 5), "a b");
    let blank = chars("   ");
    assert_eq!(trim_bounds(&blank, 0, 3), (3, 3));
    assert_eq!(skip_spaces(&blank, 1, 2), 2);
    assert_eq!(text_of(&blank, 1, 1), "");
}

#[test]
fn first_colon_is_found() {
    assert_eq!(find_char(&chars("a:b:c"), ':'), Some(1));
    assert_eq!(find_char(&chars(":"), ':'), Some(0));
    assert_eq!(find_char(&chars("abc"), ':'), None);
    assert_eq!(find_char(&chars(""), ':'), None);
}

#[test]
fn same_text_compares_characters() {
    assert!(same_text("Types", "Types"));
    assert!(!same_text("Types", "types"));
    assert!(!same_text("Types", "Type"));
    assert!(same_text("", ""));
}

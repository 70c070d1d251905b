use vash_server::text::{
    chars_of, decimal_text, find_last, lines_of, push_octal, same_bytes, same_text, trim_bounds,
    words_of,
};

fn strings(parts: Vec<Vec<char>>) -> Vec<String> {
    parts.into_iter().map(|p| p.into_iter().collect()).collect()
}

#[test]
fn numbers_print_as_they_do_elsewhere() {
    for n in [0, 1, 9, 10, 4_294_967_296, u64::MAX] {
        assert_eq!(decimal_text(n), n.to_string());
        let mut out = String::new();
        push_octal(&mut out, n);
        assert_eq!(out, format!("{n:o}"));
    }
}

#[test]
fn words_and_lines_split_as_they_do_elsewhere() {
    for text in ["", "  ", " a  bc\td\u{3000}e ", "one", "\u{85}x\u{a0}y"] {
        let expected: Vec<&str> = text.split_whitespace().collect();
        assert_eq!(strings(words_of(&chars_of(text))), expected, "{text:?}");
        let chars = chars_of(text);
        let (from, to) = trim_bounds(&chars);
        assert_eq!(chars[from..to].iter().collect::<String>(), text.trim());
    }
    for text in ["", "\n", "a\nb", "a\r\nb\r\n", "a\n\n", "\r", "a\rb"] {
        let expected: Vec<&str> = text.split('\n').collect();
        assert_eq!(strings(lines_of(&chars_of(text))), expected, "{text:?}");
    }
}

#[test]
fn comparisons_see_every_part() {
    assert!(same_bytes(b"abc", b"abc"));
    assert!(!same_bytes(b"abc", b"abd"));
    assert!(!same_bytes(b"abc", b"ab"));
    assert!(same_text(&chars_of("ü"), &chars_of("ü")));
    assert!(!same_text(&chars_of("ü"), &chars_of("u")));
    assert_eq!(find_last(&chars_of("[::1]:11"), ':'), Some(5));
    assert_eq!(find_last(&chars_of("none"), ':'), None);
}

use fuusak::string_util::{
    already_has_whitespace_before_cursor, count_newlines, find_cursor_pos,
    format_indented_multiline, indent_len, last_is_one_of, min_indent_len, repeat, trim_indent,
};

#[test]
fn test_repeat() {
    assert_eq!("", repeat('0', 0));
    assert_eq!("1", repeat('1', 1));
    assert_eq!("22", repeat('2', 2));
    assert_eq!("333", repeat('3', 3));
    assert_eq!("####", repeat('#', 4));
}

#[test]
fn test_find_cursor_pos() {
    assert_eq!(2, find_cursor_pos("  "));
    assert_eq!(2, find_cursor_pos("   \n  "));
    assert_eq!(0, find_cursor_pos("   \n"));
    assert_eq!(0, find_cursor_pos(""));
    assert_eq!(3, find_cursor_pos("\u{e9}a"));
    assert_eq!(4, find_cursor_pos("a\n\u{1F600}"));
}

#[test]
fn test_already_has_whitespace_before_cursor() {
    assert!(!already_has_whitespace_before_cursor(""));
    assert!(already_has_whitespace_before_cursor("  "));
    assert!(already_has_whitespace_before_cursor("foo\n"));
    assert!(already_has_whitespace_before_cursor("foo "));
    assert!(!already_has_whitespace_before_cursor("foo"));
}

#[test]
fn test_indent_len() {
    assert_eq!(0, indent_len("foo"));
    assert_eq!(1, indent_len(" foo"));
    assert_eq!(2, indent_len("\t foo"));
    assert_eq!(2, indent_len("  foo\nfoo"));
}

#[test]
fn test_min_indent_len() {
    assert_eq!(0, min_indent_len("foo"));
    assert_eq!(0, min_indent_len("\n"));
    assert_eq!(0, min_indent_len("\nfoo"));
    assert_eq!(2, min_indent_len("\n  foo\n  bar"));
    assert_eq!(1, min_indent_len("  \n foo\n  bar"));
    assert_eq!(0, min_indent_len("foo  \n foo\n  bar"));
}

#[test]
fn test_trim_indent() {
    assert_eq!("foo\nbar", &trim_indent("foo\nbar"));
    assert_eq!("foo\nbar", &trim_indent(" foo\n bar"));
    assert_eq!("foo\nbar", &trim_indent("  foo\n  bar"));
    assert_eq!("foo\n bar", &trim_indent(" foo\n  bar"));
    assert_eq!(
        "\nfoo\n  bar\nbaz\n",
        &trim_indent("\n  foo\n    bar\n  baz\n")
    );
}

#[test]
fn test_format_indented_multiline() {
    assert_eq!("foo", &format_indented_multiline("foo", 3));
    assert_eq!("foo\n   bar", &format_indented_multiline("foo\nbar", 3));
    assert_eq!(
        "foo\n\n\n   bar",
        &format_indented_multiline("foo\n\n\nbar", 3)
    );
    assert_eq!(
        "foo\n   bar\n     baz\n   bin",
        &format_indented_multiline("foo\nbar\n  baz\nbin", 3)
    );
}

#[test]
fn test_last_is_one_of() {
    assert!(!last_is_one_of("", &['!']));
    assert!(last_is_one_of("!", &['!']));
    assert!(!last_is_one_of("!#", &['!']));
    assert!(last_is_one_of("!#", &['!', '#']));
}

#[test]
fn test_count_newlines() {
    assert_eq!(0, count_newlines(""));
    assert_eq!(0, count_newlines("   "));
    assert_eq!(0, count_newlines(" \t  "));
    assert_eq!(0, count_newlines("foo"));
    assert_eq!(1, count_newlines("\n"));
    assert_eq!(2, count_newlines("\n\n"));
    assert_eq!(2, count_newlines("\r\r"));
    assert_eq!(1, count_newlines("\r\n"));
    assert_eq!(2, count_newlines("\r\n\r\n"));
    assert_eq!(3, count_newlines("\r\n\n\r\n"));
    assert_eq!(3, count_newlines("\r\n\r\r\n"));
}

#[test]
fn line_breaks_are_counted_once() {
    // Every text of up to six characters out of `\r`, `\n`, `a` and a character of two bytes
    let alphabet = ['\r', '\n', 'a', '\u{e9}'];
    let mut texts = vec![String::new()];
    for _ in 0..6 {
        let mut longer = Vec::new();
        for text in &texts {
            for c in alphabet {
                let mut next = text.clone();
                next.push(c);
                longer.push(next);
            }
        }
        for text in &longer {
            let chars: Vec<char> = text.chars().collect();
            let mut expected = 0;
            for i in 0..chars.len() {
                if chars[i] == '\r' || (chars[i] == '\n' && !(i > 0 && chars[i - 1] == '\r')) {
                    expected += 1;
                }
            }
            assert_eq!(expected, count_newlines(text), "{:?}", text);
        }
        texts = longer;
    }
}

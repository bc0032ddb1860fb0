use modal_edit::file::File;
use modal_edit::text::chars_of;
use modal_edit::text::decimal_of;
use modal_edit::text::same_text;
use modal_edit::text::starts_with;

fn document(text: &str) -> File {
    let mut file = File::new(None);
    file.read(Some(text));
    file
}

fn lines(file: &File) -> Vec<&str> {
    file.get_content().iter().map(|line| line.as_str()).collect()
}

#[test]
fn new_file_has_its_path_and_no_line_yet() {
    let file = File::new(Some("a/b.txt".to_string()));
    assert_eq!(file.path, Some("a/b.txt".to_string()));
    assert!(file.get_content().is_empty());
    let file = File::new(None);
    assert_eq!(file.path, None);
    assert!(file.get_content().is_empty());
}

#[test]
fn read_without_a_source_gives_one_empty_line() {
    let mut file = File::new(Some("gone".to_string()));
    file.read(None);
    assert_eq!(lines(&file), vec![""]);
    assert_eq!(file.path, Some("gone".to_string()));
}

#[test]
fn read_of_an_empty_source_gives_one_empty_line() {
    assert_eq!(lines(&document("")), vec![""]);
}

#[test]
fn read_splits_at_line_feeds() {
    assert_eq!(lines(&document("one\ntwo\nthree")), vec!["one", "two", "three"]);
    assert_eq!(lines(&document("one\ntwo\nthree\n")), vec!["one", "two", "three"]);
    assert_eq!(lines(&document("one")), vec!["one"]);
    assert_eq!(lines(&document("one\n")), vec!["one"]);
}

#[test]
fn read_keeps_empty_lines() {
    assert_eq!(lines(&document("\n")), vec![""]);
    assert_eq!(lines(&document("\n\n")), vec!["", ""]);
    assert_eq!(lines(&document("a\n\nb")), vec!["a", "", "b"]);
    assert_eq!(lines(&document("\na")), vec!["", "a"]);
}

#[test]
fn read_drops_the_return_before_a_line_feed() {
    assert_eq!(lines(&document("one\r\ntwo\r\n")), vec!["one", "two"]);
    assert_eq!(lines(&document("\r\n")), vec![""]);
    assert_eq!(lines(&document("a\r\r\nb")), vec!["a\r", "b"]);
}

#[test]
fn read_keeps_a_return_that_no_line_feed_follows() {
    assert_eq!(lines(&document("one\rtwo")), vec!["one\rtwo"]);
    assert_eq!(lines(&document("one\r")), vec!["one\r"]);
    assert_eq!(lines(&document("\r")), vec!["\r"]);
    assert_eq!(lines(&document("a\n\r")), vec!["a", "\r"]);
}

#[test]
fn read_replaces_what_was_there() {
    let mut file = document("old\nlines");
    file.read(Some("new"));
    assert_eq!(lines(&file), vec!["new"]);
    file.read(None);
    assert_eq!(lines(&file), vec![""]);
}

#[test]
fn read_leaves_no_line_feed_in_any_line() {
    let file = document("a\nb\r\n\n\r\rc\n\n");
    assert_eq!(lines(&file), vec!["a", "b", "", "\r\rc", ""]);
    assert!(file.get_content().iter().all(|line| !line.contains('\n')));
}

#[test]
fn line_len_counts_characters() {
    let file = document("h\u{e9}llo\n\n\u{4e16}\u{754c}");
    assert_eq!(file.line_len(0), 5);
    assert_eq!(file.line_len(1), 0);
    assert_eq!(file.line_len(2), 2);
}

#[test]
fn insert_char_at_each_place() {
    let mut file = document("abc\nxyz");
    file.insert_char(0, 0, '1');
    assert_eq!(lines(&file), vec!["1abc", "xyz"]);
    file.insert_char(0, 2, '2');
    assert_eq!(lines(&file), vec!["1a2bc", "xyz"]);
    file.insert_char(0, 5, '3');
    assert_eq!(lines(&file), vec!["1a2bc3", "xyz"]);
    file.insert_char(1, 3, '!');
    assert_eq!(lines(&file), vec!["1a2bc3", "xyz!"]);
}

#[test]
fn insert_char_into_an_empty_line() {
    let mut file = document("");
    file.insert_char(0, 0, 'x');
    assert_eq!(lines(&file), vec!["x"]);
}

#[test]
fn insert_char_counts_columns_in_characters() {
    let mut file = document("h\u{e9}llo");
    file.insert_char(0, 2, '\u{4e16}');
    assert_eq!(lines(&file), vec!["h\u{e9}\u{4e16}llo"]);
    file.insert_char(0, 3, 'x');
    assert_eq!(lines(&file), vec!["h\u{e9}\u{4e16}xllo"]);
}

#[test]
fn delete_char_at_each_place() {
    let mut file = document("abcd\nxyz");
    file.delete_char(0, 0);
    assert_eq!(lines(&file), vec!["bcd", "xyz"]);
    file.delete_char(0, 1);
    assert_eq!(lines(&file), vec!["bd", "xyz"]);
    file.delete_char(0, 1);
    assert_eq!(lines(&file), vec!["b", "xyz"]);
    file.delete_char(1, 2);
    assert_eq!(lines(&file), vec!["b", "xy"]);
}

#[test]
fn delete_char_where_there_is_none_changes_nothing() {
    let mut file = document("ab\n");
    file.delete_char(0, 2);
    assert_eq!(lines(&file), vec!["ab"]);
    file.delete_char(0, 9);
    assert_eq!(lines(&file), vec!["ab"]);
    let mut file = document("");
    file.delete_char(0, 0);
    assert_eq!(lines(&file), vec![""]);
}

#[test]
fn delete_char_counts_columns_in_characters() {
    let mut file = document("h\u{e9}\u{4e16}llo");
    file.delete_char(0, 2);
    assert_eq!(lines(&file), vec!["h\u{e9}llo"]);
    file.delete_char(0, 1);
    assert_eq!(lines(&file), vec!["hllo"]);
}

#[test]
fn replace_char_at_each_place() {
    let mut file = document("abc\nxyz");
    file.replace_char(0, 0, '1');
    file.replace_char(0, 2, '3');
    file.replace_char(1, 1, '\u{e9}');
    assert_eq!(lines(&file), vec!["1b3", "x\u{e9}z"]);
    file.replace_char(1, 1, 'y');
    assert_eq!(lines(&file), vec!["1b3", "xyz"]);
}

#[test]
fn replace_char_where_there_is_none_changes_nothing() {
    let mut file = document("abc");
    file.replace_char(0, 3, 'x');
    assert_eq!(lines(&file), vec!["abc"]);
    let mut file = document("");
    file.replace_char(0, 0, 'x');
    assert_eq!(lines(&file), vec![""]);
}

#[test]
fn split_line_at_each_place() {
    let mut file = document("abcdef\nxyz");
    file.split_line(0, 2);
    assert_eq!(lines(&file), vec!["ab", "cdef", "xyz"]);
    file.split_line(2, 0);
    assert_eq!(lines(&file), vec!["ab", "cdef", "", "xyz"]);
    file.split_line(3, 3);
    assert_eq!(lines(&file), vec!["ab", "cdef", "", "xyz", ""]);
    file.split_line(2, 0);
    assert_eq!(lines(&file), vec!["ab", "cdef", "", "", "xyz", ""]);
}

#[test]
fn split_line_counts_columns_in_characters() {
    let mut file = document("\u{4e16}\u{754c}ab");
    file.split_line(0, 1);
    assert_eq!(lines(&file), vec!["\u{4e16}", "\u{754c}ab"]);
}

#[test]
fn edits_keep_the_path() {
    let mut file = File::new(Some("p".to_string()));
    file.read(Some("ab"));
    file.insert_char(0, 1, 'x');
    file.delete_char(0, 0);
    file.replace_char(0, 0, 'y');
    file.split_line(0, 1);
    assert_eq!(file.path, Some("p".to_string()));
    assert_eq!(lines(&file), vec!["y", "b"]);
}

#[test]
fn characters_of_a_string() {
    assert_eq!(chars_of("a\u{e9}\u{4e16}"), vec!['a', '\u{e9}', '\u{4e16}']);
    assert_eq!(chars_of(""), Vec::<char>::new());
}

#[test]
fn same_text_compares_characters() {
    assert!(same_text("", ""));
    assert!(same_text("abc", "abc"));
    assert!(!same_text("abc", "abd"));
    assert!(!same_text("abc", "ab"));
    assert!(!same_text("", "a"));
}

#[test]
fn starts_with_its_beginnings_only() {
    assert!(starts_with("t:one_dark", ""));
    assert!(starts_with("t:one_dark", "t:one"));
    assert!(starts_with("t:one_dark", "t:one_dark"));
    assert!(!starts_with("t:one_dark", "t:one_dark!"));
    assert!(!starts_with("t:one_dark", "one"));
    assert!(!starts_with("", "a"));
    assert!(starts_with("\u{e9}t\u{e9}", "\u{e9}t"));
    assert!(!starts_with("\u{e9}t\u{e9}", "\u{e8}"));
}

#[test]
fn decimal_numerals() {
    let numeral = |n: u128| -> String { decimal_of(n).into_iter().collect() };
    assert_eq!(numeral(0), "0");
    assert_eq!(numeral(7), "7");
    assert_eq!(numeral(10), "10");
    assert_eq!(numeral(99), "99");
    assert_eq!(numeral(100), "100");
    assert_eq!(numeral(65535), "65535");
    assert_eq!(numeral(18446744073709551616), "18446744073709551616");
    assert_eq!(numeral(u128::MAX), "340282366920938463463374607431768211455");
}

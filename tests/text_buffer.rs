use line_editor::text_buffer::{join_lines, split_lines};
use line_editor::{centering_padding, message_padding, Size, Terminal, TextBuffer};

fn chars(s: &str) -> Vec<char> {
    s.chars().collect()
}

fn strings(lines: &Vec<Vec<char>>) -> Vec<String> {
    lines.iter().map(|l| l.iter().collect()).collect()
}

#[test]
fn new_buffer_is_empty() {
    let b = TextBuffer::new();
    assert!(b.lines.is_empty());
    assert_eq!(b.cursor_position, (0, 0));
}

#[test]
fn open_splits_records() {
    let mut b = TextBuffer::new();
    b.cursor_position = (4, 5);
    b.open_file(&chars("one\ntwo\r\n\nlast"));
    assert_eq!(strings(&b.lines), vec!["one", "two", "", "last"]);
    assert_eq!(b.cursor_position, (0, 0));
}

#[test]
fn open_empty_text_has_no_lines() {
    assert!(split_lines(&Vec::new()).is_empty());
    assert_eq!(strings(&split_lines(&chars("\n"))), vec![""]);
}

#[test]
fn save_terminates_each_line() {
    let lines = vec![chars("a"), chars(""), chars("bc")];
    assert_eq!(join_lines(&lines).iter().collect::<String>(), "a\n\nbc\n");
    assert!(join_lines(&Vec::new()).is_empty());
}

#[test]
fn save_after_open_round_trip() {
    let file_text = chars("first\n\nthird line\n");
    let mut b = TextBuffer::new();
    b.open_file(&file_text);
    let saved = b.contents();
    assert_eq!(saved, file_text);
    let mut again = TextBuffer::new();
    again.open_file(&saved);
    assert_eq!(again.contents(), file_text);
}

#[test]
fn save_after_open_adds_missing_final_newline() {
    let mut b = TextBuffer::new();
    b.open_file(&chars("a\r\nb"));
    assert_eq!(b.contents().iter().collect::<String>(), "a\nb\n");
}

#[test]
fn terminal_text_area() {
    let t = Terminal::new(Size::new(80, 24));
    assert_eq!(t.rows(), 22);
    assert_eq!(t.cols(), 80);
    let tiny = Terminal::new(Size::new(0, 1));
    assert_eq!(tiny.rows(), 1);
    assert_eq!(tiny.cols(), 1);
}

#[test]
fn padding_centres_text() {
    assert_eq!(centering_padding(80, 10), 35);
    assert_eq!(centering_padding(10, 40), 0);
    assert_eq!(message_padding(20, "abcd"), 8);
    assert_eq!(message_padding(20, "漢字"), 8);
    assert_eq!(message_padding(20, ""), 10);
}

fn buffer(lines: &[&str]) -> TextBuffer {
    let mut b = TextBuffer::new();
    b.lines = lines.iter().map(|l| chars(l)).collect();
    b
}

#[test]
fn insert_char_at_column() {
    let mut b = buffer(&["ac", "x"]);
    b.insert_char(0, 1, 'b');
    assert_eq!(strings(&b.lines), vec!["abc", "x"]);
    b.insert_char(1, 1, 'y');
    assert_eq!(strings(&b.lines), vec!["abc", "xy"]);
    assert_eq!(b.line_length(0), 3);
}

#[test]
fn insert_char_out_of_range_is_no_op() {
    let mut b = buffer(&["ab"]);
    b.insert_char(1, 0, 'z');
    b.insert_char(0, 3, 'z');
    assert_eq!(strings(&b.lines), vec!["ab"]);
    assert_eq!(b.line_length(5), 0);
}

#[test]
fn delete_char_collapses_only_non_sole_empty_line() {
    let mut b = buffer(&["ab", "c"]);
    b.delete_char(0, 0);
    assert_eq!(strings(&b.lines), vec!["b", "c"]);
    b.delete_char(1, 0);
    assert_eq!(strings(&b.lines), vec!["b"]);
    b.delete_char(0, 0);
    assert_eq!(strings(&b.lines), vec![""]);
    b.delete_char(3, 0);
    b.delete_char(0, 4);
    assert_eq!(strings(&b.lines), vec![""]);
}

#[test]
fn split_line_at_column() {
    let mut b = buffer(&["hello", "z"]);
    b.split_line(0, 2);
    assert_eq!(strings(&b.lines), vec!["he", "llo", "z"]);
    b.split_line(2, 1);
    assert_eq!(strings(&b.lines), vec!["he", "llo", "z", ""]);
    b.split_line(9, 0);
    b.split_line(0, 9);
    assert_eq!(b.lines.len(), 4);
}

#[test]
fn open_keeps_carriage_return_of_unterminated_tail() {
    let mut b = TextBuffer::new();
    b.open_file(&chars("ab\r"));
    assert_eq!(strings(&b.lines), vec!["ab\r"]);
    b.open_file(&chars("x\r\nab\r"));
    assert_eq!(strings(&b.lines), vec!["x", "ab\r"]);
}

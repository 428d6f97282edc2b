use line_editor::{decode_key, Command, Editor, Key, Size, Terminal, TextBuffer};

fn chars(s: &str) -> Vec<char> {
    s.chars().collect()
}

fn text(line: &Vec<char>) -> String {
    line.iter().collect()
}

fn editor(lines: &[&str], width: u16, height: u16) -> Editor {
    let mut buffer = TextBuffer::new();
    buffer.lines = lines.iter().map(|l| chars(l)).collect();
    Editor::new(buffer, Terminal::new(Size::new(width, height)), String::new())
}

fn all_lines(e: &Editor) -> Vec<String> {
    e.lines().iter().map(text).collect()
}

fn repeat(e: &mut Editor, cmd: Command, times: usize) {
    for _ in 0..times {
        e.process_command(cmd);
    }
}

fn check_view(e: &Editor) {
    let rows = e.terminal().size.height.saturating_sub(2).max(1) as usize;
    let (left, top) = e.scroll_offset();
    let active = e.active_line_index();
    let (col, row) = e.cursor_position();
    if e.line_count() > 0 {
        assert!(top <= active && active < top + rows);
        assert!(active < e.line_count());
    } else {
        assert_eq!(active, 0);
    }
    assert_eq!(row as usize, active - top);
    assert!(col as usize + left <= e.line_length(active));
}

#[test]
fn empty_buffer_move_down_stays_at_origin() {
    let mut e = editor(&[], 80, 26);
    repeat(&mut e, Command::MoveDown, 30);
    assert_eq!(e.active_line_index(), 0);
    assert_eq!(e.scroll_offset(), (0, 0));
    assert_eq!(e.cursor_position(), (0, 0));
}

#[test]
fn move_down_scrolls_minimally() {
    let lines: Vec<&str> = (0..100).map(|_| "a").collect();
    let mut e = editor(&lines, 80, 12);
    repeat(&mut e, Command::MoveDown, 15);
    assert_eq!(e.active_line_index(), 15);
    assert_eq!(e.scroll_offset().1, 6);
    assert_eq!(e.cursor_position().1, 9);
}

#[test]
fn insert_at_end_of_line() {
    let mut e = editor(&["abc"], 80, 26);
    repeat(&mut e, Command::MoveRight, 3);
    assert_eq!(e.cursor_position().0, 3);
    e.process_command(Command::InsertChar('d'));
    assert_eq!(all_lines(&e), vec!["abcd"]);
    assert_eq!(e.cursor_position().0, 4);
}

#[test]
fn split_line_at_end() {
    let mut e = editor(&["ab", "cd"], 80, 26);
    repeat(&mut e, Command::MoveRight, 2);
    e.process_command(Command::SplitLine);
    assert_eq!(all_lines(&e), vec!["ab", "", "cd"]);
    assert_eq!(e.active_line_index(), 1);
    assert_eq!(e.cursor_position(), (0, 1));
    assert_eq!(e.scroll_offset(), (0, 0));
}

#[test]
fn split_line_in_middle() {
    let mut e = editor(&["hello"], 80, 26);
    repeat(&mut e, Command::MoveRight, 2);
    e.enter();
    assert_eq!(all_lines(&e), vec!["he", "llo"]);
    assert_eq!(e.active_line_index(), 1);
}

#[test]
fn split_line_scrolls_at_bottom() {
    let mut e = editor(&["a", "b", "c"], 80, 4);
    repeat(&mut e, Command::MoveDown, 1);
    assert_eq!(e.scroll_offset().1, 0);
    e.process_command(Command::SplitLine);
    assert_eq!(e.active_line_index(), 2);
    assert_eq!(e.scroll_offset().1, 1);
    assert_eq!(e.line_count(), 4);
}

#[test]
fn backspace_keeps_sole_empty_line() {
    let mut e = editor(&["x"], 80, 26);
    e.process_command(Command::MoveRight);
    e.process_command(Command::DeleteBackward);
    assert_eq!(all_lines(&e), vec![""]);
    assert_eq!(e.line_count(), 1);
    assert_eq!(e.cursor_position(), (0, 0));
}

#[test]
fn backspace_removes_emptied_line() {
    let mut e = editor(&["a", "x", "b"], 80, 26);
    e.process_command(Command::MoveDown);
    e.process_command(Command::MoveRight);
    e.delete_char();
    assert_eq!(all_lines(&e), vec!["a", "b"]);
    assert_eq!(e.active_line_index(), 1);
    check_view(&e);
}

#[test]
fn backspace_removes_emptied_last_line() {
    let mut e = editor(&["a", "x"], 80, 26);
    e.process_command(Command::MoveDown);
    e.process_command(Command::MoveRight);
    e.process_command(Command::DeleteBackward);
    assert_eq!(all_lines(&e), vec!["a"]);
    assert_eq!(e.active_line_index(), 0);
    assert_eq!(e.cursor_position(), (0, 0));
}

#[test]
fn backspace_at_line_start_does_not_merge() {
    let mut e = editor(&["ab", "cd"], 80, 26);
    e.process_command(Command::MoveDown);
    e.process_command(Command::DeleteBackward);
    assert_eq!(all_lines(&e), vec!["ab", "cd"]);
    assert_eq!(e.active_line_index(), 1);
}

#[test]
fn backspace_in_middle() {
    let mut e = editor(&["abc"], 80, 26);
    repeat(&mut e, Command::MoveRight, 2);
    e.process_command(Command::DeleteBackward);
    assert_eq!(all_lines(&e), vec!["ac"]);
    assert_eq!(e.cursor_position().0, 1);
}

#[test]
fn edits_on_empty_buffer_do_nothing() {
    let mut e = editor(&[], 80, 26);
    e.write_char('a');
    e.process_command(Command::SplitLine);
    e.process_command(Command::DeleteBackward);
    assert_eq!(e.line_count(), 0);
}

#[test]
fn move_left_wraps_to_end_of_previous_line() {
    let mut e = editor(&["abc", "de"], 80, 26);
    e.process_command(Command::MoveDown);
    e.scroll_left();
    assert_eq!(e.active_line_index(), 0);
    assert_eq!(e.cursor_position(), (3, 0));
}

#[test]
fn move_left_at_origin_stays() {
    let mut e = editor(&["abc"], 80, 26);
    e.process_command(Command::MoveLeft);
    assert_eq!(e.cursor_position(), (0, 0));
    assert_eq!(e.scroll_offset(), (0, 0));
}

#[test]
fn move_right_wraps_to_next_line() {
    let mut e = editor(&["ab", "cd"], 80, 26);
    repeat(&mut e, Command::MoveRight, 2);
    assert_eq!(e.cursor_position(), (2, 0));
    e.scroll_right();
    assert_eq!(e.active_line_index(), 1);
    assert_eq!(e.cursor_position(), (0, 1));
}

#[test]
fn move_right_at_end_of_last_line_stays() {
    let mut e = editor(&["ab"], 80, 26);
    repeat(&mut e, Command::MoveRight, 5);
    assert_eq!(e.cursor_position(), (2, 0));
    assert_eq!(e.active_line_index(), 0);
}

#[test]
fn horizontal_scroll_past_width() {
    let mut e = editor(&["abcdefgh"], 4, 26);
    repeat(&mut e, Command::MoveRight, 6);
    assert_eq!(e.cursor_position().0, 3);
    assert_eq!(e.scroll_offset().0, 3);
    repeat(&mut e, Command::MoveLeft, 4);
    assert_eq!(e.cursor_position().0, 0);
    assert_eq!(e.scroll_offset().0, 2);
    let shown = e.visible_text();
    assert_eq!(shown.iter().map(text).collect::<Vec<_>>(), vec!["cdef"]);
}

#[test]
fn vertical_move_clamps_column() {
    let mut e = editor(&["abcdef", "ab"], 80, 26);
    repeat(&mut e, Command::MoveRight, 5);
    e.scroll_down();
    assert_eq!(e.cursor_position(), (2, 1));
    e.scroll_up();
    assert_eq!(e.cursor_position(), (2, 0));
}

#[test]
fn half_page_down_and_up() {
    let lines: Vec<&str> = (0..25).map(|_| "line").collect();
    let mut e = editor(&lines, 80, 12);
    repeat(&mut e, Command::MoveDown, 3);
    e.scroll_half_page_down();
    assert_eq!(e.scroll_offset().1, 10);
    assert_eq!(e.active_line_index(), 13);
    e.process_command(Command::HalfPageDown);
    assert_eq!(e.scroll_offset().1, 15);
    assert_eq!(e.active_line_index(), 18);
    e.scroll_half_page_up();
    assert_eq!(e.scroll_offset().1, 5);
    assert_eq!(e.active_line_index(), 8);
    e.process_command(Command::HalfPageUp);
    assert_eq!(e.scroll_offset().1, 0);
    assert_eq!(e.active_line_index(), 3);
}

#[test]
fn half_page_on_short_buffer() {
    let mut e = editor(&["a", "b"], 80, 12);
    e.process_command(Command::MoveDown);
    e.process_command(Command::HalfPageDown);
    assert_eq!(e.scroll_offset().1, 0);
    assert_eq!(e.active_line_index(), 1);
}

#[test]
fn view_invariant_after_mixed_commands() {
    let lines: Vec<&str> = (0..40).map(|i| if i % 3 == 0 { "" } else { "some text here" }).collect();
    let mut e = editor(&lines, 6, 7);
    let cmds = [
        Command::MoveDown,
        Command::MoveRight,
        Command::MoveRight,
        Command::HalfPageDown,
        Command::MoveLeft,
        Command::InsertChar('z'),
        Command::SplitLine,
        Command::DeleteBackward,
        Command::DeleteBackward,
        Command::HalfPageUp,
        Command::MoveUp,
    ];
    for k in 0..200 {
        e.process_command(cmds[(k * 7 + k / 5) % cmds.len()]);
        check_view(&e);
    }
}

#[test]
fn reconcile_twice_is_reconcile_once() {
    let mut e = editor(&["abc", "de", "f"], 80, 26);
    repeat(&mut e, Command::MoveDown, 2);
    e.reconcile_after_edit();
    let first = (e.active_line_index(), e.scroll_offset(), e.cursor_position());
    e.reconcile_after_edit();
    let second = (e.active_line_index(), e.scroll_offset(), e.cursor_position());
    assert_eq!(first, second);
    assert_eq!(first, (2, (0, 0), (0, 2)));
}

#[test]
fn quit_and_save_commands() {
    let mut e = editor(&["a", "b"], 80, 26);
    assert!(!e.process_command(Command::Nothing));
    assert!(e.process_command(Command::Save));
    assert!(!e.is_exit());
    let text = e.save_to_file();
    assert_eq!(text.iter().collect::<String>(), "a\nb\n");
    assert!(e.is_exit());
    let mut q = editor(&["a"], 80, 26);
    assert!(!q.process_command(Command::Quit));
    assert!(q.is_exit());
}

#[test]
fn visible_text_window() {
    let mut e = editor(&["0", "1", "2", "3", "4"], 80, 5);
    assert_eq!(e.visible_text().len(), 3);
    repeat(&mut e, Command::MoveDown, 4);
    let shown: Vec<String> = e.visible_text().iter().map(text).collect();
    assert_eq!(shown, vec!["2", "3", "4"]);
    let empty = editor(&[], 80, 5);
    assert!(empty.visible_text().is_empty());
}

#[test]
fn line_length_out_of_range_is_zero() {
    let e = editor(&["abc"], 80, 26);
    assert_eq!(e.line_length(0), 3);
    assert_eq!(e.line_length(1), 0);
}

#[test]
fn keys_map_to_commands() {
    assert_eq!(decode_key(Key::Ctrl('q')), Command::Quit);
    assert_eq!(decode_key(Key::Ctrl('n')), Command::MoveDown);
    assert_eq!(decode_key(Key::Ctrl('p')), Command::MoveUp);
    assert_eq!(decode_key(Key::Ctrl('d')), Command::HalfPageDown);
    assert_eq!(decode_key(Key::Ctrl('u')), Command::HalfPageUp);
    assert_eq!(decode_key(Key::Ctrl('b')), Command::MoveLeft);
    assert_eq!(decode_key(Key::Ctrl('f')), Command::MoveRight);
    assert_eq!(decode_key(Key::Ctrl('s')), Command::Save);
    assert_eq!(decode_key(Key::Ctrl('x')), Command::InsertChar('x'));
    assert_eq!(decode_key(Key::Char('q')), Command::InsertChar('q'));
    assert_eq!(decode_key(Key::Backspace), Command::DeleteBackward);
    assert_eq!(decode_key(Key::Enter), Command::SplitLine);
    assert_eq!(decode_key(Key::Other), Command::Nothing);
}

#[test]
fn new_editor_keeps_name_and_starts_at_origin() {
    let mut buffer = TextBuffer::new();
    buffer.lines = vec![chars("abc")];
    buffer.cursor_position = (2, 3);
    let e = Editor::new(buffer, Terminal::new(Size::new(80, 24)), String::from("notes.txt"));
    assert_eq!(e.file_name(), "notes.txt");
    assert_eq!(e.cursor_position(), (0, 0));
    assert_eq!(e.active_line_index(), 0);
    assert!(!e.is_exit());
}

#[test]
fn buffer_column_adds_scroll_offset() {
    let mut e = editor(&["abcdefgh"], 4, 26);
    repeat(&mut e, Command::MoveRight, 6);
    assert_eq!(e.scroll_offset().0, 3);
    assert_eq!(e.buffer_column(), 6);
}

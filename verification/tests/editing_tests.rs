use vedit::editor::{Direction, Editor, Mode, Position};

fn editor_with(lines: &[&str], row: usize, col: usize) -> Editor {
    let mut e = Editor::new();
    e.buffer = lines.iter().map(|s| s.to_string()).collect();
    e.cursor = Position { row, col };
    e
}

fn pos(row: usize, col: usize) -> Position {
    Position { row, col }
}

#[test]
fn new_editor_has_one_empty_line() {
    let e = Editor::new();
    assert_eq!(e.buffer, vec![String::new()]);
    assert_eq!(e.cursor, pos(0, 0));
    assert_eq!(e.mode, Mode::Normal);
    assert!(e.undo_stack.is_empty());
    assert!(e.prompt_state().is_none());
}

#[test]
fn move_cursor_clamps_to_shorter_line() {
    let mut e = editor_with(&["hello", "hi"], 0, 4);
    e.move_cursor(Direction::Down);
    assert_eq!(e.cursor, pos(1, 2));
    e.move_cursor(Direction::Down);
    assert_eq!(e.cursor, pos(1, 2));
    e.move_cursor(Direction::Up);
    assert_eq!(e.cursor, pos(0, 2));
    e.move_cursor(Direction::Up);
    assert_eq!(e.cursor, pos(0, 2));
    e.move_cursor(Direction::Left);
    e.move_cursor(Direction::Left);
    e.move_cursor(Direction::Left);
    assert_eq!(e.cursor, pos(0, 0));
    let mut e = editor_with(&["ab"], 0, 1);
    e.move_cursor(Direction::Right);
    e.move_cursor(Direction::Right);
    assert_eq!(e.cursor, pos(0, 2));
}

#[test]
fn word_forward_skips_word_then_space() {
    let e = editor_with(&["hello world"], 0, 0);
    assert_eq!(e.word_forward_pos(), pos(0, 6));
    let e = editor_with(&["foo", "  bar"], 0, 1);
    assert_eq!(e.word_forward_pos(), pos(1, 2));
    let e = editor_with(&["end"], 0, 1);
    assert_eq!(e.word_forward_pos(), pos(0, 3));
}

#[test]
fn word_backward_stops_on_end_of_previous_word() {
    let e = editor_with(&["hello world"], 0, 8);
    assert_eq!(e.word_backward_pos(), pos(0, 4));
    let e = editor_with(&["foo", "bar"], 1, 0);
    assert_eq!(e.word_backward_pos(), pos(0, 2));
    let e = editor_with(&["  x"], 0, 1);
    assert_eq!(e.word_backward_pos(), pos(0, 0));
}

#[test]
fn move_word_moves_cursor() {
    let mut e = editor_with(&["one two three"], 0, 0);
    e.move_word_forward();
    assert_eq!(e.cursor, pos(0, 4));
    e.move_word_forward();
    assert_eq!(e.cursor, pos(0, 8));
    e.move_word_backward();
    assert_eq!(e.cursor, pos(0, 6));
}

#[test]
fn unicode_whitespace_separates_words() {
    let e = editor_with(&["a\u{3000}b"], 0, 0);
    assert_eq!(e.word_forward_pos(), pos(0, 2));
}

#[test]
fn insert_char_at_cursor() {
    let mut e = editor_with(&["hllo"], 0, 1);
    e.insert_char('e');
    assert_eq!(e.buffer, vec!["hello"]);
    assert_eq!(e.cursor, pos(0, 2));
    let mut e = editor_with(&["é"], 0, 1);
    e.insert_char('ü');
    assert_eq!(e.buffer, vec!["éü"]);
}

#[test]
fn delete_char_before_removes_or_joins() {
    let mut e = editor_with(&["abc"], 0, 2);
    e.delete_char_before();
    assert_eq!(e.buffer, vec!["ac"]);
    assert_eq!(e.cursor, pos(0, 1));
    let mut e = editor_with(&["ab", "cd"], 1, 0);
    e.delete_char_before();
    assert_eq!(e.buffer, vec!["abcd"]);
    assert_eq!(e.cursor, pos(0, 2));
    let mut e = editor_with(&["ab"], 0, 0);
    e.delete_char_before();
    assert_eq!(e.buffer, vec!["ab"]);
    assert_eq!(e.cursor, pos(0, 0));
}

#[test]
fn delete_char_at_records_undo_and_clamps() {
    let mut e = editor_with(&["abc"], 0, 2);
    e.delete_char_at();
    assert_eq!(e.buffer, vec!["ab"]);
    assert_eq!(e.cursor, pos(0, 1));
    assert_eq!(e.undo_stack.len(), 1);
    let mut e = editor_with(&["a"], 0, 0);
    e.delete_char_at();
    assert_eq!(e.buffer, vec![""]);
    assert_eq!(e.cursor, pos(0, 0));
    let mut e = editor_with(&["abc"], 0, 0);
    e.delete_char_at();
    assert_eq!(e.buffer, vec!["bc"]);
    assert_eq!(e.cursor, pos(0, 0));
}

#[test]
fn delete_char_at_past_end_does_nothing() {
    let mut e = editor_with(&["abc"], 0, 3);
    e.delete_char_at();
    assert_eq!(e.buffer, vec!["abc"]);
    assert!(e.undo_stack.is_empty());
}

#[test]
fn delete_line_keeps_one_line() {
    let mut e = editor_with(&["only"], 0, 2);
    e.delete_line();
    assert_eq!(e.buffer, vec![""]);
    assert_eq!(e.cursor, pos(0, 0));
    let mut e = editor_with(&["a", "bbbb", "cc"], 2, 1);
    e.delete_line();
    assert_eq!(e.buffer, vec!["a", "bbbb"]);
    assert_eq!(e.cursor, pos(1, 1));
    let mut e = editor_with(&["aaaa", "b"], 0, 3);
    e.delete_line();
    assert_eq!(e.buffer, vec!["b"]);
    assert_eq!(e.cursor, pos(0, 1));
}

#[test]
fn delete_range_on_one_line() {
    let mut e = editor_with(&["hello world"], 0, 6);
    e.delete_range(pos(0, 6), pos(0, 1));
    assert_eq!(e.buffer, vec!["hworld"]);
    assert_eq!(e.cursor, pos(0, 1));
    assert_eq!(e.undo_stack.len(), 1);
    let mut e = editor_with(&["abc", "def"], 0, 1);
    e.delete_range(pos(0, 1), pos(1, 0));
    assert_eq!(e.buffer, vec!["abc", "def"]);
    assert!(e.undo_stack.is_empty());
    let mut e = editor_with(&["abc"], 0, 1);
    e.delete_range(pos(0, 1), pos(0, 9));
    assert_eq!(e.buffer, vec!["a"]);
    assert_eq!(e.cursor, pos(0, 1));
}

#[test]
fn insert_newline_splits_line() {
    let mut e = editor_with(&["hello world"], 0, 5);
    e.insert_newline();
    assert_eq!(e.buffer, vec!["hello", " world"]);
    assert_eq!(e.cursor, pos(1, 0));
}

#[test]
fn open_lines_enter_insert_mode() {
    let mut e = editor_with(&["a", "b"], 0, 1);
    e.open_line_below();
    assert_eq!(e.buffer, vec!["a", "", "b"]);
    assert_eq!(e.cursor, pos(1, 0));
    assert_eq!(e.mode, Mode::Insert);
    let mut e = editor_with(&["a", "b"], 1, 1);
    e.open_line_above();
    assert_eq!(e.buffer, vec!["a", "", "b"]);
    assert_eq!(e.cursor, pos(1, 0));
    assert_eq!(e.mode, Mode::Insert);
    assert_eq!(e.undo_stack.len(), 1);
}

#[test]
fn selection_range_orders_ends() {
    let mut e = editor_with(&["abc", "def"], 1, 1);
    assert_eq!(e.selection_range(), None);
    e.selection_anchor = Some(pos(0, 2));
    assert_eq!(e.selection_range(), Some((pos(0, 2), pos(1, 1))));
    e.selection_anchor = Some(pos(1, 2));
    assert_eq!(e.selection_range(), Some((pos(1, 1), pos(1, 2))));
}

#[test]
fn delete_selection_on_one_line() {
    let mut e = editor_with(&["abcdef"], 0, 4);
    e.selection_anchor = Some(pos(0, 1));
    e.mode = Mode::Visual;
    e.delete_selection();
    assert_eq!(e.buffer, vec!["aef"]);
    assert_eq!(e.cursor, pos(0, 1));
    assert_eq!(e.mode, Mode::Normal);
    assert_eq!(e.selection_anchor, None);
}

#[test]
fn backspace_takes_back_typing_and_line_breaks() {
    let mut e = editor_with(&["abc", "de"], 1, 1);
    e.insert_char('x');
    e.delete_char_before();
    assert_eq!(e.buffer, vec!["abc", "de"]);
    assert_eq!(e.cursor, pos(1, 1));
    e.insert_newline();
    e.delete_char_before();
    assert_eq!(e.buffer, vec!["abc", "de"]);
    assert_eq!(e.cursor, pos(1, 1));
}

#[test]
fn scroll_follows_cursor() {
    let mut e = editor_with(&["a"; 100], 50, 0);
    e.scroll(11);
    assert_eq!(e.row_offset, 41);
    e.cursor.row = 10;
    e.scroll(11);
    assert_eq!(e.row_offset, 10);
    e.cursor.row = 15;
    e.scroll(11);
    assert_eq!(e.row_offset, 10);
}

#[test]
fn buffer_text_joins_lines() {
    let e = editor_with(&["a", "", "bc"], 0, 0);
    assert_eq!(e.buffer_text(), "a\n\nbc");
    let e = editor_with(&[""], 0, 0);
    assert_eq!(e.buffer_text(), "");
}

#[test]
fn save_then_open_gives_same_lines() {
    let lines = ["first", "second line", "  third"];
    let e = editor_with(&lines, 0, 0);
    let text = e.buffer_text();
    assert_eq!(vedit::editor::split_lines(&text), lines.to_vec());
}

#[test]
fn open_takes_lines_and_path() {
    let mut e = Editor::new();
    e.open(std::path::PathBuf::from("notes.txt"), vec!["x".to_string(), "y".to_string()]);
    assert_eq!(e.buffer, vec!["x", "y"]);
    assert_eq!(e.filename, Some(std::path::PathBuf::from("notes.txt")));
}

#[test]
fn char_steps_invert_each_other() {
    let e = editor_with(&["ab", "", "c"], 0, 0);
    let places = [(0, 0), (0, 1), (0, 2), (1, 0), (2, 0), (2, 1)];
    for &(row, col) in places.iter() {
        let next = e.next_char_pos(row, col);
        if (row, col) != (2, 1) {
            assert_eq!(e.prev_char_pos(next.0, next.1), (row, col));
        } else {
            assert_eq!(next, (2, 1));
        }
        let prev = e.prev_char_pos(row, col);
        if (row, col) != (0, 0) {
            assert_eq!(e.next_char_pos(prev.0, prev.1), (row, col));
        } else {
            assert_eq!(prev, (0, 0));
        }
    }
    assert_eq!(e.next_char_pos(0, 2), (1, 0));
    assert_eq!(e.prev_char_pos(2, 0), (1, 0));
    assert_eq!(e.line_len(0), 2);
}

use vedit::editor::{Editor, Position};

fn editor_with(lines: &[&str], row: usize, col: usize) -> Editor {
    let mut e = Editor::new();
    e.buffer = lines.iter().map(|s| s.to_string()).collect();
    e.cursor = Position { row, col };
    e
}

fn pos(row: usize, col: usize) -> Position {
    Position { row, col }
}

#[test]
fn snapshot_copies_buffer_and_cursor() {
    let e = editor_with(&["a", "b"], 1, 1);
    let s = e.snapshot();
    assert_eq!(s.buffer, vec!["a", "b"]);
    assert_eq!(s.cursor, pos(1, 1));
}

#[test]
fn undo_restores_and_redo_reapplies() {
    let mut e = editor_with(&["abc"], 0, 1);
    e.delete_char_at();
    assert_eq!(e.buffer, vec!["ac"]);
    e.undo();
    assert_eq!(e.buffer, vec!["abc"]);
    assert_eq!(e.cursor, pos(0, 1));
    assert!(e.undo_stack.is_empty());
    assert_eq!(e.redo_stack.len(), 1);
    e.redo();
    assert_eq!(e.buffer, vec!["ac"]);
    assert_eq!(e.cursor, pos(0, 1));
    assert_eq!(e.undo_stack.len(), 1);
    assert!(e.redo_stack.is_empty());
}

#[test]
fn undo_with_nothing_recorded_reports() {
    let mut e = editor_with(&["abc"], 0, 1);
    e.undo();
    assert_eq!(e.status, "already at oldest change");
    assert_eq!(e.buffer, vec!["abc"]);
}

#[test]
fn redo_with_nothing_undone_does_nothing() {
    let mut e = editor_with(&["abc"], 0, 1);
    e.redo();
    assert_eq!(e.buffer, vec!["abc"]);
    assert_eq!(e.status, "");
}

#[test]
fn push_undo_clears_redo() {
    let mut e = editor_with(&["abc"], 0, 0);
    e.delete_char_at();
    e.undo();
    assert_eq!(e.redo_stack.len(), 1);
    e.push_undo();
    assert!(e.redo_stack.is_empty());
    assert_eq!(e.undo_stack.len(), 1);
}

#[test]
fn undo_reverts_typing_after_record() {
    let mut e = editor_with(&["abc"], 0, 3);
    e.push_undo();
    e.insert_char('d');
    e.insert_newline();
    e.insert_char('e');
    e.undo();
    assert_eq!(e.buffer, vec!["abc"]);
    assert_eq!(e.cursor, pos(0, 3));
}

#[test]
fn undo_reverts_each_recorded_edit() {
    let mut e = editor_with(&["one", "two", "three"], 1, 1);
    e.delete_line();
    e.undo();
    assert_eq!(e.buffer, vec!["one", "two", "three"]);
    assert_eq!(e.cursor, pos(1, 1));
    e.open_line_below();
    e.undo();
    assert_eq!(e.buffer, vec!["one", "two", "three"]);
    assert_eq!(e.cursor, pos(1, 1));
    e.open_line_above();
    e.undo();
    assert_eq!(e.buffer, vec!["one", "two", "three"]);
    e.delete_range(pos(1, 0), pos(1, 2));
    e.undo();
    assert_eq!(e.buffer, vec!["one", "two", "three"]);
    assert_eq!(e.cursor, pos(1, 1));
}

#[test]
fn find_next_on_same_line() {
    let mut e = editor_with(&["foo bar foo"], 0, 0);
    e.last_search = "foo".to_string();
    e.find_next();
    assert_eq!(e.cursor, pos(0, 8));
    assert_eq!(e.status, "");
}

#[test]
fn find_next_on_later_line() {
    let mut e = editor_with(&["abc", "xyz", "a foo"], 0, 0);
    e.last_search = "foo".to_string();
    e.find_next();
    assert_eq!(e.cursor, pos(2, 2));
}

#[test]
fn find_next_wraps_to_top() {
    let mut e = editor_with(&["foo", "bar", "baz"], 1, 0);
    e.last_search = "foo".to_string();
    e.find_next();
    assert_eq!(e.cursor, pos(0, 0));
    assert_eq!(e.status, "search wrapped");
}

#[test]
fn find_next_wraps_to_start_of_cursor_line() {
    let mut e = editor_with(&["ab cd", "x"], 0, 3);
    e.last_search = "ab".to_string();
    e.find_next();
    assert_eq!(e.cursor, pos(0, 0));
    assert_eq!(e.status, "search wrapped");
}

#[test]
fn find_next_not_found() {
    let mut e = editor_with(&["abc", "def"], 0, 1);
    e.last_search = "zz".to_string();
    e.find_next();
    assert_eq!(e.cursor, pos(0, 1));
    assert_eq!(e.status, "not found: zz");
}

#[test]
fn find_next_misses_match_under_cursor() {
    let mut e = editor_with(&["xabx"], 0, 1);
    e.last_search = "ab".to_string();
    e.find_next();
    assert_eq!(e.cursor, pos(0, 1));
    assert_eq!(e.status, "not found: ab");
}

#[test]
fn find_with_empty_search_does_nothing() {
    let mut e = editor_with(&["abc"], 0, 1);
    e.find_next();
    e.find_prev();
    assert_eq!(e.cursor, pos(0, 1));
    assert_eq!(e.status, "");
}

#[test]
fn find_next_multibyte_columns() {
    let mut e = editor_with(&["é ab é ab"], 0, 0);
    e.last_search = "ab".to_string();
    e.find_next();
    assert_eq!(e.cursor, pos(0, 2));
    e.find_next();
    assert_eq!(e.cursor, pos(0, 7));
}

#[test]
fn find_prev_on_same_line() {
    let mut e = editor_with(&["foo bar foo"], 0, 8);
    e.last_search = "foo".to_string();
    e.find_prev();
    assert_eq!(e.cursor, pos(0, 0));
}

#[test]
fn find_prev_on_earlier_line_takes_last_occurrence() {
    let mut e = editor_with(&["ab ab", "cd"], 1, 1);
    e.last_search = "ab".to_string();
    e.find_prev();
    assert_eq!(e.cursor, pos(0, 3));
}

#[test]
fn find_prev_wraps_to_bottom() {
    let mut e = editor_with(&["x", "y", "qq"], 0, 0);
    e.last_search = "q".to_string();
    e.find_prev();
    assert_eq!(e.cursor, pos(2, 1));
    assert_eq!(e.status, "search wrapped");
}

#[test]
fn find_prev_wraps_to_end_of_cursor_line() {
    let mut e = editor_with(&["a b a"], 0, 0);
    e.last_search = "a".to_string();
    e.find_prev();
    assert_eq!(e.cursor, pos(0, 4));
    assert_eq!(e.status, "search wrapped");
}

#[test]
fn find_prev_not_found() {
    let mut e = editor_with(&["abc"], 0, 2);
    e.last_search = "q".to_string();
    e.find_prev();
    assert_eq!(e.status, "not found: q");
    assert_eq!(e.cursor, pos(0, 2));
}

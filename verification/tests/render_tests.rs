use vedit::editor::{Editor, Mode, Position};
use vedit::render::decimal_string;

fn editor_with(lines: &[&str], row: usize, col: usize) -> Editor {
    let mut e = Editor::new();
    e.buffer = lines.iter().map(|s| s.to_string()).collect();
    e.cursor = Position { row, col };
    e
}

#[test]
fn decimal_string_writes_digits() {
    assert_eq!(decimal_string(0), "0");
    assert_eq!(decimal_string(7), "7");
    assert_eq!(decimal_string(10), "10");
    assert_eq!(decimal_string(1234567890), "1234567890");
    assert_eq!(decimal_string(usize::MAX), usize::MAX.to_string());
}

#[test]
fn frame_shows_lines_and_status() {
    let e = editor_with(&["hello world", "hi"], 1, 1);
    let f = e.frame(20, 5, Some("a.txt"));
    assert_eq!(f.rows.len(), 5);
    assert_eq!(f.rows[0], "hello world");
    assert_eq!(f.rows[1], "hi");
    assert_eq!(f.rows[2], "~");
    assert_eq!(f.rows[3], "~");
    assert_eq!(f.rows[4], "Normal | a.txt | 2: ");
    assert_eq!((f.cursor_x, f.cursor_y), (1, 1));
}

#[test]
fn frame_cuts_lines_and_status_to_width() {
    let mut e = editor_with(&["abcdefghij"], 0, 0);
    e.status = "msg".to_string();
    let f = e.frame(8, 2, None);
    assert_eq!(f.rows[0], "abcdefgh");
    assert_eq!(f.rows[1], "Norm msg");
}

#[test]
fn frame_without_name() {
    let e = editor_with(&["x"], 0, 1);
    let f = e.frame(30, 2, None);
    assert_eq!(f.rows[1], "Normal | [No Name] | 1:2      ");
}

#[test]
fn frame_prompt_places_cursor_on_status_line() {
    let mut e = editor_with(&["x"], 0, 0);
    e.mode = Mode::Command;
    e.command_buffer = "wq".to_string();
    let f = e.frame(10, 3, None);
    assert_eq!(f.rows[2], ":wq       ");
    assert_eq!((f.cursor_x, f.cursor_y), (3, 2));
}

#[test]
fn frame_uses_row_offset() {
    let mut e = editor_with(&["a", "b", "c", "d"], 3, 0);
    e.row_offset = 2;
    let f = e.frame(5, 3, None);
    assert_eq!(f.rows[0], "c");
    assert_eq!(f.rows[1], "d");
    assert_eq!((f.cursor_x, f.cursor_y), (0, 1));
}

#[test]
fn status_messages_for_saving() {
    let mut e = Editor::new();
    e.note_saved(42);
    assert_eq!(e.status, "saved 42 bytes");
    e.report_error("no filename");
    assert_eq!(e.status, "error: no filename");
}

#[test]
fn status_line_fills_the_width() {
    let mut e = editor_with(&["some text"], 0, 3);
    for cols in [5u16, 12, 20, 40] {
        e.status = "note".to_string();
        let f = e.frame(cols, 4, Some("file.rs"));
        assert_eq!(f.rows[3].chars().count(), cols as usize);
        assert!(f.rows[3].ends_with("note"));
    }
}

#[test]
fn scroll_keeps_cursor_in_window() {
    let mut e = editor_with(&["x"; 40], 0, 0);
    for row in [0usize, 5, 39, 12, 3, 30] {
        e.cursor.row = row;
        e.scroll(8);
        assert!(e.row_offset <= row && row < e.row_offset + 7);
    }
}

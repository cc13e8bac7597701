use vedit::editor::{Editor, Mode, Position};
use vedit::handlers::{KeyCode, KeyEvent, Outcome, CONTROL, NONE, SHIFT};

fn editor_with(lines: &[&str], row: usize, col: usize) -> Editor {
    let mut e = Editor::new();
    e.buffer = lines.iter().map(|s| s.to_string()).collect();
    e.cursor = Position { row, col };
    e
}

fn pos(row: usize, col: usize) -> Position {
    Position { row, col }
}

fn key(c: char) -> KeyEvent {
    KeyEvent { code: KeyCode::Char(c), modifiers: NONE }
}

fn ctrl(c: char) -> KeyEvent {
    KeyEvent { code: KeyCode::Char(c), modifiers: CONTROL }
}

fn special(code: KeyCode) -> KeyEvent {
    KeyEvent { code, modifiers: NONE }
}

fn press(e: &mut Editor, keys: &str) -> Outcome {
    let mut last = Outcome::Continue;
    for c in keys.chars() {
        last = e.handle_key(key(c));
    }
    last
}

#[test]
fn ctrl_q_quits_and_plain_q_does_not() {
    let mut e = editor_with(&["abc"], 0, 0);
    assert_eq!(e.handle_key(ctrl('q')), Outcome::Quit);
    assert_eq!(e.handle_key(key('q')), Outcome::Continue);
}

#[test]
fn hjkl_move_the_cursor() {
    let mut e = editor_with(&["abc", "def"], 0, 0);
    press(&mut e, "ljl");
    assert_eq!(e.cursor, pos(1, 2));
    press(&mut e, "kh");
    assert_eq!(e.cursor, pos(0, 1));
}

#[test]
fn normal_mode_clears_status() {
    let mut e = editor_with(&["abc"], 0, 0);
    e.status = "old".to_string();
    e.handle_key(key('l'));
    assert_eq!(e.status, "");
}

#[test]
fn insert_mode_typing_and_escape() {
    let mut e = editor_with(&["ac"], 0, 1);
    press(&mut e, "i");
    assert_eq!(e.mode, Mode::Insert);
    assert_eq!(e.undo_stack.len(), 1);
    e.handle_key(key('b'));
    e.handle_key(KeyEvent { code: KeyCode::Char('X'), modifiers: SHIFT });
    e.handle_key(ctrl('z'));
    assert_eq!(e.buffer, vec!["abXc"]);
    e.handle_key(special(KeyCode::Enter));
    assert_eq!(e.buffer, vec!["abX", "c"]);
    e.handle_key(special(KeyCode::Backspace));
    assert_eq!(e.buffer, vec!["abXc"]);
    e.handle_key(special(KeyCode::Left));
    assert_eq!(e.cursor, pos(0, 2));
    e.handle_key(special(KeyCode::Esc));
    assert_eq!(e.mode, Mode::Normal);
    e.handle_key(key('u'));
    assert_eq!(e.buffer, vec!["ac"]);
    assert_eq!(e.cursor, pos(0, 1));
    e.handle_key(ctrl('r'));
    assert_eq!(e.buffer, vec!["abXc"]);
}

#[test]
fn command_mode_write_quit_and_unknown() {
    let mut e = editor_with(&["abc"], 0, 0);
    press(&mut e, ":");
    assert_eq!(e.mode, Mode::Command);
    assert_eq!(e.prompt_state(), Some((':', "")));
    press(&mut e, "wq");
    assert_eq!(e.prompt_state(), Some((':', "wq")));
    assert_eq!(e.handle_key(special(KeyCode::Enter)), Outcome::SaveAndQuit);
    assert_eq!(e.mode, Mode::Normal);
    assert_eq!(e.command_buffer, "");
    press(&mut e, ":w");
    assert_eq!(e.handle_key(special(KeyCode::Enter)), Outcome::Save);
    press(&mut e, ":q");
    assert_eq!(e.handle_key(special(KeyCode::Enter)), Outcome::Quit);
    press(&mut e, ":q!");
    assert_eq!(e.handle_key(special(KeyCode::Enter)), Outcome::Quit);
    press(&mut e, ":foo");
    assert_eq!(e.handle_key(special(KeyCode::Enter)), Outcome::Continue);
    assert_eq!(e.status, "unknown command: foo");
}

#[test]
fn command_mode_backspace_and_escape() {
    let mut e = editor_with(&["abc"], 0, 0);
    press(&mut e, ":ab");
    e.handle_key(special(KeyCode::Backspace));
    assert_eq!(e.command_buffer, "a");
    e.handle_key(special(KeyCode::Backspace));
    assert_eq!(e.mode, Mode::Command);
    e.handle_key(special(KeyCode::Backspace));
    assert_eq!(e.mode, Mode::Normal);
    press(&mut e, ":xy");
    e.handle_key(special(KeyCode::Esc));
    assert_eq!(e.mode, Mode::Normal);
    assert_eq!(e.command_buffer, "");
}

#[test]
fn ctrl_s_asks_to_save() {
    let mut e = editor_with(&["abc"], 0, 0);
    assert_eq!(e.handle_key(ctrl('s')), Outcome::SaveOrReport);
    assert_eq!(e.handle_key(key('s')), Outcome::Continue);
}

#[test]
fn search_mode_then_next_and_previous() {
    let mut e = editor_with(&["one two", "two one"], 0, 0);
    press(&mut e, "/two");
    assert_eq!(e.mode, Mode::Search);
    assert_eq!(e.prompt_state(), Some(('/', "two")));
    e.handle_key(special(KeyCode::Enter));
    assert_eq!(e.mode, Mode::Normal);
    assert_eq!(e.last_search, "two");
    assert_eq!(e.search_query, "");
    assert_eq!(e.cursor, pos(0, 4));
    press(&mut e, "n");
    assert_eq!(e.cursor, pos(1, 0));
    press(&mut e, "N");
    assert_eq!(e.cursor, pos(0, 4));
}

#[test]
fn search_mode_backspace_and_escape() {
    let mut e = editor_with(&["abc"], 0, 0);
    press(&mut e, "/a");
    e.handle_key(special(KeyCode::Backspace));
    assert_eq!(e.search_query, "");
    e.handle_key(special(KeyCode::Backspace));
    assert_eq!(e.mode, Mode::Normal);
    press(&mut e, "/zz");
    e.handle_key(special(KeyCode::Esc));
    assert_eq!(e.mode, Mode::Normal);
    assert_eq!(e.search_query, "");
}

#[test]
fn x_deletes_and_o_opens_lines() {
    let mut e = editor_with(&["abc"], 0, 0);
    press(&mut e, "x");
    assert_eq!(e.buffer, vec!["bc"]);
    press(&mut e, "o");
    assert_eq!(e.buffer, vec!["bc", ""]);
    assert_eq!(e.mode, Mode::Insert);
    e.handle_key(special(KeyCode::Esc));
    press(&mut e, "O");
    assert_eq!(e.buffer, vec!["bc", "", ""]);
}

#[test]
fn d_operator_with_motions() {
    let mut e = editor_with(&["one", "two", "three"], 1, 1);
    press(&mut e, "d");
    assert_eq!(e.status, "d op");
    assert!(e.pending_op.is_some());
    press(&mut e, "d");
    assert_eq!(e.buffer, vec!["one", "three"]);
    assert!(e.pending_op.is_none());
    let mut e = editor_with(&["hello world"], 0, 0);
    press(&mut e, "dw");
    assert_eq!(e.buffer, vec!["world"]);
    let mut e = editor_with(&["abc"], 0, 1);
    press(&mut e, "dl");
    assert_eq!(e.buffer, vec!["ac"]);
    press(&mut e, "dh");
    assert_eq!(e.buffer, vec!["c"]);
    assert_eq!(e.cursor, pos(0, 0));
    let mut e = editor_with(&["abc"], 0, 1);
    press(&mut e, "dz");
    assert_eq!(e.buffer, vec!["abc"]);
    assert!(e.pending_op.is_none());
}

#[test]
fn d_operator_across_lines_does_nothing() {
    let mut e = editor_with(&["ab", "cd"], 0, 1);
    press(&mut e, "dw");
    assert_eq!(e.buffer, vec!["ab", "cd"]);
    assert!(e.undo_stack.is_empty());
}

#[test]
fn zero_and_dollar_go_to_line_ends() {
    let mut e = editor_with(&["hello"], 0, 2);
    press(&mut e, "$");
    assert_eq!(e.cursor, pos(0, 5));
    press(&mut e, "0");
    assert_eq!(e.cursor, pos(0, 0));
    press(&mut e, "w");
    assert_eq!(e.cursor, pos(0, 5));
    press(&mut e, "b");
    assert_eq!(e.cursor, pos(0, 4));
}

#[test]
fn visual_mode_select_and_delete() {
    let mut e = editor_with(&["abcdef"], 0, 1);
    press(&mut e, "v");
    assert_eq!(e.mode, Mode::Visual);
    assert_eq!(e.selection_anchor, Some(pos(0, 1)));
    press(&mut e, "ll");
    assert_eq!(e.selection_range(), Some((pos(0, 1), pos(0, 3))));
    press(&mut e, "d");
    assert_eq!(e.buffer, vec!["adef"]);
    assert_eq!(e.mode, Mode::Normal);
    assert_eq!(e.selection_anchor, None);
}

#[test]
fn visual_mode_escape_leaves() {
    let mut e = editor_with(&["abc"], 0, 0);
    press(&mut e, "vl");
    e.handle_key(special(KeyCode::Esc));
    assert_eq!(e.mode, Mode::Normal);
    assert_eq!(e.selection_anchor, None);
    press(&mut e, "vv");
    assert_eq!(e.mode, Mode::Normal);
}

#[test]
fn other_keys_do_nothing_in_normal_mode() {
    let mut e = editor_with(&["abc"], 0, 1);
    assert_eq!(e.handle_key(special(KeyCode::Other)), Outcome::Continue);
    assert_eq!(e.handle_key(special(KeyCode::Left)), Outcome::Continue);
    assert_eq!(e.cursor, pos(0, 1));
    assert_eq!(e.buffer, vec!["abc"]);
}

#[test]
fn prompt_keys_keep_the_buffer() {
    let mut e = editor_with(&["foo bar"], 0, 2);
    press(&mut e, ":xyz");
    e.handle_key(special(KeyCode::Backspace));
    e.handle_key(special(KeyCode::Enter));
    assert_eq!(e.buffer, vec!["foo bar"]);
    assert_eq!(e.cursor, pos(0, 2));
    press(&mut e, "/bar");
    e.handle_key(special(KeyCode::Enter));
    assert_eq!(e.buffer, vec!["foo bar"]);
    assert_eq!(e.cursor, pos(0, 4));
}

#[test]
fn defaults() {
    assert_eq!(Position::default(), pos(0, 0));
    assert_eq!(Mode::default(), Mode::Normal);
}

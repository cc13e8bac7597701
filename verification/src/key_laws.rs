//! What keys do, stated by their effect on the buffer and cursor.
use vstd::prelude::*;
use crate::editor::{Direction, EditorView, Mode, Position};
use crate::handlers::{CONTROL, KeyCode, KeyEvent, NONE, Outcome, SHIFT};

verus! {

/// `to` is one step from `from` in direction `dir` through `lines`: left and
/// right within the line (not past its ends), up and down to the
/// neighbouring line (not past the first or last), the column then kept
/// within the line reached.
pub open spec fn one_step(lines: Seq<Seq<char>>, from: Position, dir: Direction, to: Position) -> bool {
    let len = lines[from.row as int].len();
    match dir {
        Direction::Left => to.row == from.row && to.col == (if from.col > 0 { from.col - 1 } else { 0 }),
        Direction::Right => to.row == from.row && to.col == (if from.col < len { from.col + 1 } else { from.col as int }),
        Direction::Up => if from.row > 0 {
            to.row == from.row - 1 && to.col == (if from.col <= lines[from.row - 1].len() {
                from.col as int
            } else {
                lines[from.row - 1].len() as int
            })
        } else {
            to.row == from.row && to.col == (if from.col <= len { from.col as int } else { len as int })
        },
        Direction::Down => if from.row + 1 < lines.len() {
            to.row == from.row + 1 && to.col == (if from.col <= lines[from.row + 1].len() {
                from.col as int
            } else {
                lines[from.row + 1].len() as int
            })
        } else {
            to.row == from.row && to.col == (if from.col <= len { from.col as int } else { len as int })
        },
    }
}

/// The motion keys of normal, visual and insert mode each move the cursor one
/// step in their direction, and leave the buffer and the undo history alone.
pub proof fn law_motion_keys_step(s: EditorView, ev: KeyEvent, dir: Direction)
    requires
        s.wf(),
        s.lines.len() <= usize::MAX,
        s.cur_line().len() < usize::MAX,
        match dir {
            Direction::Left => ev.code == KeyCode::Left || ev.code == KeyCode::Char('h'),
            Direction::Right => ev.code == KeyCode::Right || ev.code == KeyCode::Char('l'),
            Direction::Up => ev.code == KeyCode::Up || ev.code == KeyCode::Char('k'),
            Direction::Down => ev.code == KeyCode::Down || ev.code == KeyCode::Char('j'),
        },
    ensures
        (match ev.code {
            KeyCode::Char(_) => {
                let (t, o) = s.normal_key(ev);
                s.pending_op is None ==> {
                    &&& one_step(s.lines, s.cursor, dir, t.cursor)
                    &&& t.lines == s.lines && t.undo == s.undo && t.redo == s.redo
                    &&& o == Outcome::Continue
                }
            },
            _ => true,
        }),
        (match ev.code {
            KeyCode::Char(_) => {
                let t = s.visual_key(ev);
                &&& one_step(s.lines, s.cursor, dir, t.cursor)
                &&& t.lines == s.lines && t.undo == s.undo && t.redo == s.redo
            },
            _ => true,
        }),
        (match ev.code {
            KeyCode::Char(_) => true,
            _ => {
                let t = s.insert_key(ev);
                &&& one_step(s.lines, s.cursor, dir, t.cursor)
                &&& t.lines == s.lines && t.undo == s.undo && t.redo == s.redo
            },
        }),
{
    if s.cursor.row + 1 < s.lines.len() {
        assert(s.cursor.row + 1 <= usize::MAX);
    }
}

/// In insert mode a character typed with no modifier or with shift goes in
/// at the cursor, which moves past it; the other lines and the undo history
/// stay.
pub proof fn law_insert_mode_typing(s: EditorView, c: char, modifiers: u8)
    requires
        s.wf(),
        s.cur_line().len() < usize::MAX,
        modifiers == NONE || modifiers == SHIFT,
    ensures
        ({
            let t = s.insert_key(KeyEvent { code: KeyCode::Char(c), modifiers });
            let row = s.cursor.row as int;
            let col = s.cursor.col as int;
            &&& t.lines.len() == s.lines.len()
            &&& t.lines[row] == s.cur_line().take(col).push(c) + s.cur_line().skip(col)
            &&& forall|r: int| 0 <= r < s.lines.len() && r != row ==> t.lines[r] == s.lines[r]
            &&& t.cursor.row == s.cursor.row && t.cursor.col == col + 1
            &&& t.undo == s.undo
        }),
{
}

/// The characters that name a command in normal mode, whatever the
/// modifiers.
pub open spec fn normal_command_char(c: char) -> bool {
    c == 'h' || c == 'j' || c == 'k' || c == 'l' || c == 'i' || c == ':' || c == 'u' || c == '/'
        || c == 'n' || c == 'N' || c == 'x' || c == 'o' || c == 'O' || c == 'd' || c == 'w' || c
        == 'b' || c == '0' || c == '$' || c == 'v'
}

/// In normal mode with no operator waiting, a key that names no command
/// (any key other than a character, a character that names no command, or
/// `q`, `s`, `r` without exactly the control modifier) changes nothing but
/// clearing the status line.
pub proof fn law_normal_unbound_keys(s: EditorView, ev: KeyEvent)
    requires
        s.pending_op is None,
        match ev.code {
            KeyCode::Char(c) => !normal_command_char(c) && (ev.modifiers != CONTROL || (c != 'q'
                && c != 's' && c != 'r')),
            _ => true,
        },
    ensures
        s.normal_key(ev) == (s.clear_status(), Outcome::Continue),
{
}

/// In normal mode, `u` goes back to the last recorded buffer and cursor and
/// keeps the current ones for redo, and Control-R goes forward to the last
/// undone ones and keeps the current ones for undo.
pub proof fn law_undo_redo_keys(s: EditorView, modifiers: u8)
    requires
        s.pending_op is None,
    ensures
        s.undo.len() > 0 ==> {
            let (t, o) = s.normal_key(KeyEvent { code: KeyCode::Char('u'), modifiers });
            &&& t.lines == s.undo.last().lines && t.cursor == s.undo.last().cursor
            &&& t.undo == s.undo.drop_last()
            &&& t.redo == s.redo.push(s.snapshot())
            &&& o == Outcome::Continue
        },
        s.redo.len() > 0 ==> {
            let (t, o) = s.normal_key(KeyEvent { code: KeyCode::Char('r'), modifiers: CONTROL });
            &&& t.lines == s.redo.last().lines && t.cursor == s.redo.last().cursor
            &&& t.redo == s.redo.drop_last()
            &&& t.undo == s.undo.push(s.snapshot())
            &&& o == Outcome::Continue
        },
{
}

/// The mode keys: in normal mode `i` records the state for undo and starts
/// inserting, `:` and `/` open an empty command or search prompt, `v` starts
/// a selection at the cursor; Escape leaves insert mode, and Escape or `v`
/// leaves visual mode dropping the selection. None of them changes the buffer
/// or moves the cursor.
pub proof fn law_mode_keys(s: EditorView, modifiers: u8)
    requires
        s.pending_op is None,
    ensures
        ({
            let (t, o) = s.normal_key(KeyEvent { code: KeyCode::Char('i'), modifiers });
            t.mode == Mode::Insert && t.lines == s.lines && t.cursor == s.cursor && t.undo
                == s.undo.push(s.snapshot()) && o == Outcome::Continue
        }),
        ({
            let (t, o) = s.normal_key(KeyEvent { code: KeyCode::Char(':'), modifiers });
            t.mode == Mode::Command && t.command.len() == 0 && t.lines == s.lines && t.cursor
                == s.cursor && o == Outcome::Continue
        }),
        ({
            let (t, o) = s.normal_key(KeyEvent { code: KeyCode::Char('/'), modifiers });
            t.mode == Mode::Search && t.search_query.len() == 0 && t.lines == s.lines && t.cursor
                == s.cursor && o == Outcome::Continue
        }),
        ({
            let (t, o) = s.normal_key(KeyEvent { code: KeyCode::Char('v'), modifiers });
            t.mode == Mode::Visual && t.anchor == Some(s.cursor) && t.lines == s.lines && t.cursor
                == s.cursor && o == Outcome::Continue
        }),
        ({
            let t = s.insert_key(KeyEvent { code: KeyCode::Esc, modifiers });
            t.mode == Mode::Normal && t.lines == s.lines && t.cursor == s.cursor
        }),
        ({
            let t = s.visual_key(KeyEvent { code: KeyCode::Esc, modifiers });
            let u = s.visual_key(KeyEvent { code: KeyCode::Char('v'), modifiers });
            t.mode == Mode::Normal && t.anchor is None && t.lines == s.lines && t.cursor == s.cursor
                && u.mode == Mode::Normal && u.anchor is None && u.lines == s.lines
        }),
{
}

/// Normal-mode keys that edit do what the edit of their name does, from a
/// cleared status line: `x` deletes the character under the cursor, `o` and
/// `O` open a line below and above, `dd` deletes the line, `n` and `N` search
/// forward and backward, `w` and `b` move by word.
pub proof fn law_normal_edit_keys(s: EditorView, modifiers: u8)
    requires
        s.pending_op is None,
    ensures
        s.normal_key(KeyEvent { code: KeyCode::Char('x'), modifiers }).0 == s.clear_status().delete_char_at(),
        s.normal_key(KeyEvent { code: KeyCode::Char('o'), modifiers }).0 == s.clear_status().open_line_below(),
        s.normal_key(KeyEvent { code: KeyCode::Char('O'), modifiers }).0 == s.clear_status().open_line_above(),
        s.normal_key(KeyEvent { code: KeyCode::Char('n'), modifiers }).0 == s.clear_status().find_next(),
        s.normal_key(KeyEvent { code: KeyCode::Char('N'), modifiers }).0 == s.clear_status().find_prev(),
        s.normal_key(KeyEvent { code: KeyCode::Char('w'), modifiers }).0 == s.clear_status().move_word_forward(),
        s.normal_key(KeyEvent { code: KeyCode::Char('b'), modifiers }).0 == s.clear_status().move_word_backward(),
        ({
            let d = s.normal_key(KeyEvent { code: KeyCode::Char('d'), modifiers }).0;
            d.normal_key(KeyEvent { code: KeyCode::Char('d'), modifiers }).0 == EditorView {
                pending_op: None,
                ..s.clear_status()
            }.delete_line().clear_status()
        }),
{
}

/// Deleting a line of a buffer of several lines removes just that line; the
/// cursor stays on the same row, which now holds the line that followed,
/// unless the last line was deleted, when it goes to the new last line. The
/// only line of a buffer is emptied instead. The column is kept within the
/// line reached, and the state before is recorded for undo.
pub proof fn law_delete_line_effect(s: EditorView)
    requires
        s.wf(),
        s.lines.len() <= usize::MAX,
    ensures
        ({
            let t = s.delete_line();
            let row = s.cursor.row as int;
            &&& s.lines.len() > 1 ==> {
                &&& t.lines.len() == s.lines.len() - 1
                &&& forall|r: int| 0 <= r < row ==> t.lines[r] == s.lines[r]
                &&& forall|r: int| row <= r < t.lines.len() ==> t.lines[r] == s.lines[r + 1]
            }
            &&& s.lines.len() == 1 ==> t.lines.len() == 1 && t.lines[0].len() == 0
            &&& row + 1 < s.lines.len() ==> t.cursor.row == s.cursor.row
            &&& s.lines.len() > 1 && row + 1 == s.lines.len() ==> t.cursor.row == s.lines.len() - 2
            &&& s.lines.len() == 1 ==> t.cursor.row == 0
            &&& t.cursor.col == (if s.cursor.col <= t.lines[t.cursor.row as int].len() {
                s.cursor.col as int
            } else {
                t.lines[t.cursor.row as int].len() as int
            })
            &&& t.undo == s.undo.push(s.snapshot())
            &&& t.redo.len() == 0
        }),
{
}

} // verus!

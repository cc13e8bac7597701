//! What the edits do, stated character by character.
use vstd::prelude::*;
use crate::editor::{EditorView, Mode, Position};
use crate::handlers::{KeyCode, KeyEvent, Outcome};

verus! {

/// `x` removes exactly the character under the cursor (when there is one)
/// and records the state before for undo; the cursor stays on the same
/// column, or on the line's new last character when it was on the last one.
pub proof fn law_delete_char_at_effect(s: EditorView)
    requires
        s.wf(),
    ensures
        ({
            let t = s.delete_char_at();
            let row = s.cursor.row as int;
            let col = s.cursor.col as int;
            let line = s.cur_line();
            &&& col >= line.len() ==> t == s
            &&& col < line.len() ==> {
                &&& t.lines.len() == s.lines.len()
                &&& t.lines[row].len() == line.len() - 1
                &&& forall|i: int| 0 <= i < col ==> t.lines[row][i] == line[i]
                &&& forall|i: int| col <= i < line.len() - 1 ==> t.lines[row][i] == line[i + 1]
                &&& forall|r: int| 0 <= r < s.lines.len() && r != row ==> t.lines[r] == s.lines[r]
                &&& t.cursor.row == s.cursor.row
                &&& t.cursor.col == (if col + 1 < line.len() { col } else if line.len() > 1 {
                    line.len() - 2
                } else {
                    0
                })
                &&& t.undo == s.undo.push(s.snapshot())
            }
        }),
{
}

/// Backspace removes the character before the cursor, which moves back onto
/// its column; at the start of a line it joins the line to the end of the one
/// above, the cursor going to the join; at the start of the buffer it does
/// nothing. Nothing is recorded for undo.
pub proof fn law_delete_char_before_effect(s: EditorView)
    requires
        s.wf(),
        s.fits_machine(),
    ensures
        ({
            let t = s.delete_char_before();
            let row = s.cursor.row as int;
            let col = s.cursor.col as int;
            let line = s.cur_line();
            &&& t.undo == s.undo
            &&& col > 0 ==> {
                &&& t.lines.len() == s.lines.len()
                &&& t.lines[row] == line.take(col - 1) + line.skip(col)
                &&& t.cursor.row == s.cursor.row && t.cursor.col == col - 1
            }
            &&& col == 0 && row > 0 ==> {
                &&& t.lines.len() == s.lines.len() - 1
                &&& t.lines[row - 1] == s.lines[row - 1] + line
                &&& forall|r: int| 0 <= r < row - 1 ==> t.lines[r] == s.lines[r]
                &&& forall|r: int| row <= r < t.lines.len() ==> t.lines[r] == s.lines[r + 1]
                &&& t.cursor.row == row - 1 && t.cursor.col == s.lines[row - 1].len()
            }
            &&& col == 0 && row == 0 ==> t == s
        }),
{
    let t = s.delete_char_before();
    let row = s.cursor.row as int;
    let col = s.cursor.col as int;
    if col > 0 {
        assert(s.cur_line().remove(col - 1) =~= s.cur_line().take(col - 1) + s.cur_line().skip(col));
    } else if row > 0 {
        assert(s.lines[row - 1].len() < usize::MAX);
    }
}

/// Enter splits the cursor's line at the cursor: the part before stays, the
/// rest becomes a new line below, and the cursor goes to its start.
pub proof fn law_insert_newline_effect(s: EditorView)
    requires
        s.wf(),
        s.lines.len() <= usize::MAX,
    ensures
        ({
            let t = s.insert_newline();
            let row = s.cursor.row as int;
            let col = s.cursor.col as int;
            let line = s.cur_line();
            &&& t.lines.len() == s.lines.len() + 1
            &&& t.lines[row] + t.lines[row + 1] == line
            &&& t.lines[row].len() == col
            &&& forall|r: int| 0 <= r < row ==> t.lines[r] == s.lines[r]
            &&& forall|r: int| row < r < s.lines.len() ==> t.lines[r + 1] == s.lines[r]
            &&& t.cursor.row == row + 1 && t.cursor.col == 0
            &&& t.undo == s.undo
        }),
{
    let line = s.cur_line();
    let col = s.cursor.col as int;
    assert(line.take(col) + line.skip(col) =~= line);
}

/// `o` and `O` put a new empty line below or above the cursor's line, move the
/// cursor to its start, enter insert mode, and record the state before for
/// undo.
pub proof fn law_open_line_effect(s: EditorView)
    requires
        s.wf(),
        s.lines.len() <= usize::MAX,
    ensures
        ({
            let b = s.open_line_below();
            let a = s.open_line_above();
            let row = s.cursor.row as int;
            &&& b.lines.len() == s.lines.len() + 1 && a.lines.len() == s.lines.len() + 1
            &&& b.lines[row + 1].len() == 0 && a.lines[row].len() == 0
            &&& forall|r: int| 0 <= r <= row ==> b.lines[r] == s.lines[r]
            &&& forall|r: int| row < r < s.lines.len() ==> b.lines[r + 1] == s.lines[r]
            &&& forall|r: int| 0 <= r < row ==> a.lines[r] == s.lines[r]
            &&& forall|r: int| row <= r < s.lines.len() ==> a.lines[r + 1] == s.lines[r]
            &&& b.cursor == (Position { row: (row + 1) as usize, col: 0 }) && b.cursor.row == row + 1
            &&& a.cursor == (Position { row: s.cursor.row, col: 0 })
            &&& b.mode == Mode::Insert && a.mode == Mode::Insert
            &&& b.undo == s.undo.push(s.snapshot()) && a.undo == s.undo.push(s.snapshot())
        }),
{
}

/// Deleting a range on one line removes the columns from the smaller end up
/// to (not including) the larger, cut to the line, and records the state
/// before for undo; the cursor goes to the smaller column. Ends on two lines
/// change nothing.
pub proof fn law_delete_range_effect(s: EditorView, start: Position, end: Position)
    requires
        s.wf(),
        start.row < s.lines.len(),
    ensures
        ({
            let t = s.delete_range(start, end);
            let line = s.lines[start.row as int];
            let lo = if start.col <= end.col { start.col as int } else { end.col as int };
            let hi = if start.col <= end.col { end.col as int } else { start.col as int };
            let lo_c = if lo <= line.len() { lo } else { line.len() as int };
            let hi_c = if hi <= line.len() { hi } else { line.len() as int };
            &&& start.row != end.row ==> t == s
            &&& start.row == end.row ==> {
                &&& t.lines.len() == s.lines.len()
                &&& t.lines[start.row as int].len() == line.len() - (hi_c - lo_c)
                &&& forall|i: int| 0 <= i < lo_c ==> t.lines[start.row as int][i] == line[i]
                &&& forall|i: int|
                    lo_c <= i < line.len() - (hi_c - lo_c) ==> t.lines[start.row as int][i] == line[i
                        + (hi_c - lo_c)]
                &&& forall|r: int| 0 <= r < s.lines.len() && r != start.row ==> t.lines[r] == s.lines[r]
                &&& t.cursor.row == s.cursor.row && t.cursor.col == lo
                &&& t.undo == s.undo.push(s.snapshot())
            }
        }),
{
}

/// The command line `w` asks to save, `q` and `q!` to quit, `wq` to save and
/// quit, each without other change; any other command is reported unknown.
pub proof fn law_commands(s: EditorView, cmd: Seq<char>)
    ensures
        cmd == "w"@ ==> s.execute_command(cmd) == (s, Outcome::Save),
        cmd == "q"@ || cmd == "q!"@ ==> s.execute_command(cmd) == (s, Outcome::Quit),
        cmd == "wq"@ ==> s.execute_command(cmd) == (s, Outcome::SaveAndQuit),
        cmd != "w"@ && cmd != "q"@ && cmd != "q!"@ && cmd != "wq"@ ==> s.execute_command(cmd) == (
        s.with_status("unknown command: "@ + cmd), Outcome::Continue),
{
    reveal_strlit("w");
    reveal_strlit("q");
    reveal_strlit("q!");
    reveal_strlit("wq");
    assert("q!"@.len() != "w"@.len());
    assert("q!"@.len() != "q"@.len());
    assert("q!"@[0] != "wq"@[0]);
    assert("q"@.len() != "wq"@.len());
    assert("q"@[0] != "w"@[0]);
    assert("w"@.len() != "wq"@.len());
}

/// Enter at the command prompt runs the typed command from normal mode with
/// an empty command line; Enter at the search prompt makes the typed text the
/// last search text and searches forward for it from normal mode.
pub proof fn law_prompt_enter(s: EditorView)
    ensures
        s.command_key(KeyEvent { code: KeyCode::Enter, modifiers: 0 }) == (EditorView {
            mode: Mode::Normal,
            command: Seq::empty(),
            ..s
        }).execute_command(s.command),
        s.search_key(KeyEvent { code: KeyCode::Enter, modifiers: 0 }).last_search == s.search_query,
        s.search_key(KeyEvent { code: KeyCode::Enter, modifiers: 0 }).search_query.len() == 0,
        s.search_key(KeyEvent { code: KeyCode::Enter, modifiers: 0 }).mode == Mode::Normal,
{
}

} // verus!

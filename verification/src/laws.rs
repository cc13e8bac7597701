//! Properties that relate the editor's operations to each other.
use vstd::prelude::*;
use crate::editor::{EditorView, Mode, Position, join_lines, scan_lines, strip_cr, text_lines};
use crate::handlers::KeyEvent;
use crate::motion::pos_le;
use crate::render::{prefix, spaces};
use crate::search::{
    at,
    first_line_match,
    last_line_match,
    lemma_first_line_match_some,
    lemma_last_line_match_some,
    lemma_next_search_none,
    lemma_prev_search_none,
};
use crate::text::{first_match, last_match, lemma_first_match_bounds, lemma_last_match_bounds, occurs_at};

verus! {

/// Undo goes back to the state that the last `push_undo` recorded, whatever
/// was done since that left the undo stack as it was: the buffer and cursor
/// are those of the recorded state, the undo stack is as before the record,
/// and the state undone is kept for redo.
pub proof fn law_undo_restores_recorded(s: EditorView, t: EditorView)
    requires
        t.undo == s.push_undo().undo,
    ensures
        t.undo().lines == s.lines,
        t.undo().cursor == s.cursor,
        t.undo().undo == s.undo,
        t.undo().redo.last() == t.snapshot(),
{
    assert(t.undo.drop_last() =~= s.undo);
}

/// Each edit that records itself for undo is taken back whole by one undo.
pub proof fn law_undo_reverts_edits(s: EditorView, start: Position, end: Position)
    requires
        s.wf(),
    ensures
        s.cursor.col < s.cur_line().len() ==> s.delete_char_at().undo().snapshot() == s.snapshot(),
        s.delete_line().undo().snapshot() == s.snapshot(),
        start.row == end.row ==> s.delete_range(start, end).undo().snapshot() == s.snapshot(),
        s.open_line_below().undo().snapshot() == s.snapshot(),
        s.open_line_above().undo().snapshot() == s.snapshot(),
        s.delete_line().undo().undo == s.undo,
{
    assert(s.delete_line().undo.drop_last() =~= s.undo);
}

/// Redo takes back an undo, and undo takes back a redo: the buffer, cursor
/// and both stacks come back as they were.
pub proof fn law_redo_inverts_undo(s: EditorView)
    ensures
        s.undo.len() > 0 ==> s.undo().redo() == s,
        s.redo.len() > 0 ==> s.redo().undo() == s,
{
    if s.undo.len() > 0 {
        assert(s.undo().redo().undo =~= s.undo);
        assert(s.undo().redo().redo =~= s.redo);
        assert(s.undo().redo() =~= s);
    }
    if s.redo.len() > 0 {
        assert(s.redo().undo().undo =~= s.undo);
        assert(s.redo().undo().redo =~= s.redo);
        assert(s.redo().undo() =~= s);
    }
}

/// Backspace takes back a typed character, and takes back a line break:
/// the lines and the cursor are as before. The counts must fit the machine,
/// as they do in every editor: the number of lines, and the cursor line's
/// length with room for one more character (`Editor::line_len` gives it).
pub proof fn law_backspace_inverts_typing(s: EditorView, c: char)
    requires
        s.wf(),
        s.lines.len() <= usize::MAX,
        s.cur_line().len() < usize::MAX,
    ensures
        s.insert_char(c).delete_char_before().lines == s.lines,
        s.insert_char(c).delete_char_before().cursor == s.cursor,
        s.insert_newline().delete_char_before().lines == s.lines,
        s.insert_newline().delete_char_before().cursor == s.cursor,
{
    let row = s.cursor.row as int;
    let col = s.cursor.col as int;
    let line = s.cur_line();
    let t = s.insert_char(c);
    assert(t.cur_line().remove(col) =~= line);
    assert(t.delete_char_before().lines =~= s.lines);
    let u = s.insert_newline();
    assert(u.lines.remove(row + 1) =~= s.lines.update(row, line.take(col)));
    assert(line.take(col) + line.skip(col) =~= line);
    assert(u.delete_char_before().lines =~= s.lines);
}

/// The selection runs from the earlier to the later of the anchor and the
/// cursor.
pub proof fn law_selection_ordered(s: EditorView)
    ensures
        s.selection() matches Some((a, b)) ==> pos_le(a, b) && s.anchor is Some && ((a
            == s.anchor->0 && b == s.cursor) || (a == s.cursor && b == s.anchor->0)),
        s.anchor is None ==> s.selection() is None,
{
}

/// A search forward either reports that the text is not found, leaving all
/// else as it was, or puts the cursor on an occurrence of it. When it is not
/// found, the only occurrences in the buffer are ones that start at or before
/// the cursor and reach past it.
pub proof fn law_find_next_lands_on_match(s: EditorView)
    requires
        s.wf(),
        s.fits_machine(),
        s.last_search.len() > 0,
    ensures
        s.find_next().lines == s.lines,
        s.find_next() == s.not_found() || occurs_at(
            s.lines[s.find_next().cursor.row as int],
            s.last_search,
            s.find_next().cursor.col as int,
        ),
        s.find_next() == s.not_found() ==> s.no_match_elsewhere(),
{
    let q = s.last_search;
    let row = s.cursor.row as int;
    let col = s.cursor.col as int;
    let line = s.lines[row];
    let n = s.lines.len() as int;
    let from = if col + 1 <= line.len() { col + 1 } else { line.len() as int };
    lemma_first_match_bounds(line, q, from, line.len() as int);
    lemma_first_line_match_some(s.lines, q, row + 1, n);
    lemma_first_line_match_some(s.lines, q, 0, row);
    lemma_first_match_bounds(line, q, 0, col);
    match first_match(line, q, from, line.len() as int) {
        Some(k) => {
            assert(s.find_next().cursor == at(row, k));
        },
        None => match first_line_match(s.lines, q, row + 1, n) {
            Some((r, k)) => {
                assert(s.lines[r].len() < usize::MAX);
                assert(s.find_next().cursor == at(r, k));
            },
            None => match first_line_match(s.lines, q, 0, row) {
                Some((r, k)) => {
                    assert(s.lines[r].len() < usize::MAX);
                    assert(s.find_next().cursor == at(r, k));
                },
                None => match first_match(line, q, 0, col) {
                    Some(k) => {
                        assert(s.find_next().cursor == at(row, k));
                    },
                    None => {
                        assert(s.next_search_none());
                        lemma_next_search_none(s);
                        assert(s.find_next() == s.not_found());
                    },
                },
            },
        },
    }
}

/// A search backward either reports that the text is not found, leaving all
/// else as it was, or puts the cursor on an occurrence of it. When it is not
/// found, the only occurrences in the buffer are ones that start at or before
/// the cursor and reach past it.
pub proof fn law_find_prev_lands_on_match(s: EditorView)
    requires
        s.wf(),
        s.fits_machine(),
        s.last_search.len() > 0,
    ensures
        s.find_prev().lines == s.lines,
        s.find_prev() == s.not_found() || occurs_at(
            s.lines[s.find_prev().cursor.row as int],
            s.last_search,
            s.find_prev().cursor.col as int,
        ),
        s.find_prev() == s.not_found() ==> s.no_match_elsewhere(),
{
    let q = s.last_search;
    let row = s.cursor.row as int;
    let col = s.cursor.col as int;
    let line = s.lines[row];
    let n = s.lines.len() as int;
    lemma_last_match_bounds(line, q, 0, col);
    lemma_last_line_match_some(s.lines, q, 0, row);
    lemma_last_line_match_some(s.lines, q, row + 1, n);
    lemma_last_match_bounds(line, q, col + 1, line.len() as int);
    match last_match(line, q, 0, col) {
        Some(k) => {
            assert(s.find_prev().cursor == at(row, k));
        },
        None => match last_line_match(s.lines, q, 0, row) {
            Some((r, k)) => {
                assert(s.lines[r].len() < usize::MAX);
                assert(s.find_prev().cursor == at(r, k));
            },
            None => match last_line_match(s.lines, q, row + 1, n) {
                Some((r, k)) => {
                    assert(s.lines[r].len() < usize::MAX);
                    assert(s.find_prev().cursor == at(r, k));
                },
                None => match last_match(line, q, col + 1, line.len() as int) {
                    Some(k) => {
                        assert(s.find_prev().cursor == at(row, k));
                    },
                    None => {
                        assert(s.prev_search_none());
                        lemma_prev_search_none(s);
                        assert(s.find_prev() == s.not_found());
                    },
                },
            },
        },
    }
}

/// Keys typed at the command or search prompt never change the buffer; at
/// the command prompt they do not move the cursor either.
pub proof fn law_prompts_keep_buffer(s: EditorView, ev: KeyEvent)
    requires
        s.wf(),
    ensures
        s.mode == Mode::Command ==> s.key(ev).0.lines == s.lines && s.key(ev).0.cursor == s.cursor,
        s.mode == Mode::Search ==> s.key(ev).0.lines == s.lines,
{
}

/// After scrolling to a window of `rows` text rows, the cursor row is in the
/// window.
pub proof fn law_scroll_shows_cursor(s: EditorView, rows: int)
    requires
        rows > 0,
        s.cursor.row >= s.row_offset + rows ==> s.cursor.row - rows + 1 <= usize::MAX,
    ensures
        s.scrolled_offset(rows) <= s.cursor.row < s.scrolled_offset(rows) + rows,
{
}

/// The status line fills the terminal's width exactly, when the status
/// message fits in it.
pub proof fn law_status_bar_width(s: EditorView, cols: int, name: Seq<char>)
    requires
        0 <= s.status.len() <= cols,
    ensures
        s.status_bar(cols, name).len() == cols,
{
    let right = s.status;
    let left_max = if cols >= right.len() + 1 { cols - (right.len() + 1) } else { 0 };
    let left = prefix(s.status_left(name), left_max);
    let padding = cols - left.len() - right.len();
    assert(spaces(padding as nat).len() == padding);
    assert((left + spaces(padding as nat) + right).len() == cols);
}

/// Characters with no line break among them.
pub open spec fn no_newline(s: Seq<char>) -> bool {
    forall|i: int| 0 <= i < s.len() ==> s[i] != '\n'
}

/// Splitting after text with no line break only extends the unfinished line.
proof fn lemma_scan_no_newline(t: Seq<char>, s: Seq<char>)
    requires
        no_newline(s),
    ensures
        scan_lines(t + s) == (scan_lines(t).0, scan_lines(t).1 + s),
    decreases s.len(),
{
    if s.len() == 0 {
        assert(t + s =~= t);
        assert(scan_lines(t).1 + s =~= scan_lines(t).1);
    } else {
        lemma_scan_no_newline(t, s.drop_last());
        assert((t + s).drop_last() =~= t + s.drop_last());
        assert((t + s).last() == s.last());
        assert(s.last() != '\n');
        assert(scan_lines(t).1 + s =~= (scan_lines(t).1 + s.drop_last()).push(s.last()));
    }
}

/// Splitting the joined lines gives back all but the last line as finished
/// lines, and the last one as the unfinished line.
proof fn lemma_scan_join(lines: Seq<Seq<char>>)
    requires
        lines.len() > 0,
        forall|i: int| 0 <= i < lines.len() ==> no_newline(#[trigger] lines[i]),
        forall|i: int| 0 <= i < lines.len() ==> strip_cr(#[trigger] lines[i]) == lines[i],
    ensures
        scan_lines(join_lines(lines)) == (lines.drop_last(), lines.last()),
    decreases lines.len(),
{
    if lines.len() == 1 {
        lemma_scan_no_newline(Seq::empty(), lines[0]);
        assert(Seq::<char>::empty() + lines[0] =~= lines[0]);
        assert(scan_lines(Seq::<char>::empty()).1 + lines[0] =~= lines[0]);
        assert(lines.drop_last() =~= Seq::<Seq<char>>::empty());
    } else {
        let init = lines.drop_last();
        assert forall|i: int| 0 <= i < init.len() implies no_newline(#[trigger] init[i]) by {
            assert(init[i] == lines[i]);
        }
        assert forall|i: int| 0 <= i < init.len() implies strip_cr(#[trigger] init[i]) == init[i] by {
            assert(init[i] == lines[i]);
        }
        lemma_scan_join(init);
        let j = join_lines(init).push('\n');
        assert(j.drop_last() =~= join_lines(init));
        assert(strip_cr(init.last()) == init.last()) by {
            assert(init.last() == init[init.len() - 1]);
        }
        assert(init.drop_last().push(init.last()) =~= init);
        assert(scan_lines(j) == (init, Seq::<char>::empty()));
        assert(no_newline(lines.last())) by {
            assert(lines.last() == lines[lines.len() - 1]);
        }
        lemma_scan_no_newline(j, lines.last());
        assert(Seq::<char>::empty() + lines.last() =~= lines.last());
    }
}

/// Writing the buffer out and reading it back gives the same lines, when no
/// line holds a line break, none ends in a carriage return, and the last line
/// is not empty.
pub proof fn law_save_then_open(lines: Seq<Seq<char>>)
    requires
        lines.len() > 0,
        forall|i: int| 0 <= i < lines.len() ==> no_newline(#[trigger] lines[i]),
        forall|i: int| 0 <= i < lines.len() ==> strip_cr(#[trigger] lines[i]) == lines[i],
        lines.last().len() > 0,
    ensures
        text_lines(join_lines(lines)) == lines,
{
    lemma_scan_join(lines);
    assert(lines.drop_last().push(lines.last()) =~= lines);
}

} // verus!

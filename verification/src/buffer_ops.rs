//! Edits of the buffer: inserting and deleting characters, lines and ranges.
use vstd::prelude::*;
use crate::editor::{Editor, EditorView, Mode, Position};
use crate::motion::pos_le;
use crate::strings::{string_insert, string_remove, string_remove_range, string_split_off};
use crate::text::{byte_pos, char_count, char_to_byte, lemma_byte_pos_monotone};

verus! {

impl EditorView {
    /// `c` typed at the cursor, which moves past it.
    pub open spec fn insert_char(self, c: char) -> EditorView {
        let row = self.cursor.row as int;
        let col = self.cursor.col as int;
        let line = self.cur_line();
        EditorView {
            lines: self.lines.update(row, line.take(col).push(c) + line.skip(col)),
            cursor: Position { row: self.cursor.row, col: (col + 1) as usize },
            ..self
        }
    }

    /// Backspace: removes the character before the cursor; at the start of a
    /// line, joins the line to the one above, the cursor going to the join.
    pub open spec fn delete_char_before(self) -> EditorView {
        let row = self.cursor.row as int;
        let col = self.cursor.col as int;
        let line = self.cur_line();
        if col > 0 {
            EditorView {
                lines: self.lines.update(row, line.remove(col - 1)),
                cursor: Position { row: self.cursor.row, col: (col - 1) as usize },
                ..self
            }
        } else if row > 0 {
            let prev = self.lines[row - 1];
            EditorView {
                lines: self.lines.remove(row).update(row - 1, prev + line),
                cursor: Position { row: (row - 1) as usize, col: prev.len() as usize },
                ..self
            }
        } else {
            self
        }
    }

    /// Removes the character under the cursor, recorded for undo; the cursor
    /// stays on the line's last character when it was past it.
    pub open spec fn delete_char_at(self) -> EditorView {
        let row = self.cursor.row as int;
        let col = self.cursor.col as int;
        let line = self.cur_line();
        if col >= line.len() {
            self
        } else {
            let s = self.push_undo();
            let new_len = line.len() - 1;
            let new_col = if col >= new_len && new_len > 0 {
                new_len - 1
            } else if new_len == 0 {
                0
            } else {
                col
            };
            EditorView {
                lines: s.lines.update(row, line.remove(col)),
                cursor: Position { row: self.cursor.row, col: new_col as usize },
                ..s
            }
        }
    }

    /// Removes the cursor's line, recorded for undo (the only line is emptied
    /// instead); the cursor stays on a line and within it.
    pub open spec fn delete_line(self) -> EditorView {
        let s = self.push_undo();
        let row = self.cursor.row;
        let lines = if self.lines.len() == 1 {
            seq![Seq::<char>::empty()]
        } else {
            self.lines.remove(row as int)
        };
        let new_row = if self.lines.len() != 1 && row >= lines.len() {
            (lines.len() - 1) as usize
        } else {
            row
        };
        let len = lines[new_row as int].len();
        let new_col = if self.cursor.col > len { len as usize } else { self.cursor.col };
        EditorView { lines, cursor: Position { row: new_row, col: new_col }, ..s }
    }

    /// Removes the columns between `start` and `end` of their line (when they
    /// are on one line), recorded for undo; the cursor moves to the smaller
    /// column.
    pub open spec fn delete_range(self, start: Position, end: Position) -> EditorView {
        if start.row != end.row {
            self
        } else {
            let lo = if start.col <= end.col { start.col } else { end.col };
            let hi = if start.col <= end.col { end.col } else { start.col };
            let s = self.push_undo();
            let line = self.lines[start.row as int];
            let lo_c = if lo <= line.len() { lo as int } else { line.len() as int };
            let hi_c = if hi <= line.len() { hi as int } else { line.len() as int };
            EditorView {
                lines: s.lines.update(start.row as int, line.take(lo_c) + line.skip(hi_c)),
                cursor: Position { row: self.cursor.row, col: lo },
                ..s
            }
        }
    }

    /// Enter: splits the line at the cursor, which moves to the start of the
    /// new line.
    pub open spec fn insert_newline(self) -> EditorView {
        let row = self.cursor.row as int;
        let col = self.cursor.col as int;
        let line = self.cur_line();
        EditorView {
            lines: self.lines.update(row, line.take(col)).insert(row + 1, line.skip(col)),
            cursor: Position { row: (row + 1) as usize, col: 0 },
            ..self
        }
    }

    /// Opens an empty line below the cursor's and starts inserting there,
    /// recorded for undo.
    pub open spec fn open_line_below(self) -> EditorView {
        let s = self.push_undo();
        EditorView {
            lines: self.lines.insert(self.cursor.row + 1, Seq::empty()),
            cursor: Position { row: (self.cursor.row + 1) as usize, col: 0 },
            mode: Mode::Insert,
            ..s
        }
    }

    /// Opens an empty line above the cursor's and starts inserting there,
    /// recorded for undo.
    pub open spec fn open_line_above(self) -> EditorView {
        let s = self.push_undo();
        EditorView {
            lines: self.lines.insert(self.cursor.row as int, Seq::empty()),
            cursor: Position { row: self.cursor.row, col: 0 },
            mode: Mode::Insert,
            ..s
        }
    }

    /// The selection between the anchor and the cursor, the earlier end first.
    pub open spec fn selection(self) -> Option<(Position, Position)> {
        match self.anchor {
            None => None,
            Some(a) => if pos_le(a, self.cursor) {
                Some((a, self.cursor))
            } else {
                Some((self.cursor, a))
            },
        }
    }

    /// Deletes the selection (as `delete_range` does) and leaves visual mode.
    pub open spec fn delete_selection(self) -> EditorView {
        let s = match self.selection() {
            Some((start, end)) => self.delete_range(start, end),
            None => self,
        };
        EditorView { anchor: None, mode: Mode::Normal, ..s }
    }
}

/// `k` is a column of `line` whose byte position is `b`.
proof fn lemma_char_pos_witness(line: Seq<char>, k: int, b: int)
    requires
        0 <= k <= line.len(),
        byte_pos(line, k) == b,
    ensures
        crate::text::is_char_pos(line, b),
{
}

impl Editor {
    /// Types `c` at the cursor, which moves past it.
    pub fn insert_char(&mut self, c: char)
        requires
            old(self)@.wf(),
        ensures
            final(self)@ == old(self)@.insert_char(c),
            final(self)@.wf(),
    {
        let row = self.cursor.row;
        let col = self.cursor.col;
        let mut line = self.buffer[row].clone();
        let len = char_count(line.as_str());
        let byte_idx = char_to_byte(line.as_str(), col);
        proof {
            lemma_char_pos_witness(line@, col as int, byte_idx as int);
        }
        string_insert(&mut line, byte_idx, c);
        assert(byte_pos(old(self)@.lines[row as int], col as int) == byte_idx);
        self.buffer.set(row, line);
        self.cursor.col = col + 1;
        assert(self@.lines =~= old(self)@.insert_char(c).lines);
        assert(self@ =~= old(self)@.insert_char(c));
        self.assert_invariants();
    }

    /// Backspace: removes the character before the cursor, or joins the line
    /// to the one above when the cursor is at its start.
    pub fn delete_char_before(&mut self)
        requires
            old(self)@.wf(),
        ensures
            final(self)@ == old(self)@.delete_char_before(),
            final(self)@.wf(),
    {
        let row = self.cursor.row;
        let col = self.cursor.col;
        if col > 0 {
            let mut line = self.buffer[row].clone();
            let byte_idx = char_to_byte(line.as_str(), col - 1);
            assert(byte_pos(line@, col - 1) == byte_idx);
            let _ = string_remove(&mut line, byte_idx);
            self.buffer.set(row, line);
            self.cursor.col = col - 1;
            assert(self@.lines =~= old(self)@.delete_char_before().lines);
        } else if row > 0 {
            let current = self.buffer.remove(row);
            let prev_len = char_count(self.buffer[row - 1].as_str());
            let mut prev = self.buffer[row - 1].clone();
            prev.append(current.as_str());
            self.buffer.set(row - 1, prev);
            self.cursor.row = row - 1;
            self.cursor.col = prev_len;
            assert(self@.lines =~= old(self)@.delete_char_before().lines);
        }
        assert(self@ =~= old(self)@.delete_char_before());
        self.assert_invariants();
    }

    /// Removes the character under the cursor, recorded for undo; does
    /// nothing when the cursor is past the line's end.
    pub fn delete_char_at(&mut self)
        requires
            old(self)@.wf(),
        ensures
            final(self)@ == old(self)@.delete_char_at(),
            final(self)@.wf(),
    {
        let row = self.cursor.row;
        let col = self.cursor.col;
        let line_len = char_count(self.buffer[row].as_str());
        if col >= line_len {
            return;
        }
        self.push_undo();
        let mut line = self.buffer[row].clone();
        let byte_idx = char_to_byte(line.as_str(), col);
        assert(byte_pos(line@, col as int) == byte_idx);
        let _ = string_remove(&mut line, byte_idx);
        let new_len = char_count(line.as_str());
        self.buffer.set(row, line);
        if col >= new_len && new_len > 0 {
            self.cursor.col = new_len - 1;
        } else if new_len == 0 {
            self.cursor.col = 0;
        }
        assert(self@.lines =~= old(self)@.delete_char_at().lines);
        assert(self@ =~= old(self)@.delete_char_at());
        self.assert_invariants();
    }

    /// Removes the cursor's line (empties it when it is the only one),
    /// recorded for undo.
    pub fn delete_line(&mut self)
        requires
            old(self)@.wf(),
        ensures
            final(self)@ == old(self)@.delete_line(),
            final(self)@.wf(),
    {
        self.push_undo();
        if self.buffer.len() == 1 {
            self.buffer.set(0, String::new());
            assert(self@.lines =~= old(self)@.delete_line().lines);
        } else {
            let _ = self.buffer.remove(self.cursor.row);
            if self.cursor.row >= self.buffer.len() {
                self.cursor.row = self.buffer.len() - 1;
            }
            assert(self@.lines =~= old(self)@.delete_line().lines);
        }
        let line_len = char_count(self.buffer[self.cursor.row].as_str());
        if self.cursor.col > line_len {
            self.cursor.col = line_len;
        }
        assert(self@ =~= old(self)@.delete_line());
        self.assert_invariants();
    }

    /// Removes the columns between `start` and `end` when they are on one
    /// line, recorded for undo, and puts the cursor on the smaller column.
    pub fn delete_range(&mut self, start: Position, end: Position)
        requires
            old(self)@.wf(),
            start.row == end.row ==> start.row < old(self)@.lines.len() && (if start.col
                <= end.col { start.col } else { end.col }) <= old(self)@.cur_line().len(),
        ensures
            final(self)@ == old(self)@.delete_range(start, end),
            final(self)@.wf(),
    {
        if start.row != end.row {
            return;
        }
        let (lo, hi) = if start.col <= end.col {
            (start.col, end.col)
        } else {
            (end.col, start.col)
        };
        self.push_undo();
        let mut line = self.buffer[start.row].clone();
        let ghost s = line@;
        let lo_byte = char_to_byte(line.as_str(), lo);
        let hi_byte = char_to_byte(line.as_str(), hi);
        let ghost lo_c = if lo <= s.len() { lo as int } else { s.len() as int };
        let ghost hi_c = if hi <= s.len() { hi as int } else { s.len() as int };
        proof {
            assert(s.take(s.len() as int) =~= s);
            assert(byte_pos(s, lo_c) == lo_byte);
            assert(byte_pos(s, hi_c) == hi_byte);
            lemma_byte_pos_monotone(s, lo_c, hi_c);
            lemma_char_pos_witness(s, lo_c, lo_byte as int);
            lemma_char_pos_witness(s, hi_c, hi_byte as int);
        }
        string_remove_range(&mut line, lo_byte, hi_byte);
        self.buffer.set(start.row, line);
        self.cursor.col = lo;
        assert(self@.lines =~= old(self)@.delete_range(start, end).lines);
        assert(self@ =~= old(self)@.delete_range(start, end));
        self.assert_invariants();
    }

    /// Enter: splits the line at the cursor, which moves to the start of the
    /// new line below.
    pub fn insert_newline(&mut self)
        requires
            old(self)@.wf(),
        ensures
            final(self)@ == old(self)@.insert_newline(),
            final(self)@.wf(),
    {
        let row = self.cursor.row;
        let col = self.cursor.col;
        let mut line = self.buffer[row].clone();
        let byte_idx = char_to_byte(line.as_str(), col);
        proof {
            lemma_char_pos_witness(line@, col as int, byte_idx as int);
        }
        assert(byte_pos(line@, col as int) == byte_idx);
        let tail = string_split_off(&mut line, byte_idx);
        let n = self.buffer.len();
        assert(row < n);
        self.buffer.set(row, line);
        self.buffer.insert(row + 1, tail);
        self.cursor.row = row + 1;
        self.cursor.col = 0;
        assert(self@.lines =~= old(self)@.insert_newline().lines);
        assert(self@ =~= old(self)@.insert_newline());
        self.assert_invariants();
    }

    /// Opens an empty line below the cursor's, recorded for undo, and enters
    /// insert mode on it.
    pub fn open_line_below(&mut self)
        requires
            old(self)@.wf(),
        ensures
            final(self)@ == old(self)@.open_line_below(),
            final(self)@.wf(),
    {
        self.push_undo();
        let n = self.buffer.len();
        assert(self.cursor.row < n);
        self.buffer.insert(self.cursor.row + 1, String::new());
        self.cursor.row = self.cursor.row + 1;
        self.cursor.col = 0;
        self.mode = Mode::Insert;
        assert(self@.lines =~= old(self)@.open_line_below().lines);
        assert(self@ =~= old(self)@.open_line_below());
        self.assert_invariants();
    }

    /// Opens an empty line above the cursor's, recorded for undo, and enters
    /// insert mode on it.
    pub fn open_line_above(&mut self)
        requires
            old(self)@.wf(),
        ensures
            final(self)@ == old(self)@.open_line_above(),
            final(self)@.wf(),
    {
        self.push_undo();
        self.buffer.insert(self.cursor.row, String::new());
        self.cursor.col = 0;
        self.mode = Mode::Insert;
        assert(self@.lines =~= old(self)@.open_line_above().lines);
        assert(self@ =~= old(self)@.open_line_above());
        self.assert_invariants();
    }

    /// The selection between the anchor and the cursor, earlier end first;
    /// `None` without an anchor.
    pub fn selection_range(&self) -> (r: Option<(Position, Position)>)
        ensures
            r == self@.selection(),
    {
        let anchor = match self.selection_anchor {
            Some(a) => a,
            None => return None,
        };
        let cursor = self.cursor;
        let (start, end) = if anchor.row < cursor.row || (anchor.row == cursor.row && anchor.col
            <= cursor.col) {
            (anchor, cursor)
        } else {
            (cursor, anchor)
        };
        Some((start, end))
    }

    /// Deletes the selection when it lies on one line, and leaves visual mode.
    pub fn delete_selection(&mut self)
        requires
            old(self)@.wf(),
        ensures
            final(self)@ == old(self)@.delete_selection(),
            final(self)@.wf(),
    {
        if let Some((start, end)) = self.selection_range() {
            self.delete_range(start, end);
        }
        self.selection_anchor = None;
        self.mode = Mode::Normal;
        assert(self@ =~= old(self)@.delete_selection());
    }
}

} // verus!

//! Cursor motions: by character and line, and by word.
use vstd::prelude::*;
use crate::editor::{Direction, Editor, EditorView, Position, valid_pos, buffer_wf};
use crate::text::{char_count, chars_of};

verus! {

/// Whether `c` has the Unicode `White_Space` property, which is what
/// `char::is_whitespace` tests.
pub open spec fn is_whitespace(c: char) -> bool {
    let v = c as u32;
    ||| 0x09 <= v <= 0x0D
    ||| v == 0x20
    ||| v == 0x85
    ||| v == 0xA0
    ||| v == 0x1680
    ||| 0x2000 <= v <= 0x200A
    ||| v == 0x2028
    ||| v == 0x2029
    ||| v == 0x202F
    ||| v == 0x205F
    ||| v == 0x3000
}

/// `p` comes before `q` in the text: on an earlier line, or earlier on the
/// same line.
pub open spec fn pos_lt(p: Position, q: Position) -> bool {
    p.row < q.row || (p.row == q.row && p.col < q.col)
}

pub open spec fn pos_le(p: Position, q: Position) -> bool {
    pos_lt(p, q) || p == q
}

/// At `p` there is no character, or a whitespace character.
pub open spec fn ws_at(lines: Seq<Seq<char>>, p: Position) -> bool {
    p.col >= lines[p.row as int].len() || is_whitespace(lines[p.row as int][p.col as int])
}

/// `p` is the very end of the text: the end of the last line.
pub open spec fn end_at(lines: Seq<Seq<char>>, p: Position) -> bool {
    p.row + 1 == lines.len() && p.col >= lines[p.row as int].len()
}

/// `p` is the very start of the text.
pub open spec fn start_at(p: Position) -> bool {
    p.row == 0 && p.col == 0
}

/// `r` is where a word motion forward from `from` stops: past the rest of
/// the word under `from` (the characters up to the first whitespace or end
/// of line, `a`), then past the whitespace and line ends after it, on the
/// next character that is not whitespace, or at the end of the text.
pub open spec fn is_word_forward(lines: Seq<Seq<char>>, from: Position, r: Position) -> bool {
    &&& valid_pos(lines, r)
    &&& !ws_at(lines, r) || end_at(lines, r)
    &&& exists|a: Position|
        {
            &&& #[trigger] valid_pos(lines, a)
            &&& pos_le(from, a) && pos_le(a, r)
            &&& ws_at(lines, a) || end_at(lines, a)
            &&& forall|q: Position|
                valid_pos(lines, q) && pos_le(from, q) && pos_lt(q, a) ==> !ws_at(lines, q)
            &&& forall|q: Position|
                valid_pos(lines, q) && pos_le(a, q) && pos_lt(q, r) ==> ws_at(lines, q)
        }
}

/// `r` is where a word motion backward from `from` stops: back over the
/// characters that are not whitespace up to `from` (to the first whitespace,
/// line end, or the start, `a`), then back over whitespace and line ends, on
/// the first character that is not whitespace, or at the start of the text.
pub open spec fn is_word_backward(lines: Seq<Seq<char>>, from: Position, r: Position) -> bool {
    &&& valid_pos(lines, r)
    &&& !ws_at(lines, r) || start_at(r)
    &&& exists|a: Position|
        {
            &&& #[trigger] valid_pos(lines, a)
            &&& pos_le(r, a) && pos_le(a, from)
            &&& ws_at(lines, a) || start_at(a)
            &&& forall|q: Position|
                valid_pos(lines, q) && pos_lt(a, q) && pos_le(q, from) ==> !ws_at(lines, q)
            &&& forall|q: Position|
                valid_pos(lines, q) && pos_lt(r, q) && pos_le(q, a) ==> ws_at(lines, q)
        }
}

/// The place just after `p` in the text: the next column, or the start of
/// the next line; the end of the text stays where it is.
pub open spec fn next_pos(lines: Seq<Seq<char>>, p: Position) -> Position {
    if p.col + 1 <= lines[p.row as int].len() {
        Position { row: p.row, col: (p.col + 1) as usize }
    } else if p.row + 1 < lines.len() {
        Position { row: (p.row + 1) as usize, col: 0 }
    } else {
        p
    }
}

/// The place just before `p` in the text: the previous column, or the end of
/// the previous line; the start of the text stays where it is.
pub open spec fn prev_pos(lines: Seq<Seq<char>>, p: Position) -> Position {
    if p.col > 0 {
        Position { row: p.row, col: (p.col - 1) as usize }
    } else if p.row > 0 {
        Position { row: (p.row - 1) as usize, col: lines[p.row - 1].len() as usize }
    } else {
        p
    }
}

/// A step back after a step forward returns to the same place, anywhere but
/// at the end of the text; and a step forward after a step back does too,
/// anywhere but at its start. (The counts must fit the machine: the number of
/// lines, the column, and the length of the line above.)
pub proof fn law_steps_invert(lines: Seq<Seq<char>>, p: Position)
    requires
        valid_pos(lines, p),
        lines.len() <= usize::MAX,
        p.col < usize::MAX,
        p.row > 0 ==> lines[p.row - 1].len() < usize::MAX,
    ensures
        !end_at(lines, p) ==> prev_pos(lines, next_pos(lines, p)) == p,
        !start_at(p) ==> next_pos(lines, prev_pos(lines, p)) == p,
{
}

/// The position a word motion forward from `from` reaches.
pub open spec fn word_forward_target(lines: Seq<Seq<char>>, from: Position) -> Position {
    choose|r: Position| is_word_forward(lines, from, r)
}

/// The position a word motion backward from `from` reaches.
pub open spec fn word_backward_target(lines: Seq<Seq<char>>, from: Position) -> Position {
    choose|r: Position| is_word_backward(lines, from, r)
}

/// The end of the text is the last valid position.
proof fn lemma_end_is_last(lines: Seq<Seq<char>>, p: Position, q: Position)
    requires
        valid_pos(lines, p),
        valid_pos(lines, q),
        end_at(lines, p),
    ensures
        !pos_lt(p, q),
{
}

/// A word motion forward has one stopping place.
pub proof fn lemma_word_forward_unique(lines: Seq<Seq<char>>, from: Position, r1: Position, r2: Position)
    requires
        is_word_forward(lines, from, r1),
        is_word_forward(lines, from, r2),
    ensures
        r1 == r2,
{
    let a1 = choose|a: Position|
        {
            &&& #[trigger] valid_pos(lines, a)
            &&& pos_le(from, a) && pos_le(a, r1)
            &&& ws_at(lines, a) || end_at(lines, a)
            &&& forall|q: Position|
                valid_pos(lines, q) && pos_le(from, q) && pos_lt(q, a) ==> !ws_at(lines, q)
            &&& forall|q: Position|
                valid_pos(lines, q) && pos_le(a, q) && pos_lt(q, r1) ==> ws_at(lines, q)
        };
    let a2 = choose|a: Position|
        {
            &&& #[trigger] valid_pos(lines, a)
            &&& pos_le(from, a) && pos_le(a, r2)
            &&& ws_at(lines, a) || end_at(lines, a)
            &&& forall|q: Position|
                valid_pos(lines, q) && pos_le(from, q) && pos_lt(q, a) ==> !ws_at(lines, q)
            &&& forall|q: Position|
                valid_pos(lines, q) && pos_le(a, q) && pos_lt(q, r2) ==> ws_at(lines, q)
        };
    if pos_lt(a1, a2) {
        if end_at(lines, a1) {
            lemma_end_is_last(lines, a1, a2);
        }
    } else if pos_lt(a2, a1) {
        if end_at(lines, a2) {
            lemma_end_is_last(lines, a2, a1);
        }
    }
    assert(a1 == a2);
    if pos_lt(r1, r2) {
        if end_at(lines, r1) {
            lemma_end_is_last(lines, r1, r2);
        }
    } else if pos_lt(r2, r1) {
        if end_at(lines, r2) {
            lemma_end_is_last(lines, r2, r1);
        }
    }
}

/// A word motion backward has one stopping place.
pub proof fn lemma_word_backward_unique(lines: Seq<Seq<char>>, from: Position, r1: Position, r2: Position)
    requires
        is_word_backward(lines, from, r1),
        is_word_backward(lines, from, r2),
    ensures
        r1 == r2,
{
    let a1 = choose|a: Position|
        {
            &&& #[trigger] valid_pos(lines, a)
            &&& pos_le(r1, a) && pos_le(a, from)
            &&& ws_at(lines, a) || start_at(a)
            &&& forall|q: Position|
                valid_pos(lines, q) && pos_lt(a, q) && pos_le(q, from) ==> !ws_at(lines, q)
            &&& forall|q: Position|
                valid_pos(lines, q) && pos_lt(r1, q) && pos_le(q, a) ==> ws_at(lines, q)
        };
    let a2 = choose|a: Position|
        {
            &&& #[trigger] valid_pos(lines, a)
            &&& pos_le(r2, a) && pos_le(a, from)
            &&& ws_at(lines, a) || start_at(a)
            &&& forall|q: Position|
                valid_pos(lines, q) && pos_lt(a, q) && pos_le(q, from) ==> !ws_at(lines, q)
            &&& forall|q: Position|
                valid_pos(lines, q) && pos_lt(r2, q) && pos_le(q, a) ==> ws_at(lines, q)
        };
    assert(a1 == a2);
}

impl EditorView {
    /// The cursor after a motion by one character or line; the column is then
    /// kept within the line the cursor lands on.
    pub open spec fn move_cursor(self, dir: Direction) -> EditorView {
        let c = self.cursor;
        let p = match dir {
            Direction::Up => Position { row: if c.row > 0 { (c.row - 1) as usize } else { 0 }, col: c.col },
            Direction::Down => if c.row + 1 < self.lines.len() {
                Position { row: (c.row + 1) as usize, col: c.col }
            } else {
                c
            },
            Direction::Left => Position { row: c.row, col: if c.col > 0 { (c.col - 1) as usize } else { 0 } },
            Direction::Right => if c.col < self.lines[c.row as int].len() {
                Position { row: c.row, col: (c.col + 1) as usize }
            } else {
                c
            },
        };
        let len = self.lines[p.row as int].len();
        self.with_cursor(
            if p.col > len { Position { row: p.row, col: len as usize } } else { p },
        )
    }

    pub open spec fn move_word_forward(self) -> EditorView {
        self.with_cursor(word_forward_target(self.lines, self.cursor))
    }

    pub open spec fn move_word_backward(self) -> EditorView {
        self.with_cursor(word_backward_target(self.lines, self.cursor))
    }
}

/// `char::is_whitespace`, as the `White_Space` list of the Unicode
/// character database gives it.
pub fn char_is_whitespace(c: char) -> (r: bool)
    ensures
        r == is_whitespace(c),
{
    let v = c as u32;
    (0x09 <= v && v <= 0x0D) || v == 0x20 || v == 0x85 || v == 0xA0 || v == 0x1680 || (0x2000
        <= v && v <= 0x200A) || v == 0x2028 || v == 0x2029 || v == 0x202F || v == 0x205F || v
        == 0x3000
}

impl Editor {
    /// Number of characters in line `row`; a line is never longer than
    /// `isize::MAX` characters.
    pub fn line_len(&self, row: usize) -> (n: usize)
        requires
            row < self@.lines.len(),
        ensures
            n == self@.lines[row as int].len(),
            n <= isize::MAX,
    {
        char_count(self.buffer[row].as_str())
    }

    /// Moves the cursor by one character or line, keeping it within the line.
    pub fn move_cursor(&mut self, dir: Direction)
        requires
            old(self)@.wf(),
        ensures
            final(self)@ == old(self)@.move_cursor(dir),
            final(self)@.wf(),
    {
        let row = self.cursor.row;
        match dir {
            Direction::Up => self.cursor.row = row.saturating_sub(1),
            Direction::Down => {
                let n = self.buffer.len();
                if row + 1 < n {
                    self.cursor.row = row + 1;
                }
            },
            Direction::Left => self.cursor.col = self.cursor.col.saturating_sub(1),
            Direction::Right => {
                let line_len = self.line_len(self.cursor.row);
                if self.cursor.col < line_len {
                    self.cursor.col = self.cursor.col + 1;
                }
            },
        }
        let line_len = self.line_len(self.cursor.row);
        if self.cursor.col > line_len {
            self.cursor.col = line_len;
        }
        assert(self@ =~= old(self)@.move_cursor(dir));
        self.assert_invariants();
    }

    /// The place just after `(row, col)` in the text: the next column, or the
    /// start of the next line; the end of the text stays where it is.
    pub fn next_char_pos(&self, row: usize, col: usize) -> (r: (usize, usize))
        requires
            valid_pos(self@.lines, Position { row, col }),
        ensures
            (Position { row: r.0, col: r.1 }) == next_pos(self@.lines, Position { row, col }),
            end_at(self@.lines, Position { row, col }) ==> r == (row, col),
            !end_at(self@.lines, Position { row, col }) ==> {
                let p = Position { row, col };
                let n = Position { row: r.0, col: r.1 };
                &&& valid_pos(self@.lines, n)
                &&& pos_lt(p, n)
                &&& forall|q: Position| valid_pos(self@.lines, q) && pos_lt(p, q) ==> pos_le(n, q)
            },
    {
        let line_len = self.line_len(row);
        let n = self.buffer.len();
        if col + 1 <= line_len {
            (row, col + 1)
        } else if row + 1 < n {
            (row + 1, 0)
        } else {
            (row, col)
        }
    }

    /// The place just before `(row, col)` in the text: the previous column, or
    /// the end of the previous line; the start of the text stays where it is.
    pub fn prev_char_pos(&self, row: usize, col: usize) -> (r: (usize, usize))
        requires
            valid_pos(self@.lines, Position { row, col }),
        ensures
            (Position { row: r.0, col: r.1 }) == prev_pos(self@.lines, Position { row, col }),
            start_at(Position { row, col }) ==> r == (row, col),
            !start_at(Position { row, col }) ==> {
                let p = Position { row, col };
                let n = Position { row: r.0, col: r.1 };
                &&& valid_pos(self@.lines, n)
                &&& pos_lt(n, p)
                &&& forall|q: Position| valid_pos(self@.lines, q) && pos_lt(q, p) ==> pos_le(q, n)
            },
    {
        if col > 0 {
            (row, col - 1)
        } else if row > 0 {
            let prev_line_len = self.line_len(row - 1);
            (row - 1, prev_line_len)
        } else {
            (row, col)
        }
    }

    /// There is no character at `(row, col)`, or a whitespace character.
    fn is_at_whitespace(&self, row: usize, col: usize) -> (r: bool)
        requires
            row < self@.lines.len(),
        ensures
            r == ws_at(self@.lines, Position { row, col }),
    {
        let chars = chars_of(self.buffer[row].as_str());
        if col >= chars.len() {
            return true;
        }
        char_is_whitespace(chars[col])
    }

    fn at_start(&self, row: usize, col: usize) -> (r: bool)
        ensures
            r == start_at(Position { row, col }),
    {
        row == 0 && col == 0
    }

    fn at_end(&self, row: usize, col: usize) -> (r: bool)
        requires
            row < self@.lines.len(),
        ensures
            r == end_at(self@.lines, Position { row, col }),
    {
        let n = self.buffer.len();
        row + 1 == n && col >= self.line_len(row)
    }

    /// Where a word motion forward from the cursor stops.
    pub fn word_forward_pos(&self) -> (r: Position)
        requires
            self@.wf(),
        ensures
            is_word_forward(self@.lines, self.cursor, r),
            r == word_forward_target(self@.lines, self.cursor),
            pos_le(self.cursor, r),
    {
        let ghost lines = self@.lines;
        let ghost from = self.cursor;
        let mut row = self.cursor.row;
        let mut col = self.cursor.col;
        while !self.is_at_whitespace(row, col) && !self.at_end(row, col)
            invariant
                lines == self@.lines,
                buffer_wf(lines, from),
                valid_pos(lines, Position { row, col }),
                pos_le(from, Position { row, col }),
                forall|q: Position|
                    valid_pos(lines, q) && pos_le(from, q) && pos_lt(q, Position { row, col })
                        ==> !ws_at(lines, q),
            decreases lines.len() - row, lines[row as int].len() - col,
        {
            let ghost p = Position { row, col };
            let (r, c) = self.next_char_pos(row, col);
            proof {
                let n = Position { row: r, col: c };
                assert forall|q: Position|
                    valid_pos(lines, q) && pos_le(from, q) && pos_lt(q, n) implies !ws_at(lines, q) by {
                    if pos_lt(p, q) {
                        assert(pos_le(n, q));
                    }
                }
            }
            row = r;
            col = c;
        }
        let ghost a = Position { row, col };
        while self.is_at_whitespace(row, col) && !self.at_end(row, col)
            invariant
                lines == self@.lines,
                buffer_wf(lines, from),
                valid_pos(lines, a),
                pos_le(from, a),
                ws_at(lines, a) || end_at(lines, a),
                forall|q: Position| valid_pos(lines, q) && pos_le(from, q) && pos_lt(q, a) ==> !ws_at(lines, q),
                valid_pos(lines, Position { row, col }),
                pos_le(a, Position { row, col }),
                forall|q: Position|
                    valid_pos(lines, q) && pos_le(a, q) && pos_lt(q, Position { row, col })
                        ==> ws_at(lines, q),
            decreases lines.len() - row, lines[row as int].len() - col,
        {
            let ghost p = Position { row, col };
            let (r, c) = self.next_char_pos(row, col);
            proof {
                let n = Position { row: r, col: c };
                assert forall|q: Position|
                    valid_pos(lines, q) && pos_le(a, q) && pos_lt(q, n) implies ws_at(lines, q) by {
                    if pos_lt(p, q) {
                        assert(pos_le(n, q));
                    }
                }
            }
            row = r;
            col = c;
        }
        let r = Position { row, col };
        assert(valid_pos(lines, a));
        assert(is_word_forward(lines, from, r));
        proof {
            let t = word_forward_target(lines, from);
            lemma_word_forward_unique(lines, from, r, t);
        }
        r
    }

    /// Where a word motion backward from the cursor stops.
    pub fn word_backward_pos(&self) -> (r: Position)
        requires
            self@.wf(),
        ensures
            is_word_backward(self@.lines, self.cursor, r),
            r == word_backward_target(self@.lines, self.cursor),
            pos_le(r, self.cursor),
    {
        let ghost lines = self@.lines;
        let ghost from = self.cursor;
        let mut row = self.cursor.row;
        let mut col = self.cursor.col;
        while !self.is_at_whitespace(row, col) && !self.at_start(row, col)
            invariant
                lines == self@.lines,
                buffer_wf(lines, from),
                valid_pos(lines, Position { row, col }),
                pos_le(Position { row, col }, from),
                forall|q: Position|
                    valid_pos(lines, q) && pos_lt(Position { row, col }, q) && pos_le(q, from)
                        ==> !ws_at(lines, q),
            decreases row, col,
        {
            let ghost p = Position { row, col };
            let (r, c) = self.prev_char_pos(row, col);
            proof {
                let n = Position { row: r, col: c };
                assert forall|q: Position|
                    valid_pos(lines, q) && pos_lt(n, q) && pos_le(q, from) implies !ws_at(lines, q) by {
                    if pos_lt(q, p) {
                        assert(pos_le(q, n));
                    }
                }
            }
            row = r;
            col = c;
        }
        let ghost a = Position { row, col };
        while self.is_at_whitespace(row, col) && !self.at_start(row, col)
            invariant
                lines == self@.lines,
                buffer_wf(lines, from),
                valid_pos(lines, a),
                pos_le(a, from),
                ws_at(lines, a) || start_at(a),
                forall|q: Position| valid_pos(lines, q) && pos_lt(a, q) && pos_le(q, from) ==> !ws_at(lines, q),
                valid_pos(lines, Position { row, col }),
                pos_le(Position { row, col }, a),
                forall|q: Position|
                    valid_pos(lines, q) && pos_lt(Position { row, col }, q) && pos_le(q, a)
                        ==> ws_at(lines, q),
            decreases row, col,
        {
            let ghost p = Position { row, col };
            let (r, c) = self.prev_char_pos(row, col);
            proof {
                let n = Position { row: r, col: c };
                assert forall|q: Position|
                    valid_pos(lines, q) && pos_lt(n, q) && pos_le(q, a) implies ws_at(lines, q) by {
                    if pos_lt(q, p) {
                        assert(pos_le(q, n));
                    }
                }
            }
            row = r;
            col = c;
        }
        let r = Position { row, col };
        assert(valid_pos(lines, a));
        assert(is_word_backward(lines, from, r));
        proof {
            let t = word_backward_target(lines, from);
            lemma_word_backward_unique(lines, from, r, t);
        }
        r
    }

    /// Moves the cursor to where a word motion forward stops.
    pub fn move_word_forward(&mut self)
        requires
            old(self)@.wf(),
        ensures
            final(self)@ == old(self)@.move_word_forward(),
            final(self)@.wf(),
    {
        let target = self.word_forward_pos();
        self.cursor = target;
        assert(self@ =~= old(self)@.move_word_forward());
        self.assert_invariants();
    }

    /// Moves the cursor to where a word motion backward stops.
    pub fn move_word_backward(&mut self)
        requires
            old(self)@.wf(),
        ensures
            final(self)@ == old(self)@.move_word_backward(),
            final(self)@.wf(),
    {
        let target = self.word_backward_pos();
        self.cursor = target;
        assert(self@ =~= old(self)@.move_word_backward());
        self.assert_invariants();
    }
}

} // verus!

//! Searching the buffer for the last search text, forward and backward, with
//! wrap-around at the ends of the buffer.
use vstd::prelude::*;
use crate::editor::{Editor, EditorView, Position};
use crate::text::{
    byte_offset_search,
    byte_to_char,
    chars_of,
    find_chars,
    first_match,
    last_match,
    lemma_byte_pos_injective,
    lemma_first_match_bounds,
    lemma_last_match_bounds,
    occurs_at,
    rfind_chars,
};

verus! {

/// The first line in `lo..hi` that holds `q`, with the column of the first
/// occurrence in it.
pub open spec fn first_line_match(lines: Seq<Seq<char>>, q: Seq<char>, lo: int, hi: int) -> Option<(int, int)>
    decreases hi - lo,
{
    if lo < 0 || lo >= hi || hi > lines.len() {
        None
    } else {
        match first_match(lines[lo], q, 0, lines[lo].len() as int) {
            Some(k) => Some((lo, k)),
            None => first_line_match(lines, q, lo + 1, hi),
        }
    }
}

/// The last line in `lo..hi` that holds `q`, with the column of the last
/// occurrence in it.
pub open spec fn last_line_match(lines: Seq<Seq<char>>, q: Seq<char>, lo: int, hi: int) -> Option<(int, int)>
    decreases hi - lo,
{
    if lo < 0 || lo >= hi || hi > lines.len() {
        None
    } else {
        match last_match(lines[hi - 1], q, 0, lines[hi - 1].len() as int) {
            Some(k) => Some((hi - 1, k)),
            None => last_line_match(lines, q, lo, hi - 1),
        }
    }
}

pub open spec fn at(row: int, col: int) -> Position {
    Position { row: row as usize, col: col as usize }
}

impl EditorView {
    /// The search failed: the status line names the text.
    pub open spec fn not_found(self) -> EditorView {
        self.with_status("not found: "@ + self.last_search)
    }

    /// The cursor moves to `p`, found after passing an end of the buffer.
    pub open spec fn found_wrapped(self, p: Position) -> EditorView {
        self.with_cursor(p).with_status("search wrapped"@)
    }

    /// Moves the cursor to the next occurrence of the last search text:
    /// later on the cursor's line, then on the lines below, then from the top
    /// of the buffer down to just before the cursor.
    pub open spec fn find_next(self) -> EditorView {
        let q = self.last_search;
        let row = self.cursor.row as int;
        let col = self.cursor.col as int;
        let line = self.lines[row];
        let n = self.lines.len() as int;
        if q.len() == 0 {
            self
        } else {
            let from = if col + 1 <= line.len() { col + 1 } else { line.len() as int };
            match first_match(line, q, from, line.len() as int) {
                Some(k) => self.with_cursor(at(row, k)),
                None => match first_line_match(self.lines, q, row + 1, n) {
                    Some((r, k)) => self.with_cursor(at(r, k)),
                    None => match first_line_match(self.lines, q, 0, row) {
                        Some((r, k)) => self.found_wrapped(at(r, k)),
                        None => match first_match(line, q, 0, col) {
                            Some(k) => self.found_wrapped(at(row, k)),
                            None => self.not_found(),
                        },
                    },
                },
            }
        }
    }

    /// Moves the cursor to the previous occurrence of the last search text:
    /// earlier on the cursor's line, then on the lines above, then from the
    /// bottom of the buffer up to just after the cursor.
    pub open spec fn find_prev(self) -> EditorView {
        let q = self.last_search;
        let row = self.cursor.row as int;
        let col = self.cursor.col as int;
        let line = self.lines[row];
        let n = self.lines.len() as int;
        if q.len() == 0 {
            self
        } else {
            match last_match(line, q, 0, col) {
                Some(k) => self.with_cursor(at(row, k)),
                None => match last_line_match(self.lines, q, 0, row) {
                    Some((r, k)) => self.with_cursor(at(r, k)),
                    None => match last_line_match(self.lines, q, row + 1, n) {
                        Some((r, k)) => self.found_wrapped(at(r, k)),
                        None => match last_match(line, q, col + 1, line.len() as int) {
                            Some(k) => self.found_wrapped(at(row, k)),
                            None => self.not_found(),
                        },
                    },
                },
            }
        }
    }
}

/// No line of `lo..hi` holds `q` when `first_line_match` finds none.
pub proof fn lemma_first_line_match_none(lines: Seq<Seq<char>>, q: Seq<char>, lo: int, hi: int)
    requires
        0 <= lo,
        hi <= lines.len(),
        first_line_match(lines, q, lo, hi) is None,
    ensures
        forall|r: int, k: int| lo <= r < hi ==> !#[trigger] occurs_at(lines[r], q, k),
    decreases hi - lo,
{
    if lo < hi {
        lemma_first_match_bounds(lines[lo], q, 0, lines[lo].len() as int);
        lemma_first_line_match_none(lines, q, lo + 1, hi);
    }
}

/// No line of `lo..hi` holds `q` when `last_line_match` finds none.
pub proof fn lemma_last_line_match_none(lines: Seq<Seq<char>>, q: Seq<char>, lo: int, hi: int)
    requires
        0 <= lo,
        hi <= lines.len(),
        last_line_match(lines, q, lo, hi) is None,
    ensures
        forall|r: int, k: int| lo <= r < hi ==> !#[trigger] occurs_at(lines[r], q, k),
    decreases hi - lo,
{
    if lo < hi {
        lemma_last_match_bounds(lines[hi - 1], q, 0, lines[hi - 1].len() as int);
        lemma_last_line_match_none(lines, q, lo, hi - 1);
    }
}

/// A line found by `first_line_match` is in range and holds `q` there.
pub proof fn lemma_first_line_match_some(lines: Seq<Seq<char>>, q: Seq<char>, lo: int, hi: int)
    ensures
        first_line_match(lines, q, lo, hi) matches Some((r, k)) ==> lo <= r < hi && 0 <= r
            < lines.len() && occurs_at(lines[r], q, k),
    decreases hi - lo,
{
    if !(lo < 0 || lo >= hi || hi > lines.len()) {
        lemma_first_match_bounds(lines[lo], q, 0, lines[lo].len() as int);
        lemma_first_line_match_some(lines, q, lo + 1, hi);
    }
}

/// A line found by `last_line_match` is in range and holds `q` there.
pub proof fn lemma_last_line_match_some(lines: Seq<Seq<char>>, q: Seq<char>, lo: int, hi: int)
    ensures
        last_line_match(lines, q, lo, hi) matches Some((r, k)) ==> lo <= r < hi && 0 <= r
            < lines.len() && occurs_at(lines[r], q, k),
    decreases hi - lo,
{
    if !(lo < 0 || lo >= hi || hi > lines.len()) {
        lemma_last_match_bounds(lines[hi - 1], q, 0, lines[hi - 1].len() as int);
        lemma_last_line_match_some(lines, q, lo, hi - 1);
    }
}

/// The line that `first_line_match` finds is the first line of the range
/// holding `q`, and the column is the first occurrence in it.
pub proof fn lemma_first_line_match_first(lines: Seq<Seq<char>>, q: Seq<char>, lo: int, hi: int)
    ensures
        first_line_match(lines, q, lo, hi) matches Some((r, k)) ==> {
            &&& forall|r2: int, j: int| lo <= r2 < r ==> !#[trigger] occurs_at(lines[r2], q, j)
            &&& forall|j: int| j < k ==> !#[trigger] occurs_at(lines[r], q, j)
        },
    decreases hi - lo,
{
    if !(lo < 0 || lo >= hi || hi > lines.len()) {
        lemma_first_match_bounds(lines[lo], q, 0, lines[lo].len() as int);
        lemma_first_line_match_first(lines, q, lo + 1, hi);
    }
}

/// The line that `last_line_match` finds is the last line of the range
/// holding `q`, and the column is the last occurrence in it.
pub proof fn lemma_last_line_match_last(lines: Seq<Seq<char>>, q: Seq<char>, lo: int, hi: int)
    ensures
        last_line_match(lines, q, lo, hi) matches Some((r, k)) ==> {
            &&& forall|r2: int, j: int| r < r2 < hi ==> !#[trigger] occurs_at(lines[r2], q, j)
            &&& forall|j: int| j > k ==> !#[trigger] occurs_at(lines[r], q, j)
        },
    decreases hi - lo,
{
    if !(lo < 0 || lo >= hi || hi > lines.len()) {
        lemma_last_match_bounds(lines[hi - 1], q, 0, lines[hi - 1].len() as int);
        lemma_last_line_match_last(lines, q, lo, hi - 1);
    }
}

impl EditorView {
    /// Every occurrence of the last search text in the buffer starts at or
    /// before the cursor and reaches past it.
    pub open spec fn no_match_elsewhere(self) -> bool {
        forall|r: int, k: int|
            0 <= r < self.lines.len() && #[trigger] occurs_at(self.lines[r], self.last_search, k)
                ==> r == self.cursor.row && k <= self.cursor.col < k + self.last_search.len()
    }

    /// Each window that a forward search looks at holds no occurrence.
    pub open spec fn next_search_none(self) -> bool {
        let q = self.last_search;
        let row = self.cursor.row as int;
        let col = self.cursor.col as int;
        let line = self.lines[row];
        let from = if col + 1 <= line.len() { col + 1 } else { line.len() as int };
        &&& first_match(line, q, from, line.len() as int) is None
        &&& first_line_match(self.lines, q, row + 1, self.lines.len() as int) is None
        &&& first_line_match(self.lines, q, 0, row) is None
        &&& first_match(line, q, 0, col) is None
    }

    /// Each window that a backward search looks at holds no occurrence.
    pub open spec fn prev_search_none(self) -> bool {
        let q = self.last_search;
        let row = self.cursor.row as int;
        let col = self.cursor.col as int;
        let line = self.lines[row];
        &&& last_match(line, q, 0, col) is None
        &&& last_line_match(self.lines, q, 0, row) is None
        &&& last_line_match(self.lines, q, row + 1, self.lines.len() as int) is None
        &&& last_match(line, q, col + 1, line.len() as int) is None
    }
}

/// When no window of a forward search holds the text, it occurs only over
/// the cursor.
pub proof fn lemma_next_search_none(s: EditorView)
    requires
        s.wf(),
        s.next_search_none(),
    ensures
        s.no_match_elsewhere(),
{
    let q = s.last_search;
    let row = s.cursor.row as int;
    let col = s.cursor.col as int;
    let line = s.lines[row];
    let n = s.lines.len() as int;
    let from = if col + 1 <= line.len() { col + 1 } else { line.len() as int };
    lemma_first_match_bounds(line, q, from, line.len() as int);
    lemma_first_match_bounds(line, q, 0, col);
    lemma_first_line_match_none(s.lines, q, row + 1, n);
    lemma_first_line_match_none(s.lines, q, 0, row);
    assert forall|r: int, k: int|
        0 <= r < s.lines.len() && #[trigger] occurs_at(s.lines[r], q, k) implies r == row && k
            <= col < k + q.len() by {
        if r == row {
            if k > col {
                assert(from <= k);
            }
        }
    }
}

/// When no window of a backward search holds the text, it occurs only over
/// the cursor.
pub proof fn lemma_prev_search_none(s: EditorView)
    requires
        s.wf(),
        s.prev_search_none(),
    ensures
        s.no_match_elsewhere(),
{
    let q = s.last_search;
    let row = s.cursor.row as int;
    let col = s.cursor.col as int;
    let line = s.lines[row];
    let n = s.lines.len() as int;
    lemma_last_match_bounds(line, q, 0, col);
    lemma_last_match_bounds(line, q, col + 1, line.len() as int);
    lemma_last_line_match_none(s.lines, q, 0, row);
    lemma_last_line_match_none(s.lines, q, row + 1, n);
}

impl Editor {
    /// Column of the first occurrence of `query` in line `row` at or after
    /// column `from`.
    fn find_in_line(&self, row: usize, query: &str, from: usize) -> (r: Option<usize>)
        requires
            row < self@.lines.len(),
        ensures
            match first_match(
                self@.lines[row as int],
                query@,
                if from <= self@.lines[row as int].len() { from as int } else { self@.lines[row as int].len() as int },
                self@.lines[row as int].len() as int,
            ) {
                Some(k) => r is Some && r->0 == k,
                None => r is None,
            },
    {
        let line = self.buffer[row].as_str();
        let ghost s = line@;
        let ghost start = if from <= s.len() { from as int } else { s.len() as int };
        match byte_offset_search(line, from, query) {
            Some(b) => {
                proof {
                    lemma_first_match_bounds(s, query@, start, s.len() as int);
                    let k = first_match(s, query@, start, s.len() as int)->0;
                    assert(crate::text::byte_pos(s, k) == b);
                }
                let k = byte_to_char(line, b);
                proof {
                    let k0 = first_match(s, query@, start, s.len() as int)->0;
                    lemma_byte_pos_injective(s, k as int, k0);
                }
                Some(k)
            },
            None => None,
        }
    }

    /// Column of the last occurrence of `q` in line `row` between columns
    /// `from` and `to`.
    fn rfind_in_line(&self, row: usize, q: &Vec<char>, from: usize, to: usize) -> (r: Option<usize>)
        requires
            row < self@.lines.len(),
            to <= self@.lines[row as int].len(),
        ensures
            match last_match(self@.lines[row as int], q@, from as int, to as int) {
                Some(k) => r is Some && r->0 == k,
                None => r is None,
            },
    {
        let chars = chars_of(self.buffer[row].as_str());
        rfind_chars(&chars, q, from, to)
    }

    /// Moves to the next occurrence of the last search text, wrapping around
    /// the end of the buffer; reports a wrap, or that the text is not found.
    pub fn find_next(&mut self)
        requires
            old(self)@.wf(),
        ensures
            final(self)@ == old(self)@.find_next(),
            final(self)@.wf(),
            old(self)@.last_search.len() > 0 ==> occurs_at(
                final(self)@.lines[final(self).cursor.row as int],
                old(self)@.last_search,
                final(self).cursor.col as int,
            ) || (final(self)@ == old(self)@.not_found() && old(self)@.no_match_elsewhere()),
    {
        if self.last_search.as_str().is_empty() {
            return;
        }
        let query = self.last_search.clone();
        let start_row = self.cursor.row;
        let start_col = self.cursor.col;
        let ghost v = self@;
        let ghost q = query@;
        let n = self.buffer.len();
        let line_len = self.line_len(start_row);
        if let Some(k) = self.find_in_line(start_row, query.as_str(), start_col + 1) {
            proof {
                lemma_first_match_bounds(v.cur_line(), q, (start_col + 1) as int, line_len as int);
            }
            self.cursor.col = k;
            assert(self@ =~= v.find_next());
            return;
        }
        let mut row: usize = start_row + 1;
        while row < n
            invariant
                self@ == v,
                v == old(self)@,
                v.wf(),
                q == v.last_search,
                q == query@,
                q.len() > 0,
                n == v.lines.len(),
                start_row == v.cursor.row,
                start_row + 1 <= row <= n,
                first_match(v.cur_line(), q, (start_col + 1) as int, line_len as int) is None,
                start_col == v.cursor.col,
                line_len == v.cur_line().len(),
                first_line_match(v.lines, q, start_row + 1, n as int) == first_line_match(v.lines, q, row as int, n as int),
            decreases n - row,
        {
            if let Some(k) = self.find_in_line(row, query.as_str(), 0) {
                proof {
                    lemma_first_match_bounds(v.lines[row as int], q, 0, v.lines[row as int].len() as int);
                }
                assert(first_line_match(v.lines, q, row as int, n as int) == Some((row as int, k as int)));
                self.cursor.row = row;
                self.cursor.col = k;
                assert(self@ =~= v.find_next());
                return;
            }
            row = row + 1;
        }
        let mut row: usize = 0;
        while row < start_row
            invariant
                self@ == v,
                v == old(self)@,
                v.wf(),
                q == v.last_search,
                q == query@,
                q.len() > 0,
                n == v.lines.len(),
                start_row == v.cursor.row,
                row <= start_row,
                first_match(v.cur_line(), q, (start_col + 1) as int, line_len as int) is None,
                first_line_match(v.lines, q, start_row + 1, n as int) is None,
                start_col == v.cursor.col,
                line_len == v.cur_line().len(),
                first_line_match(v.lines, q, 0, start_row as int) == first_line_match(v.lines, q, row as int, start_row as int),
            decreases start_row - row,
        {
            if let Some(k) = self.find_in_line(row, query.as_str(), 0) {
                proof {
                    lemma_first_match_bounds(v.lines[row as int], q, 0, v.lines[row as int].len() as int);
                }
                assert(first_line_match(v.lines, q, row as int, start_row as int) == Some((row as int, k as int)));
                self.cursor.row = row;
                self.cursor.col = k;
                self.status = String::from_str("search wrapped");
                assert(self@ =~= v.find_next());
                return;
            }
            row = row + 1;
        }
        let chars = chars_of(self.buffer[start_row].as_str());
        let qchars = chars_of(query.as_str());
        if let Some(k) = find_chars(&chars, &qchars, 0, start_col) {
            proof {
                lemma_first_match_bounds(v.cur_line(), q, 0, start_col as int);
            }
            self.cursor.col = k;
            self.status = String::from_str("search wrapped");
            assert(self@ =~= v.find_next());
            return;
        }
        let mut status = String::from_str("not found: ");
        status.append(query.as_str());
        self.status = status;
        proof {
            assert(v.next_search_none());
            lemma_next_search_none(v);
        }
        assert(self@ =~= v.find_next());
    }

    /// Moves to the previous occurrence of the last search text, wrapping
    /// around the start of the buffer; reports a wrap, or that the text is
    /// not found.
    pub fn find_prev(&mut self)
        requires
            old(self)@.wf(),
        ensures
            final(self)@ == old(self)@.find_prev(),
            final(self)@.wf(),
            old(self)@.last_search.len() > 0 ==> occurs_at(
                final(self)@.lines[final(self).cursor.row as int],
                old(self)@.last_search,
                final(self).cursor.col as int,
            ) || (final(self)@ == old(self)@.not_found() && old(self)@.no_match_elsewhere()),
    {
        if self.last_search.as_str().is_empty() {
            return;
        }
        let query = self.last_search.clone();
        let start_row = self.cursor.row;
        let start_col = self.cursor.col;
        let ghost v = self@;
        let ghost q = query@;
        let n = self.buffer.len();
        let line_len = self.line_len(start_row);
        let qchars = chars_of(query.as_str());
        if let Some(k) = self.rfind_in_line(start_row, &qchars, 0, start_col) {
            proof {
                lemma_last_match_bounds(v.cur_line(), q, 0, start_col as int);
            }
            self.cursor.col = k;
            assert(self@ =~= v.find_prev());
            return;
        }
        let mut row: usize = start_row;
        while row > 0
            invariant
                self@ == v,
                v == old(self)@,
                v.wf(),
                q == v.last_search,
                q == query@,
                qchars@ == q,
                q.len() > 0,
                n == v.lines.len(),
                start_row == v.cursor.row,
                row <= start_row,
                last_match(v.cur_line(), q, 0, start_col as int) is None,
                start_col == v.cursor.col,
                line_len == v.cur_line().len(),
                last_line_match(v.lines, q, 0, start_row as int) == last_line_match(v.lines, q, 0, row as int),
            decreases row,
        {
            let r = row - 1;
            let len = self.line_len(r);
            if let Some(k) = self.rfind_in_line(r, &qchars, 0, len) {
                proof {
                    lemma_last_match_bounds(v.lines[r as int], q, 0, len as int);
                }
                assert(last_line_match(v.lines, q, 0, row as int) == Some((r as int, k as int)));
                self.cursor.row = r;
                self.cursor.col = k;
                assert(self@ =~= v.find_prev());
                return;
            }
            row = r;
        }
        let mut row: usize = n;
        while row > start_row + 1
            invariant
                self@ == v,
                v == old(self)@,
                v.wf(),
                q == v.last_search,
                q == query@,
                qchars@ == q,
                q.len() > 0,
                n == v.lines.len(),
                start_row == v.cursor.row,
                start_row + 1 <= row <= n,
                last_match(v.cur_line(), q, 0, start_col as int) is None,
                last_line_match(v.lines, q, 0, start_row as int) is None,
                start_col == v.cursor.col,
                line_len == v.cur_line().len(),
                last_line_match(v.lines, q, start_row + 1, n as int) == last_line_match(v.lines, q, start_row + 1, row as int),
            decreases row,
        {
            let r = row - 1;
            let len = self.line_len(r);
            if let Some(k) = self.rfind_in_line(r, &qchars, 0, len) {
                proof {
                    lemma_last_match_bounds(v.lines[r as int], q, 0, len as int);
                }
                assert(last_line_match(v.lines, q, start_row + 1, row as int) == Some((r as int, k as int)));
                self.cursor.row = r;
                self.cursor.col = k;
                self.status = String::from_str("search wrapped");
                assert(self@ =~= v.find_prev());
                return;
            }
            row = r;
        }
        if let Some(k) = self.rfind_in_line(start_row, &qchars, start_col + 1, line_len) {
            proof {
                lemma_last_match_bounds(v.cur_line(), q, (start_col + 1) as int, line_len as int);
            }
            self.cursor.col = k;
            self.status = String::from_str("search wrapped");
            assert(self@ =~= v.find_prev());
            return;
        }
        let mut status = String::from_str("not found: ");
        status.append(query.as_str());
        self.status = status;
        proof {
            assert(v.prev_search_none());
            lemma_prev_search_none(v);
        }
        assert(self@ =~= v.find_prev());
    }
}

} // verus!

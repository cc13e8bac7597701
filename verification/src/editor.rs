//! The editor's state, its abstract view, and its invariant.
use vstd::prelude::*;
use std::path::PathBuf;
use crate::text::char_count;

verus! {

#[verifier::external_type_specification]
#[verifier::external_body]
pub struct ExPathBuf(PathBuf);

/// A place in the buffer: a line and a character column in it.
#[derive(Clone, Copy, Debug, PartialEq, Eq, Structural)]
pub struct Position {
    pub row: usize,
    pub col: usize,
}

impl Default for Position {
    fn default() -> (p: Self)
        ensures
            p.row == 0 && p.col == 0,
    {
        Position { row: 0, col: 0 }
    }
}

/// The buffer and cursor as they were at some moment, kept for undo and redo.
pub struct Snapshot {
    pub buffer: Vec<String>,
    pub cursor: Position,
}

/// An operator that waits for the motion it applies to.
#[derive(Clone, Copy, Debug, PartialEq, Eq, Structural)]
pub enum Operator {
    Delete,
}

#[derive(Clone, Copy, Debug, PartialEq, Eq, Structural)]
pub struct PendingOp {
    pub operator: Operator,
}

#[derive(Clone, Copy, Debug, PartialEq, Eq, Structural)]
pub enum Mode {
    Normal,
    Insert,
    Command,
    Search,
    Visual,
}

impl Default for Mode {
    fn default() -> (m: Self)
        ensures
            m == Mode::Normal,
    {
        Mode::Normal
    }
}

#[derive(Clone, Copy, Debug, PartialEq, Eq, Structural)]
pub enum Direction {
    Up,
    Down,
    Left,
    Right,
}

pub struct Editor {
    pub buffer: Vec<String>,
    pub cursor: Position,
    pub row_offset: usize,
    pub filename: Option<PathBuf>,
    pub mode: Mode,
    pub status: String,
    pub command_buffer: String,
    pub undo_stack: Vec<Snapshot>,
    pub redo_stack: Vec<Snapshot>,
    pub search_query: String,
    pub last_search: String,
    pub pending_op: Option<PendingOp>,
    pub selection_anchor: Option<Position>,
}

/// What a snapshot holds: the lines as character sequences, and the cursor.
#[verifier::ext_equal]
pub struct SnapshotView {
    pub lines: Seq<Seq<char>>,
    pub cursor: Position,
}

impl View for Snapshot {
    type V = SnapshotView;

    open spec fn view(&self) -> SnapshotView {
        SnapshotView { lines: self.buffer.deep_view(), cursor: self.cursor }
    }
}

/// The whole state of an editor, with every text as its characters.
#[verifier::ext_equal]
pub struct EditorView {
    pub lines: Seq<Seq<char>>,
    pub cursor: Position,
    pub row_offset: usize,
    pub filename: Option<PathBuf>,
    pub mode: Mode,
    pub status: Seq<char>,
    pub command: Seq<char>,
    pub undo: Seq<SnapshotView>,
    pub redo: Seq<SnapshotView>,
    pub search_query: Seq<char>,
    pub last_search: Seq<char>,
    pub pending_op: Option<PendingOp>,
    pub anchor: Option<Position>,
}

impl View for Editor {
    type V = EditorView;

    open spec fn view(&self) -> EditorView {
        EditorView {
            lines: self.buffer.deep_view(),
            cursor: self.cursor,
            row_offset: self.row_offset,
            filename: self.filename,
            mode: self.mode,
            status: self.status@,
            command: self.command_buffer@,
            undo: self.undo_stack@.map_values(|s: Snapshot| s@),
            redo: self.redo_stack@.map_values(|s: Snapshot| s@),
            search_query: self.search_query@,
            last_search: self.last_search@,
            pending_op: self.pending_op,
            anchor: self.selection_anchor,
        }
    }
}

/// `p` is a place in `lines`: an existing line, and a column from its start
/// to just past its last character.
pub open spec fn valid_pos(lines: Seq<Seq<char>>, p: Position) -> bool {
    p.row < lines.len() && p.col <= lines[p.row as int].len()
}

/// The buffer has at least one line and the cursor stands on it.
pub open spec fn buffer_wf(lines: Seq<Seq<char>>, cursor: Position) -> bool {
    lines.len() > 0 && valid_pos(lines, cursor)
}

impl SnapshotView {
    pub open spec fn wf(self) -> bool {
        buffer_wf(self.lines, self.cursor)
    }
}

impl EditorView {
    /// The editor's invariant: the buffer is never empty, the cursor stands
    /// in it, and so it does in every state kept for undo and redo.
    pub open spec fn wf(self) -> bool {
        &&& buffer_wf(self.lines, self.cursor)
        &&& forall|i: int| 0 <= i < self.undo.len() ==> (#[trigger] self.undo[i]).wf()
        &&& forall|i: int| 0 <= i < self.redo.len() ==> (#[trigger] self.redo[i]).wf()
    }

    /// Every count in the state fits the machine: the number of lines, and
    /// the length of each line with room for one more character.
    pub open spec fn fits_machine(self) -> bool {
        &&& self.lines.len() <= usize::MAX
        &&& forall|r: int| 0 <= r < self.lines.len() ==> #[trigger] self.lines[r].len() < usize::MAX
    }

    /// The line the cursor is on.
    pub open spec fn cur_line(self) -> Seq<char> {
        self.lines[self.cursor.row as int]
    }

    pub open spec fn with_cursor(self, cursor: Position) -> EditorView {
        EditorView { cursor, ..self }
    }

    pub open spec fn with_status(self, status: Seq<char>) -> EditorView {
        EditorView { status, ..self }
    }

    pub open spec fn with_mode(self, mode: Mode) -> EditorView {
        EditorView { mode, ..self }
    }

    /// The text that the prompt line shows in command and search mode.
    pub open spec fn prompt(self) -> Option<(char, Seq<char>)> {
        match self.mode {
            Mode::Command => Some((':', self.command)),
            Mode::Search => Some(('/', self.search_query)),
            _ => None,
        }
    }

    /// New cursor row after scrolling so that the cursor row shows in a
    /// window of `rows` text rows.
    pub open spec fn scrolled_offset(self, rows: int) -> usize {
        if self.cursor.row < self.row_offset {
            self.cursor.row
        } else if self.cursor.row >= self.row_offset + rows {
            (self.cursor.row - rows + 1) as usize
        } else {
            self.row_offset
        }
    }
}

/// Splits text into lines as `str::lines` does: at each `'\n'`, dropping one
/// `'\r'` just before it; a final line break ends the last line and starts
/// no new one. Returns the lines found so far and the unfinished last line.
pub open spec fn scan_lines(s: Seq<char>) -> (Seq<Seq<char>>, Seq<char>)
    decreases s.len(),
{
    if s.len() == 0 {
        (Seq::empty(), Seq::empty())
    } else {
        let (done, cur) = scan_lines(s.drop_last());
        if s.last() == '\n' {
            (done.push(strip_cr(cur)), Seq::empty())
        } else {
            (done, cur.push(s.last()))
        }
    }
}

/// `s` without one trailing carriage return.
pub open spec fn strip_cr(s: Seq<char>) -> Seq<char> {
    if s.len() > 0 && s.last() == '\r' {
        s.drop_last()
    } else {
        s
    }
}

/// The lines of a text, as `str::lines` gives them.
pub open spec fn text_lines(s: Seq<char>) -> Seq<Seq<char>> {
    let (done, cur) = scan_lines(s);
    if cur.len() > 0 {
        done.push(cur)
    } else {
        done
    }
}

/// Lines joined with `'\n'` between them.
pub open spec fn join_lines(lines: Seq<Seq<char>>) -> Seq<char>
    decreases lines.len(),
{
    if lines.len() == 0 {
        Seq::empty()
    } else if lines.len() == 1 {
        lines[0]
    } else {
        join_lines(lines.drop_last()).push('\n') + lines.last()
    }
}

/// The lines of `contents`, split as `str::lines` does.
pub fn split_lines(contents: &str) -> (lines: Vec<String>)
    ensures
        lines.deep_view() == text_lines(contents@),
{
    let mut done: Vec<String> = Vec::new();
    let mut cur = String::new();
    let ghost s = contents@;
    assert(s.take(0) =~= Seq::<char>::empty());
    for c in it: contents.chars()
        invariant
            s == contents@,
            it.seq() == s,
            (done.deep_view(), cur@) == scan_lines(s.take(it.index() as int)),
    {
        let ghost i = it.index() as int;
        assert(s.take(i + 1).drop_last() =~= s.take(i));
        assert(s.take(i + 1).last() == c);
        if c == '\n' {
            let last = strip_trailing_cr(cur);
            done.push(last);
            assert(done.deep_view() =~= scan_lines(s.take(i + 1)).0);
            cur = String::new();
        } else {
            crate::strings::string_push(&mut cur, c);
        }
    }
    assert(s.take(s.len() as int) =~= s);
    if char_count(cur.as_str()) > 0 {
        done.push(cur);
        assert(done.deep_view() =~= text_lines(s));
    }
    done
}

/// `s` without one trailing carriage return.
fn strip_trailing_cr(s: String) -> (r: String)
    ensures
        r@ == strip_cr(s@),
{
    let ghost orig = s@;
    let mut s = s;
    let last = crate::strings::string_pop(&mut s);
    match last {
        Some(c) => {
            if c != '\r' {
                crate::strings::string_push(&mut s, c);
                assert(s@ =~= orig);
            }
        },
        None => {},
    }
    s
}

impl EditorView {
    /// The state of a new editor: one empty line, the cursor at its start,
    /// normal mode, and nothing else.
    pub open spec fn initial() -> EditorView {
        EditorView {
            lines: seq![Seq::<char>::empty()],
            cursor: Position { row: 0, col: 0 },
            row_offset: 0,
            filename: None,
            mode: Mode::Normal,
            status: Seq::empty(),
            command: Seq::empty(),
            undo: Seq::empty(),
            redo: Seq::empty(),
            search_query: Seq::empty(),
            last_search: Seq::empty(),
            pending_op: None,
            anchor: None,
        }
    }
}

impl Editor {
    pub fn new() -> (e: Self)
        ensures
            e@ == EditorView::initial(),
            e@.wf(),
    {
        let e = Editor {
            buffer: vec![String::new()],
            cursor: Position::default(),
            row_offset: 0,
            filename: None,
            mode: Mode::default(),
            status: String::new(),
            command_buffer: String::new(),
            undo_stack: Vec::new(),
            redo_stack: Vec::new(),
            search_query: String::new(),
            last_search: String::new(),
            pending_op: None,
            selection_anchor: None,
        };
        assert(e@.lines =~= seq![Seq::<char>::empty()]);
        assert(e@.undo =~= Seq::<SnapshotView>::empty());
        assert(e@.redo =~= Seq::<SnapshotView>::empty());
        assert(e@ =~= EditorView::initial());
        e
    }

    /// Checks the buffer invariant: at least one line, and the cursor on a
    /// line and within it (at most one column past its last character).
    pub fn assert_invariants(&self)
        requires
            buffer_wf(self@.lines, self.cursor),
    {
        assert(self.buffer.len() > 0);
        assert(self.cursor.row < self.buffer.len());
        let line_len = char_count(self.buffer[self.cursor.row].as_str());
        assert(self.cursor.col <= line_len);
    }

    /// The prompt character and text in command and search mode.
    pub fn prompt_state(&self) -> (r: Option<(char, &str)>)
        ensures
            match r {
                Some((c, t)) => self@.prompt() == Some((c, t@)),
                None => self@.prompt() is None,
            },
    {
        match self.mode {
            Mode::Command => Some((':', self.command_buffer.as_str())),
            Mode::Search => Some(('/', self.search_query.as_str())),
            _ => None,
        }
    }

    /// Takes the lines of an opened file and remembers its path.
    pub fn open(&mut self, path: PathBuf, lines: Vec<String>)
        requires
            buffer_wf(lines.deep_view(), old(self).cursor),
        ensures
            final(self)@ == (EditorView {
                lines: lines.deep_view(),
                filename: Some(path),
                ..old(self)@
            }),
    {
        self.buffer = lines;
        self.filename = Some(path);
        self.assert_invariants();
    }

    /// The buffer as one text, its lines joined with `'\n'`.
    pub fn buffer_text(&self) -> (r: String)
        ensures
            r@ == join_lines(self@.lines),
    {
        let ghost lines = self@.lines;
        let mut r = String::new();
        let n = self.buffer.len();
        let mut i: usize = 0;
        while i < n
            invariant
                n == self.buffer.len(),
                lines == self@.lines,
                i <= n,
                r@ == join_lines(lines.take(i as int)),
            decreases n - i,
        {
            assert(lines.take(i + 1).drop_last() =~= lines.take(i as int));
            if i > 0 {
                r.append("\n");
                proof {
                    reveal_strlit("\n");
                }
            } else {
                assert(r@ =~= Seq::<char>::empty());
            }
            r.append(self.buffer[i].as_str());
            assert(r@ =~= join_lines(lines.take(i + 1)));
            i = i + 1;
        }
        assert(lines.take(n as int) =~= lines);
        r
    }

    /// Moves the window so that the cursor row shows among the
    /// `term_rows - 1` text rows above the status line.
    pub fn scroll(&mut self, term_rows: u16)
        requires
            old(self).cursor.row >= old(self).row_offset ==> old(self).row_offset + (
            if term_rows > 0 { term_rows - 1 } else { 0 }) <= usize::MAX,
            old(self).cursor.row >= old(self).row_offset + (if term_rows > 0 { term_rows - 1 } else { 0 })
                ==> term_rows > 1 || old(self).cursor.row < usize::MAX,
        ensures
            final(self)@ == (EditorView {
                row_offset: old(self)@.scrolled_offset(
                    if term_rows > 0 { term_rows - 1 } else { 0 },
                ),
                ..old(self)@
            }),
    {
        let rows = (term_rows as usize).saturating_sub(1);
        if self.cursor.row < self.row_offset {
            self.row_offset = self.cursor.row;
        } else if self.cursor.row >= self.row_offset + rows {
            self.row_offset = self.cursor.row - rows + 1;
        }
    }
}

} // verus!

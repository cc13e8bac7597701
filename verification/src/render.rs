//! The screen: the visible part of the buffer, the status line, and where the
//! terminal cursor goes; and the status messages about saving.
use vstd::prelude::*;
use crate::editor::{Editor, EditorView, Mode};
use crate::strings::string_push;
use crate::text::{char_count, chars_of};

verus! {

/// The digit character for `d < 10`.
pub open spec fn digit(d: nat) -> char {
    if d == 0 { '0' } else if d == 1 { '1' } else if d == 2 { '2' } else if d == 3 { '3' }
    else if d == 4 { '4' } else if d == 5 { '5' } else if d == 6 { '6' } else if d == 7 { '7' }
    else if d == 8 { '8' } else { '9' }
}

/// `n` written in decimal.
pub open spec fn decimal(n: nat) -> Seq<char>
    decreases n,
{
    if n < 10 {
        seq![digit(n)]
    } else {
        decimal(n / 10).push(digit(n % 10))
    }
}

/// The first `n` characters of `s`, or all of `s` when it is shorter.
pub open spec fn prefix(s: Seq<char>, n: int) -> Seq<char> {
    if n <= s.len() { s.take(n) } else { s }
}

/// `n` spaces.
pub open spec fn spaces(n: nat) -> Seq<char> {
    Seq::new(n, |i: int| ' ')
}

/// The name of a mode, as its `Debug` form shows it.
pub open spec fn mode_name(m: Mode) -> Seq<char> {
    match m {
        Mode::Normal => "Normal"@,
        Mode::Insert => "Insert"@,
        Mode::Command => "Command"@,
        Mode::Search => "Search"@,
        Mode::Visual => "Visual"@,
    }
}

/// What the screen shows: one text per screen row, the status line last,
/// and the place of the terminal cursor.
pub struct Frame {
    pub rows: Vec<String>,
    pub cursor_x: u16,
    pub cursor_y: u16,
}

impl EditorView {
    /// Screen row `i` of the text area: the buffer line shown there, cut to
    /// `cols` characters, or `~` below the end of the buffer.
    pub open spec fn screen_line(self, i: int, cols: int) -> Seq<char> {
        let r = self.row_offset + i;
        if r < self.lines.len() {
            prefix(self.lines[r], cols)
        } else {
            "~"@
        }
    }

    /// The left part of the status line: the prompt in command and search
    /// mode, else the mode, the file name and the 1-based cursor place.
    pub open spec fn status_left(self, name: Seq<char>) -> Seq<char> {
        match self.mode {
            Mode::Command => seq![':'] + self.command,
            Mode::Search => seq!['/'] + self.search_query,
            _ => mode_name(self.mode) + " | "@ + name + " | "@ + decimal((self.cursor.row + 1) as nat)
                + ":"@ + decimal((self.cursor.col + 1) as nat),
        }
    }

    /// The status line for `cols` columns: the left part cut to leave room
    /// for the status message, which stands at the right end.
    pub open spec fn status_bar(self, cols: int, name: Seq<char>) -> Seq<char> {
        let right = self.status;
        let left_max = if cols >= right.len() + 1 { cols - (right.len() + 1) } else { 0 };
        let left = prefix(self.status_left(name), left_max);
        let padding = cols - left.len() - right.len();
        prefix(left + spaces(padding as nat) + right, cols)
    }

    /// All screen rows for a terminal of `cols` by `rows` (at least one).
    pub open spec fn screen(self, cols: int, rows: int, name: Seq<char>) -> Seq<Seq<char>> {
        Seq::new((rows - 1) as nat, |i: int| self.screen_line(i, cols)).push(
            self.status_bar(cols, name),
        )
    }

    /// Where the terminal cursor goes: after the prompt in command and search
    /// mode, else on the buffer cursor relative to the window.
    pub open spec fn screen_cursor(self, rows: int) -> (u16, u16) {
        match self.prompt() {
            Some((_, content)) => ((1 + content.len()) as u16, (rows - 1) as u16),
            None => (
                self.cursor.col as u16,
                (if self.cursor.row >= self.row_offset { self.cursor.row - self.row_offset } else { 0 }) as u16,
            ),
        }
    }
}

fn digit_char(d: usize) -> (c: char)
    requires
        d < 10,
    ensures
        c == digit(d as nat),
{
    if d == 0 { '0' } else if d == 1 { '1' } else if d == 2 { '2' } else if d == 3 { '3' }
    else if d == 4 { '4' } else if d == 5 { '5' } else if d == 6 { '6' } else if d == 7 { '7' }
    else if d == 8 { '8' } else { '9' }
}

/// Appends `n` written in decimal to `s`.
fn push_decimal(s: &mut String, n: usize)
    ensures
        final(s)@ == old(s)@ + decimal(n as nat),
    decreases n,
{
    if n >= 10 {
        push_decimal(s, n / 10);
    }
    string_push(s, digit_char(n % 10));
    assert(s@ =~= old(s)@ + decimal(n as nat));
}

/// `n` written in decimal.
pub fn decimal_string(n: usize) -> (s: String)
    ensures
        s@ == decimal(n as nat),
{
    let mut s = String::new();
    push_decimal(&mut s, n);
    assert(s@ =~= decimal(n as nat));
    s
}

/// The first `n` characters of `s`.
fn prefix_string(s: &str, n: usize) -> (r: String)
    ensures
        r@ == prefix(s@, n as int),
{
    let chars = chars_of(s);
    let mut r = String::new();
    let mut i: usize = 0;
    while i < n && i < chars.len()
        invariant
            chars@ == s@,
            i <= chars@.len(),
            i <= n,
            r@ == chars@.take(i as int),
        decreases chars@.len() - i,
    {
        string_push(&mut r, chars[i]);
        assert(chars@.take(i + 1) =~= chars@.take(i as int).push(chars@[i as int]));
        i = i + 1;
    }
    assert(i == chars@.len() ==> chars@.take(i as int) =~= chars@);
    r
}

/// The name of a mode, as its `Debug` form shows it.
fn mode_name_string(m: Mode) -> (s: String)
    ensures
        s@ == mode_name(m),
{
    match m {
        Mode::Normal => String::from_str("Normal"),
        Mode::Insert => String::from_str("Insert"),
        Mode::Command => String::from_str("Command"),
        Mode::Search => String::from_str("Search"),
        Mode::Visual => String::from_str("Visual"),
    }
}

/// The name shown for the file: its path, or `[No Name]` without one.
pub open spec fn shown_name(filename: Option<Seq<char>>) -> Seq<char> {
    match filename {
        Some(n) => n,
        None => "[No Name]"@,
    }
}

impl Editor {
    /// The left part of the status line.
    fn status_left_string(&self, name: &str) -> (s: String)
        requires
            self@.wf(),
        ensures
            s@ == self@.status_left(name@),
    {
        match self.mode {
            Mode::Command => {
                let mut s = String::from_str(":");
                s.append(self.command_buffer.as_str());
                proof {
                    reveal_strlit(":");
                }
                assert(s@ =~= seq![':'] + self@.command);
                s
            },
            Mode::Search => {
                let mut s = String::from_str("/");
                s.append(self.search_query.as_str());
                proof {
                    reveal_strlit("/");
                }
                assert(s@ =~= seq!['/'] + self@.search_query);
                s
            },
            _ => {
                let line_len = self.line_len(self.cursor.row);
                let n = self.buffer.len();
                let mut s = mode_name_string(self.mode);
                s.append(" | ");
                s.append(name);
                s.append(" | ");
                let row = decimal_string(self.cursor.row + 1);
                s.append(row.as_str());
                s.append(":");
                let col = decimal_string(self.cursor.col + 1);
                s.append(col.as_str());
                s
            },
        }
    }

    /// The screen for a terminal of `cols` columns and `rows` rows: the text
    /// rows, the status line, and the place of the terminal cursor. The file
    /// is named `filename`, or `[No Name]` without one.
    pub fn frame(&self, cols: u16, rows: u16, filename: Option<&str>) -> (f: Frame)
        requires
            self@.wf(),
            rows >= 1,
            self@.status.len() <= cols,
            rows >= 2 ==> self.row_offset + (rows - 2) <= usize::MAX,
        ensures
            f.rows.deep_view() == self@.screen(
                cols as int,
                rows as int,
                shown_name(
                    match filename {
                        Some(n) => Some(n@),
                        None => None,
                    },
                ),
            ),
            (f.cursor_x, f.cursor_y) == self@.screen_cursor(rows as int),
    {
        self.assert_invariants();
        let ghost v = self@;
        let cols_u = cols as usize;
        let rows_u = rows as usize;
        let text_rows = rows_u - 1;
        let mut out: Vec<String> = Vec::new();
        let mut i: usize = 0;
        while i < text_rows
            invariant
                v == self@,
                text_rows == rows - 1,
                cols_u == cols,
                i <= text_rows,
                rows >= 2 ==> self.row_offset + (rows - 2) <= usize::MAX,
                out.deep_view() == Seq::new(i as nat, |j: int| v.screen_line(j, cols as int)),
            decreases text_rows - i,
        {
            let buf_row = self.row_offset + i;
            let n = self.buffer.len();
            let ghost before = out.deep_view();
            if buf_row < n {
                let shown = prefix_string(self.buffer[buf_row].as_str(), cols_u);
                assert(shown@ == v.screen_line(i as int, cols as int));
                out.push(shown);
            } else {
                let shown = String::from_str("~");
                assert(shown@ == v.screen_line(i as int, cols as int));
                out.push(shown);
            }
            assert(out.deep_view() =~= before.push(v.screen_line(i as int, cols as int)));
            assert(out.deep_view() =~= Seq::new((i + 1) as nat, |j: int| v.screen_line(j, cols as int)));
            i = i + 1;
        }
        let name: &str = match filename {
            Some(n) => n,
            None => "[No Name]",
        };
        let right_width = char_count(self.status.as_str());
        let left_max = cols_u.saturating_sub(right_width + 1);
        let left_full = self.status_left_string(name);
        let mut status = prefix_string(left_full.as_str(), left_max);
        let left_width = char_count(status.as_str());
        let padding = cols_u - left_width - right_width;
        let ghost left = status@;
        let mut k: usize = 0;
        while k < padding
            invariant
                k <= padding,
                status@ == left + spaces(k as nat),
            decreases padding - k,
        {
            string_push(&mut status, ' ');
            assert(status@ =~= left + spaces((k + 1) as nat));
            k = k + 1;
        }
        status.append(self.status.as_str());
        let visible = prefix_string(status.as_str(), cols_u);
        out.push(visible);
        assert(out.deep_view() =~= v.screen(
            cols as int,
            rows as int,
            shown_name(
                match filename {
                    Some(n) => Some(n@),
                    None => None,
                },
            ),
        ));
        let (x, y) = match self.prompt_state() {
            Some((_, content)) => {
                let len = char_count(content);
                (#[verifier::truncate] ((1 + len) as u16), (rows_u - 1) as u16)
            },
            None => (
                #[verifier::truncate] (self.cursor.col as u16),
                #[verifier::truncate] (self.cursor.row.saturating_sub(self.row_offset) as u16),
            ),
        };
        Frame { rows: out, cursor_x: x, cursor_y: y }
    }

    /// Reports a save of `bytes` bytes in the status line.
    pub fn note_saved(&mut self, bytes: usize)
        ensures
            final(self)@ == old(self)@.with_status("saved "@ + decimal(bytes as nat) + " bytes"@),
    {
        let mut status = String::from_str("saved ");
        let number = decimal_string(bytes);
        status.append(number.as_str());
        status.append(" bytes");
        self.status = status;
        assert(self@ =~= old(self)@.with_status("saved "@ + decimal(bytes as nat) + " bytes"@));
    }

    /// Reports a failed save in the status line.
    pub fn report_error(&mut self, message: &str)
        ensures
            final(self)@ == old(self)@.with_status("error: "@ + message@),
    {
        let mut status = String::from_str("error: ");
        status.append(message);
        self.status = status;
        assert(self@ =~= old(self)@.with_status("error: "@ + message@));
    }
}

} // verus!

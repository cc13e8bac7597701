//! Key handling: what each key does in each mode, and what the program
//! around the editor must do next (go on, quit, or save the file).
use vstd::prelude::*;
use crate::editor::{Direction, Editor, EditorView, Mode, Operator, PendingOp, Position};
use crate::motion::{word_backward_target, word_forward_target};
use crate::strings::{string_pop, string_push};

verus! {

/// No modifier key held.
pub const NONE: u8 = 0b0000_0000;

/// The shift key.
pub const SHIFT: u8 = 0b0000_0001;

/// The control key.
pub const CONTROL: u8 = 0b0000_0010;

/// The keys the editor tells apart.
#[derive(Clone, Copy, Debug, PartialEq, Eq, Structural)]
pub enum KeyCode {
    Char(char),
    Esc,
    Enter,
    Backspace,
    Left,
    Right,
    Up,
    Down,
    /// Any other key.
    Other,
}

/// A key press: the key and the set of modifier keys held (`SHIFT`,
/// `CONTROL` and the other bits of the terminal's modifier set).
#[derive(Clone, Copy, Debug, PartialEq, Eq, Structural)]
pub struct KeyEvent {
    pub code: KeyCode,
    pub modifiers: u8,
}

/// What the program must do after a key.
#[derive(Clone, Copy, Debug, PartialEq, Eq, Structural)]
pub enum Outcome {
    /// Go on reading keys.
    Continue,
    /// Stop.
    Quit,
    /// Save the file, then go on; a failure to save ends the program.
    Save,
    /// Save the file, then stop; a failure to save ends the program.
    SaveAndQuit,
    /// Save the file and go on; a failure to save is reported in the status line.
    SaveOrReport,
}

impl EditorView {
    pub open spec fn clear_status(self) -> EditorView {
        self.with_status(Seq::empty())
    }

    /// The range a motion key covers from the cursor, for an operator.
    pub open spec fn motion_range(self, ev: KeyEvent) -> Option<(Position, Position)> {
        let start = self.cursor;
        let len = self.cur_line().len();
        match ev.code {
            KeyCode::Char('w') => Some((start, word_forward_target(self.lines, start))),
            KeyCode::Char('b') => Some((start, word_backward_target(self.lines, start))),
            KeyCode::Char('h') | KeyCode::Left => Some(
                (start, Position { row: start.row, col: if start.col > 0 { (start.col - 1) as usize } else { 0 } }),
            ),
            KeyCode::Char('l') | KeyCode::Right => Some(
                (start, Position { row: start.row, col: if start.col + 1 <= len { (start.col + 1) as usize } else { len as usize } }),
            ),
            _ => None,
        }
    }

    /// A motion key after a pending operator: `d` again deletes the line,
    /// another motion deletes the range it covers.
    pub open spec fn op_motion(self, pending: PendingOp, ev: KeyEvent) -> EditorView {
        match pending.operator {
            Operator::Delete => if ev.code == KeyCode::Char('d') {
                self.delete_line()
            } else {
                match self.motion_range(ev) {
                    Some((start, end)) => self.delete_range(start, end),
                    None => self,
                }
            },
        }
    }

    /// A key in normal mode, when no operator waits.
    pub open spec fn normal_command(self, ev: KeyEvent) -> (EditorView, Outcome) {
        let ctrl = ev.modifiers == CONTROL;
        match ev.code {
            KeyCode::Char(c) => if ctrl && c == 'q' {
                (self, Outcome::Quit)
            } else if c == 'h' {
                (self.move_cursor(Direction::Left), Outcome::Continue)
            } else if c == 'j' {
                (self.move_cursor(Direction::Down), Outcome::Continue)
            } else if c == 'k' {
                (self.move_cursor(Direction::Up), Outcome::Continue)
            } else if c == 'l' {
                (self.move_cursor(Direction::Right), Outcome::Continue)
            } else if ctrl && c == 's' {
                (self, Outcome::SaveOrReport)
            } else if c == 'i' {
                (self.push_undo().with_mode(Mode::Insert), Outcome::Continue)
            } else if c == ':' {
                (EditorView { mode: Mode::Command, command: Seq::empty(), ..self }, Outcome::Continue)
            } else if c == 'u' {
                (self.undo(), Outcome::Continue)
            } else if ctrl && c == 'r' {
                (self.redo(), Outcome::Continue)
            } else if c == '/' {
                (EditorView { mode: Mode::Search, search_query: Seq::empty(), ..self }, Outcome::Continue)
            } else if c == 'n' {
                (self.find_next(), Outcome::Continue)
            } else if c == 'N' {
                (self.find_prev(), Outcome::Continue)
            } else if c == 'x' {
                (self.delete_char_at(), Outcome::Continue)
            } else if c == 'o' {
                (self.open_line_below(), Outcome::Continue)
            } else if c == 'O' {
                (self.open_line_above(), Outcome::Continue)
            } else if c == 'd' {
                (
                    EditorView {
                        status: "d op"@,
                        pending_op: Some(PendingOp { operator: Operator::Delete }),
                        ..self
                    },
                    Outcome::Continue,
                )
            } else if c == 'w' {
                (self.move_word_forward(), Outcome::Continue)
            } else if c == 'b' {
                (self.move_word_backward(), Outcome::Continue)
            } else if c == '0' {
                (self.with_cursor(Position { col: 0, ..self.cursor }), Outcome::Continue)
            } else if c == '$' {
                (
                    self.with_cursor(Position { col: self.cur_line().len() as usize, ..self.cursor }),
                    Outcome::Continue,
                )
            } else if c == 'v' {
                (EditorView { anchor: Some(self.cursor), mode: Mode::Visual, ..self }, Outcome::Continue)
            } else {
                (self, Outcome::Continue)
            },
            _ => (self, Outcome::Continue),
        }
    }

    /// A key in normal mode: the status line is cleared first; a waiting
    /// operator takes the key as its motion.
    pub open spec fn normal_key(self, ev: KeyEvent) -> (EditorView, Outcome) {
        let s = self.clear_status();
        match s.pending_op {
            Some(p) => (EditorView { pending_op: None, ..s }.op_motion(p, ev), Outcome::Continue),
            None => s.normal_command(ev),
        }
    }

    /// A key in insert mode.
    pub open spec fn insert_key(self, ev: KeyEvent) -> EditorView {
        let s = self.clear_status();
        match ev.code {
            KeyCode::Esc => s.with_mode(Mode::Normal),
            KeyCode::Char(c) => if ev.modifiers == NONE || ev.modifiers == SHIFT {
                s.insert_char(c)
            } else {
                s
            },
            KeyCode::Backspace => s.delete_char_before(),
            KeyCode::Enter => s.insert_newline(),
            KeyCode::Left => s.move_cursor(Direction::Left),
            KeyCode::Down => s.move_cursor(Direction::Down),
            KeyCode::Up => s.move_cursor(Direction::Up),
            KeyCode::Right => s.move_cursor(Direction::Right),
            _ => s,
        }
    }

    /// An entered command line: `w` saves, `q` and `q!` quit, `wq` saves and
    /// quits; anything else is reported as unknown.
    pub open spec fn execute_command(self, cmd: Seq<char>) -> (EditorView, Outcome) {
        if cmd == "w"@ {
            (self, Outcome::Save)
        } else if cmd == "q"@ {
            (self, Outcome::Quit)
        } else if cmd == "wq"@ {
            (self, Outcome::SaveAndQuit)
        } else if cmd == "q!"@ {
            (self, Outcome::Quit)
        } else {
            (self.with_status("unknown command: "@ + cmd), Outcome::Continue)
        }
    }

    /// A key in command mode: edits the command line, or runs it on Enter.
    pub open spec fn command_key(self, ev: KeyEvent) -> (EditorView, Outcome) {
        match ev.code {
            KeyCode::Esc => (EditorView { mode: Mode::Normal, command: Seq::empty(), ..self }, Outcome::Continue),
            KeyCode::Char(c) => (EditorView { command: self.command.push(c), ..self }, Outcome::Continue),
            KeyCode::Backspace => if self.command.len() == 0 {
                (self.with_mode(Mode::Normal), Outcome::Continue)
            } else {
                (EditorView { command: self.command.drop_last(), ..self }, Outcome::Continue)
            },
            KeyCode::Enter => EditorView { mode: Mode::Normal, command: Seq::empty(), ..self }.execute_command(
                self.command,
            ),
            _ => (self, Outcome::Continue),
        }
    }

    /// A key in search mode: edits the search text, or searches on Enter.
    pub open spec fn search_key(self, ev: KeyEvent) -> EditorView {
        match ev.code {
            KeyCode::Esc => EditorView { mode: Mode::Normal, search_query: Seq::empty(), ..self },
            KeyCode::Char(c) => EditorView { search_query: self.search_query.push(c), ..self },
            KeyCode::Backspace => if self.search_query.len() == 0 {
                self.with_mode(Mode::Normal)
            } else {
                EditorView { search_query: self.search_query.drop_last(), ..self }
            },
            KeyCode::Enter => EditorView {
                mode: Mode::Normal,
                search_query: Seq::empty(),
                last_search: self.search_query,
                ..self
            }.find_next(),
            _ => self,
        }
    }

    /// A key in visual mode.
    pub open spec fn visual_key(self, ev: KeyEvent) -> EditorView {
        let s = self.clear_status();
        match ev.code {
            KeyCode::Esc | KeyCode::Char('v') => EditorView { anchor: None, mode: Mode::Normal, ..s },
            KeyCode::Char('h') => s.move_cursor(Direction::Left),
            KeyCode::Char('j') => s.move_cursor(Direction::Down),
            KeyCode::Char('k') => s.move_cursor(Direction::Up),
            KeyCode::Char('l') => s.move_cursor(Direction::Right),
            KeyCode::Char('w') => s.move_word_forward(),
            KeyCode::Char('b') => s.move_word_backward(),
            KeyCode::Char('d') => s.delete_selection(),
            _ => s,
        }
    }

    /// A key, handled as the current mode has it.
    pub open spec fn key(self, ev: KeyEvent) -> (EditorView, Outcome) {
        match self.mode {
            Mode::Normal => self.normal_key(ev),
            Mode::Insert => (self.insert_key(ev), Outcome::Continue),
            Mode::Command => self.command_key(ev),
            Mode::Search => (self.search_key(ev), Outcome::Continue),
            Mode::Visual => (self.visual_key(ev), Outcome::Continue),
        }
    }
}

impl Editor {
    /// Handles a key as the current mode has it.
    pub fn handle_key(&mut self, event: KeyEvent) -> (r: Outcome)
        requires
            old(self)@.wf(),
        ensures
            (final(self)@, r) == old(self)@.key(event),
            final(self)@.wf(),
    {
        match self.mode {
            Mode::Normal => self.handle_normal(event),
            Mode::Insert => self.handle_insert(event),
            Mode::Command => self.handle_command(event),
            Mode::Search => self.handle_search(event),
            Mode::Visual => self.handle_visual(event),
        }
    }

    fn clear_status(&mut self)
        ensures
            final(self)@ == old(self)@.clear_status(),
    {
        self.status = String::new();
        assert(self@ =~= old(self)@.clear_status());
    }

    /// A key in normal mode.
    pub fn handle_normal(&mut self, event: KeyEvent) -> (r: Outcome)
        requires
            old(self)@.wf(),
        ensures
            (final(self)@, r) == old(self)@.normal_key(event),
            final(self)@.wf(),
    {
        self.clear_status();
        if let Some(pending) = self.pending_op {
            self.pending_op = None;
            return self.handle_op_motion(pending, event);
        }
        let ghost s = self@;
        let ctrl = event.modifiers == CONTROL;
        match event.code {
            KeyCode::Char(c) => {
                if ctrl && c == 'q' {
                    return Outcome::Quit;
                } else if c == 'h' {
                    self.move_cursor(Direction::Left);
                } else if c == 'j' {
                    self.move_cursor(Direction::Down);
                } else if c == 'k' {
                    self.move_cursor(Direction::Up);
                } else if c == 'l' {
                    self.move_cursor(Direction::Right);
                } else if ctrl && c == 's' {
                    return Outcome::SaveOrReport;
                } else if c == 'i' {
                    self.push_undo();
                    self.mode = Mode::Insert;
                } else if c == ':' {
                    self.mode = Mode::Command;
                    self.command_buffer = String::new();
                } else if c == 'u' {
                    self.undo();
                } else if ctrl && c == 'r' {
                    self.redo();
                } else if c == '/' {
                    self.mode = Mode::Search;
                    self.search_query = String::new();
                } else if c == 'n' {
                    self.find_next();
                } else if c == 'N' {
                    self.find_prev();
                } else if c == 'x' {
                    self.delete_char_at();
                } else if c == 'o' {
                    self.open_line_below();
                } else if c == 'O' {
                    self.open_line_above();
                } else if c == 'd' {
                    self.status = String::from_str("d op");
                    self.pending_op = Some(PendingOp { operator: Operator::Delete });
                } else if c == 'w' {
                    self.move_word_forward();
                } else if c == 'b' {
                    self.move_word_backward();
                } else if c == '0' {
                    self.cursor.col = 0;
                } else if c == '$' {
                    let line_len = self.line_len(self.cursor.row);
                    self.cursor.col = line_len;
                } else if c == 'v' {
                    self.selection_anchor = Some(self.cursor);
                    self.mode = Mode::Visual;
                }
            },
            _ => {},
        }
        assert(self@ =~= s.normal_command(event).0);
        Outcome::Continue
    }

    /// A key in insert mode.
    pub fn handle_insert(&mut self, event: KeyEvent) -> (r: Outcome)
        requires
            old(self)@.wf(),
        ensures
            final(self)@ == old(self)@.insert_key(event),
            r == Outcome::Continue,
            final(self)@.wf(),
    {
        self.clear_status();
        let ghost s = self@;
        match event.code {
            KeyCode::Esc => self.mode = Mode::Normal,
            KeyCode::Char(c) => {
                if event.modifiers == NONE || event.modifiers == SHIFT {
                    self.insert_char(c);
                }
            },
            KeyCode::Backspace => self.delete_char_before(),
            KeyCode::Enter => self.insert_newline(),
            KeyCode::Left => self.move_cursor(Direction::Left),
            KeyCode::Down => self.move_cursor(Direction::Down),
            KeyCode::Up => self.move_cursor(Direction::Up),
            KeyCode::Right => self.move_cursor(Direction::Right),
            _ => {},
        }
        assert(self@ =~= old(self)@.insert_key(event));
        Outcome::Continue
    }

    /// A key in command mode.
    pub fn handle_command(&mut self, event: KeyEvent) -> (r: Outcome)
        requires
            old(self)@.wf(),
        ensures
            (final(self)@, r) == old(self)@.command_key(event),
            final(self)@.wf(),
    {
        match event.code {
            KeyCode::Esc => {
                self.mode = Mode::Normal;
                self.command_buffer = String::new();
            },
            KeyCode::Char(c) => string_push(&mut self.command_buffer, c),
            KeyCode::Backspace => {
                if self.command_buffer.as_str().is_empty() {
                    self.mode = Mode::Normal;
                } else {
                    let _ = string_pop(&mut self.command_buffer);
                }
            },
            KeyCode::Enter => {
                let mut cmd = String::new();
                std::mem::swap(&mut cmd, &mut self.command_buffer);
                self.mode = Mode::Normal;
                assert(cmd@ == old(self)@.command);
                assert(self@ =~= EditorView { mode: Mode::Normal, command: Seq::empty(), ..old(self)@ });
                return self.execute_command(cmd.as_str());
            },
            _ => {},
        }
        assert(self@ =~= old(self)@.command_key(event).0);
        Outcome::Continue
    }

    /// Runs an entered command line.
    fn execute_command(&mut self, cmd: &str) -> (r: Outcome)
        requires
            old(self)@.wf(),
        ensures
            (final(self)@, r) == old(self)@.execute_command(cmd@),
            final(self)@.wf(),
    {
        let c = cmd.to_owned();
        if c == String::from_str("w") {
            Outcome::Save
        } else if c == String::from_str("q") {
            Outcome::Quit
        } else if c == String::from_str("wq") {
            Outcome::SaveAndQuit
        } else if c == String::from_str("q!") {
            Outcome::Quit
        } else {
            let mut status = String::from_str("unknown command: ");
            status.append(cmd);
            self.status = status;
            assert(self@ =~= old(self)@.execute_command(cmd@).0);
            Outcome::Continue
        }
    }

    /// The motion key after a pending operator.
    fn handle_op_motion(&mut self, pending: PendingOp, event: KeyEvent) -> (r: Outcome)
        requires
            old(self)@.wf(),
        ensures
            final(self)@ == old(self)@.op_motion(pending, event),
            r == Outcome::Continue,
            final(self)@.wf(),
    {
        match pending.operator {
            Operator::Delete => {
                if event.code == KeyCode::Char('d') {
                    self.delete_line();
                    return Outcome::Continue;
                }
                if let Some((start, end)) = self.motion_range(event) {
                    self.delete_range(start, end);
                }
            },
        }
        Outcome::Continue
    }

    /// The range that a motion key covers from the cursor.
    fn motion_range(&self, event: KeyEvent) -> (r: Option<(Position, Position)>)
        requires
            self@.wf(),
        ensures
            r == self@.motion_range(event),
    {
        let start = self.cursor;
        match event.code {
            KeyCode::Char('w') => Some((start, self.word_forward_pos())),
            KeyCode::Char('b') => Some((start, self.word_backward_pos())),
            KeyCode::Char('h') | KeyCode::Left => Some(
                (start, Position { row: start.row, col: start.col.saturating_sub(1) }),
            ),
            KeyCode::Char('l') | KeyCode::Right => {
                let line_len = self.line_len(start.row);
                let next = if start.col + 1 <= line_len { start.col + 1 } else { line_len };
                Some((start, Position { row: start.row, col: next }))
            },
            _ => None,
        }
    }

    /// A key in search mode.
    pub fn handle_search(&mut self, event: KeyEvent) -> (r: Outcome)
        requires
            old(self)@.wf(),
        ensures
            final(self)@ == old(self)@.search_key(event),
            r == Outcome::Continue,
            final(self)@.wf(),
    {
        match event.code {
            KeyCode::Esc => {
                self.mode = Mode::Normal;
                self.search_query = String::new();
            },
            KeyCode::Char(c) => string_push(&mut self.search_query, c),
            KeyCode::Backspace => {
                if self.search_query.as_str().is_empty() {
                    self.mode = Mode::Normal;
                } else {
                    let _ = string_pop(&mut self.search_query);
                }
            },
            KeyCode::Enter => {
                let mut query = String::new();
                std::mem::swap(&mut query, &mut self.search_query);
                self.last_search = query;
                self.mode = Mode::Normal;
                self.find_next();
                return Outcome::Continue;
            },
            _ => {},
        }
        assert(self@ =~= old(self)@.search_key(event));
        Outcome::Continue
    }

    /// A key in visual mode.
    pub fn handle_visual(&mut self, event: KeyEvent) -> (r: Outcome)
        requires
            old(self)@.wf(),
        ensures
            final(self)@ == old(self)@.visual_key(event),
            r == Outcome::Continue,
            final(self)@.wf(),
    {
        self.clear_status();
        match event.code {
            KeyCode::Esc | KeyCode::Char('v') => {
                self.selection_anchor = None;
                self.mode = Mode::Normal;
            },
            KeyCode::Char('h') => self.move_cursor(Direction::Left),
            KeyCode::Char('j') => self.move_cursor(Direction::Down),
            KeyCode::Char('k') => self.move_cursor(Direction::Up),
            KeyCode::Char('l') => self.move_cursor(Direction::Right),
            KeyCode::Char('w') => self.move_word_forward(),
            KeyCode::Char('b') => self.move_word_backward(),
            KeyCode::Char('d') => self.delete_selection(),
            _ => {},
        }
        assert(self@ =~= old(self)@.visual_key(event));
        Outcome::Continue
    }
}

} // verus!

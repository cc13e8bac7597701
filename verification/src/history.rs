//! Undo and redo: stacks of earlier and later states of the buffer and cursor.
use vstd::prelude::*;
use crate::editor::{Editor, EditorView, Snapshot, SnapshotView};

verus! {

impl EditorView {
    /// The buffer and cursor of this state.
    pub open spec fn snapshot(self) -> SnapshotView {
        SnapshotView { lines: self.lines, cursor: self.cursor }
    }

    /// This state with the given buffer and cursor.
    pub open spec fn restore(self, snap: SnapshotView) -> EditorView {
        EditorView { lines: snap.lines, cursor: snap.cursor, ..self }
    }

    /// Records the current buffer and cursor for undo, and forgets what could
    /// be redone.
    pub open spec fn push_undo(self) -> EditorView {
        EditorView { undo: self.undo.push(self.snapshot()), redo: Seq::empty(), ..self }
    }

    /// Goes back to the last recorded state, keeping the current one for redo;
    /// with nothing recorded, says so in the status line.
    pub open spec fn undo(self) -> EditorView {
        if self.undo.len() > 0 {
            EditorView {
                undo: self.undo.drop_last(),
                redo: self.redo.push(self.snapshot()),
                ..self.restore(self.undo.last())
            }
        } else {
            self.with_status("already at oldest change"@)
        }
    }

    /// Goes forward to the last undone state, keeping the current one for
    /// undo; with nothing undone, changes nothing.
    pub open spec fn redo(self) -> EditorView {
        if self.redo.len() > 0 {
            EditorView {
                redo: self.redo.drop_last(),
                undo: self.undo.push(self.snapshot()),
                ..self.restore(self.redo.last())
            }
        } else {
            self
        }
    }
}

impl Editor {
    /// A copy of the buffer and cursor.
    pub fn snapshot(&self) -> (s: Snapshot)
        ensures
            s@ == self@.snapshot(),
    {
        let buffer = self.buffer.clone();
        assert(buffer.deep_view() =~= self.buffer.deep_view());
        Snapshot { buffer, cursor: self.cursor }
    }

    /// Records the current buffer and cursor for undo, and clears redo.
    pub fn push_undo(&mut self)
        requires
            old(self)@.wf(),
        ensures
            final(self)@ == old(self)@.push_undo(),
            final(self)@.wf(),
    {
        let snap = self.snapshot();
        self.undo_stack.push(snap);
        self.redo_stack.clear();
        assert(self@.undo =~= old(self)@.undo.push(old(self)@.snapshot()));
        assert(self@.redo =~= Seq::<SnapshotView>::empty());
        assert(self@ =~= old(self)@.push_undo());
    }

    /// Restores the last recorded buffer and cursor, keeping the current ones
    /// for redo.
    pub fn undo(&mut self)
        requires
            old(self)@.wf(),
        ensures
            final(self)@ == old(self)@.undo(),
            final(self)@.wf(),
    {
        if let Some(snap) = self.undo_stack.pop() {
            let current = self.snapshot();
            self.buffer = snap.buffer;
            self.cursor = snap.cursor;
            self.redo_stack.push(current);
            assert(self@.undo =~= old(self)@.undo.drop_last());
            assert(self@.redo =~= old(self)@.redo.push(old(self)@.snapshot()));
            assert(old(self)@.undo[old(self)@.undo.len() - 1].wf());
        } else {
            self.status = String::from_str("already at oldest change");
        }
        assert(self@ =~= old(self)@.undo());
        self.assert_invariants();
    }

    /// Restores the last undone buffer and cursor, keeping the current ones
    /// for undo.
    pub fn redo(&mut self)
        requires
            old(self)@.wf(),
        ensures
            final(self)@ == old(self)@.redo(),
            final(self)@.wf(),
    {
        if let Some(snap) = self.redo_stack.pop() {
            let current = self.snapshot();
            self.buffer = snap.buffer;
            self.cursor = snap.cursor;
            self.undo_stack.push(current);
            assert(self@.redo =~= old(self)@.redo.drop_last());
            assert(self@.undo =~= old(self)@.undo.push(old(self)@.snapshot()));
            assert(old(self)@.redo[old(self)@.redo.len() - 1].wf());
        }
        assert(self@ =~= old(self)@.redo());
        self.assert_invariants();
    }
}

} // verus!

//! A modal text editor: its buffer of lines, cursor motions, edits, undo
//! history, search, key handling and screen layout.

pub mod text;
mod strings;
pub mod editor;
pub mod history;
pub mod motion;
pub mod buffer_ops;
pub mod search;
pub mod handlers;
pub mod render;
pub mod laws;
pub mod search_laws;
pub mod key_laws;
pub mod edit_laws;

pub use editor::{Direction, Editor, EditorView, Mode, Operator, PendingOp, Position, Snapshot, SnapshotView};

//! Discrete editor actions: what a decoded key sequence or a command-line
//! command resolves to.

use vstd::prelude::*;

use crate::builtin::BuiltinAction;

verus! {

/// A top-level action bound to a key sequence or a command.
#[derive(Clone, Copy, Debug, PartialEq, Eq, Structural)]
pub enum Action {
    Quit,
    Builtin(BuiltinAction),
}

/// An action addressed to the editor itself.
#[derive(Clone, Copy, Debug, PartialEq, Eq, Structural)]
pub enum EditorAction {
    Quit,
    Window(WindowAction),
    Buffer(BufferAction),
}

/// An action addressed to a window.
#[derive(Clone, Copy, Debug, PartialEq, Eq, Structural)]
pub enum WindowAction {
    Cursor(CursorAction),
    Edit(EditAction),
}

/// A cursor movement.
#[derive(Clone, Copy, Debug, PartialEq, Eq, Structural)]
pub enum CursorAction {
    MoveUp,
    MoveDown,
    MoveLeft,
    MoveRight,
    MoveToStartOfLine,
    MoveToEndOfLine,
    MoveToStartOfBuffer,
    MoveToEndOfBuffer,
}

/// An edit started from normal mode.
#[derive(Clone, Copy, Debug, PartialEq, Eq, Structural)]
pub enum EditAction {
    RemoveChar,
    RemoveLine,
    OpenLineBelow,
    OpenLineAbove,
    InsertLineStart,
    AppendLineEnd,
}

/// An action addressed to a buffer.
#[derive(Clone, Copy, Debug, PartialEq, Eq, Structural)]
pub enum BufferAction {
    Save,
}

} // verus!

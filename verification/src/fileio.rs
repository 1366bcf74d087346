//! The file layer, an external collaborator: whole-file reads and writes.
//!
//! The editor core never touches the file system itself; the application
//! supplies an implementation of this trait and the core states what holds
//! of the editor state whatever a read or a write returns.

use vstd::prelude::*;

verus! {

/// Whole-file reads and writes, supplied by the surrounding application.
/// Nothing is promised of the outcomes: a read may fail or return any
/// text, and a write may fail.
pub trait FileIo {
    /// Read the whole file at `path` as text.
    fn read(&mut self, path: &String) -> Result<String, ()>;

    /// Write `content` as the whole new contents of the file at `path`.
    fn write(&mut self, path: &String, content: &String) -> Result<(), ()>;
}

} // verus!

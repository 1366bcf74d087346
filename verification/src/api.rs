//! The closed request/response protocol.
//!
//! One variant per supported operation: mode changes, file open/save,
//! line/char/content queries and mutations, cursor and selection queries,
//! and cursor movement. A request that targets a buffer or a window
//! carries an optional handle; an omitted handle resolves to the active
//! window (or its buffer) when the request is dispatched. A void request
//! and a request whose referent is missing both answer with an absent
//! response kind.

use vstd::prelude::*;
use vstd::string::*;

use crate::vec2::{IVec2, UVec2};

verus! {

/// Handle of one open buffer; monotonically assigned, never reused.
#[derive(Clone, Copy, Debug, Hash, PartialEq, Eq, Structural)]
pub struct BufferId(pub usize);

/// Handle of one open window; monotonically assigned, never reused.
#[derive(Clone, Copy, Debug, Hash, PartialEq, Eq, Structural)]
pub struct WindowId(pub usize);

/// A request sequence number, scoped to one originating connection. It
/// only correlates a response to its request; it is never a resource
/// identity.
#[derive(Clone, Copy, Debug, Hash, PartialEq, Eq, Structural)]
pub struct RequestId(pub usize);

/// An absolute coordinate for cursor movement: a number, or one end of
/// the line or buffer.
#[derive(Clone, Copy, Debug, PartialEq, Eq, Structural)]
pub enum Position {
    Number(usize),
    Start,
    End,
}

/// The global editor mode, shared by every window.
#[derive(Clone, Copy, Debug, PartialEq, Eq, Structural)]
pub enum Mode {
    Normal,
    Visual,
    Insert(bool),
    Command,
}

impl Mode {
    /// The status-line label of the mode.
    pub open spec fn spec_label(&self) -> Seq<char> {
        match self {
            Mode::Normal => "NORMAL"@,
            Mode::Visual => "VISUAL"@,
            Mode::Insert(false) => "INSERT"@,
            Mode::Insert(true) => "INSERT (APPEND)"@,
            Mode::Command => "COMMAND"@,
        }
    }

    /// The status-line label of the mode.
    pub fn label(&self) -> (r: String)
        ensures
            r@ == self.spec_label(),
    {
        match self {
            Mode::Normal => String::from_str("NORMAL"),
            Mode::Visual => String::from_str("VISUAL"),
            Mode::Insert(false) => String::from_str("INSERT"),
            Mode::Insert(true) => String::from_str("INSERT (APPEND)"),
            Mode::Command => String::from_str("COMMAND"),
        }
    }

    /// Whether this is one of the two insert modes.
    pub open spec fn is_insert(&self) -> bool {
        self is Insert
    }
}

impl Default for Mode {
    fn default() -> (r: Mode)
        ensures
            r == Mode::Normal,
    {
        Mode::Normal
    }
}

/// One protocol operation. Omitted handles resolve to the active window
/// or its buffer at dispatch time.
#[derive(Clone, Debug)]
pub enum CuprumApiRequestKind {
    ChangeMode(Mode),
    OpenFile(Option<String>),
    SaveBuffer(Option<BufferId>, Option<String>),
    GetLineCount(Option<BufferId>),
    GetLineLength(Option<BufferId>, usize),
    GetChar(Option<BufferId>, UVec2),
    GetLine(Option<BufferId>, usize),
    GetAllLines(Option<BufferId>),
    GetContent(Option<BufferId>),
    Insert(Option<BufferId>, usize, String),
    InsertChar(Option<BufferId>, UVec2, char),
    InsertLine(Option<BufferId>, usize, String),
    ReplaceChar(Option<BufferId>, UVec2, char),
    ReplaceLine(Option<BufferId>, usize, String),
    ReplaceAllLines(Option<BufferId>, Vec<String>),
    ReplaceContent(Option<BufferId>, String),
    Remove(Option<BufferId>, UVec2, UVec2),
    RemoveChar(Option<BufferId>, UVec2),
    RemoveLine(Option<BufferId>, usize),
    SplitLine(Option<BufferId>, UVec2),
    JoinLines(Option<BufferId>, usize),
    GetCursor(Option<WindowId>),
    GetVisualStart(Option<WindowId>),
    MoveBy(Option<WindowId>, IVec2),
    MoveToX(Option<WindowId>, Position),
    MoveToY(Option<WindowId>, Position),
}

/// The payload of a successful non-void response, one variant per
/// operation that returns a value.
#[derive(Clone, Debug)]
pub enum CuprumApiResponseKind {
    OpenFile(BufferId),
    GetLineCount(usize),
    GetLineLength(usize),
    GetChar(char),
    GetLine(String),
    GetAllLines(Vec<String>),
    GetContent(String),
    ReplaceChar(char),
    ReplaceLine(String),
    ReplaceAllLines(Vec<String>),
    ReplaceContent(String),
    RemoveChar(char),
    RemoveLine(String),
    GetCursor(UVec2),
    GetVisualStart(UVec2),
}

/// A request envelope: a connection-scoped sequence number and the
/// operation.
#[derive(Clone, Debug)]
pub struct CuprumApiRequest {
    pub id: RequestId,
    pub kind: CuprumApiRequestKind,
}

/// A response envelope: the sequence number of the request it answers and
/// the payload, absent for void operations and missing referents.
#[derive(Clone, Debug)]
pub struct CuprumApiResponse {
    pub id: RequestId,
    pub kind: Option<CuprumApiResponseKind>,
}

/// A transport that carries one request to the dispatcher and returns its
/// response. Implementations live with the application (an in-process
/// queue, a child process's standard streams); nothing is promised of
/// what they return.
pub trait CuprumApiProvider {
    /// Send one request and wait for its response; an error means the
    /// transport itself failed.
    fn send_message(&mut self, kind: CuprumApiRequestKind) -> Result<
        Option<CuprumApiResponseKind>,
        (),
    >;
}

/// A marker for the protocol as a whole; the dispatcher and the hosts
/// hold no shared state through it.
pub struct CuprumApiManager {}

} // verus!

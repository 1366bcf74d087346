//! The editor state: the registries of buffers and windows, the single
//! active window, the global mode, and the command-line text — and the
//! protocol dispatcher that executes one request at a time against it.
//!
//! The surrounding application holds one `EditorState` behind one lock;
//! every protocol request is dispatched against it for the duration of
//! that request, and mutation never happens outside the dispatcher and
//! the editor's own mode/command handling.

use vstd::prelude::*;
use vstd::string::*;

use crate::action::Action;
use crate::api::{
    BufferId, CuprumApiRequest, CuprumApiRequestKind, CuprumApiResponse, CuprumApiResponseKind,
    Mode, Position, WindowId,
};
use crate::buffer::{range_ordered, spec_remove_range, Buffer};
use crate::commands::CommandMap;
use crate::fileio::FileIo;
use crate::input::KeyCode;
use crate::managers::{
    lemma_buffer_manager_reg, lemma_window_manager_reg, BufferManager, WindowManager,
};
use crate::strings::{char_to_string, views_of};
use crate::text::{flat_of, split_of, valid_pos};
use crate::vec2::{IVec2, UVec2};
use crate::window::{
    spec_effective_cursor,
    spec_clamped_for_move, spec_max_col, spec_move_target, spec_sync_scroll, Window,
};

verus! {

/// Registries of buffers and windows, the active window, the global mode,
/// and the command-line text.
#[derive(Debug)]
pub struct EditorState {
    buffer_manager: BufferManager,
    window_manager: WindowManager,
    active_window: WindowId,
    mode: Mode,
    command_buf: String,
    command_map: CommandMap,
}

impl EditorState {
    /// The open buffers, by handle.
    pub closed spec fn buffers(&self) -> Map<usize, Buffer> {
        self.buffer_manager.m()
    }

    /// The open windows, by handle.
    pub closed spec fn windows(&self) -> Map<usize, Window> {
        self.window_manager.m()
    }

    /// The handle of the active window.
    pub closed spec fn active(&self) -> usize {
        self.active_window.0
    }

    /// The global mode.
    pub closed spec fn spec_mode(&self) -> Mode {
        self.mode
    }

    /// The command-line text.
    pub closed spec fn command(&self) -> Seq<char> {
        self.command_buf@
    }

    /// The command table.
    pub closed spec fn spec_command_get(&self, name: Seq<char>) -> Option<Action> {
        self.command_map.spec_get(name)
    }

    /// Both registries are well formed.
    pub closed spec fn wf(&self) -> bool {
        self.buffer_manager.wf() && self.window_manager.wf()
    }

    /// The next buffer handle to assign.
    pub closed spec fn buffer_next(&self) -> int {
        self.buffer_manager.next_handle()
    }

    /// The next window handle to assign.
    pub closed spec fn window_next(&self) -> int {
        self.window_manager.next_handle()
    }

    /// The active window's handle, when the active window exists.
    pub open spec fn active_window_key(&self) -> Option<usize> {
        if self.windows().contains_key(self.active()) {
            Some(self.active())
        } else {
            None
        }
    }

    /// What an optional window handle resolves to: the named window, or
    /// the active one; absent when the referent does not exist.
    pub open spec fn resolved_window(&self, ow: Option<WindowId>) -> Option<usize> {
        match ow {
            Some(w) => if self.windows().contains_key(w.0) {
                Some(w.0)
            } else {
                None
            },
            None => self.active_window_key(),
        }
    }

    /// What an optional buffer handle resolves to: the named buffer, or
    /// the active window's buffer; absent when the referent does not
    /// exist.
    pub open spec fn resolved_buffer(&self, ob: Option<BufferId>) -> Option<usize> {
        match ob {
            Some(b) => if self.buffers().contains_key(b.0) {
                Some(b.0)
            } else {
                None
            },
            None => match self.active_window_key() {
                Some(w) => {
                    let b = self.windows()[w].spec_buffer_id().0;
                    if self.buffers().contains_key(b) {
                        Some(b)
                    } else {
                        None
                    }
                },
                None => None,
            },
        }
    }

    /// The window a resolved window views, when that buffer exists.
    pub open spec fn buffer_of_window(&self, w: usize) -> Option<usize> {
        let b = self.windows()[w].spec_buffer_id().0;
        if self.buffers().contains_key(b) {
            Some(b)
        } else {
            None
        }
    }

    /// Nothing observable changed.
    pub open spec fn spec_unchanged(&self, post: &EditorState) -> bool {
        &&& post.buffers() == self.buffers()
        &&& post.windows() == self.windows()
        &&& post.active() == self.active()
        &&& post.spec_mode() == self.spec_mode()
        &&& post.command() == self.command()
    }

    /// Only buffer `k` may have changed: every other component and every
    /// other buffer is as it was, and the set of buffers is the same.
    pub open spec fn same_except_buffer(&self, post: &EditorState, k: usize) -> bool {
        &&& post.windows() == self.windows()
        &&& post.active() == self.active()
        &&& post.spec_mode() == self.spec_mode()
        &&& post.command() == self.command()
        &&& post.buffers().dom() == self.buffers().dom()
        &&& forall|j: usize|
            self.buffers().contains_key(j) && j != k ==> post.buffers()[j] == self.buffers()[j]
    }

    /// Only window `k` may have changed: every other component and every
    /// other window is as it was, and the set of windows is the same.
    pub open spec fn same_except_window(&self, post: &EditorState, k: usize) -> bool {
        &&& post.buffers() == self.buffers()
        &&& post.active() == self.active()
        &&& post.spec_mode() == self.spec_mode()
        &&& post.command() == self.command()
        &&& post.windows().dom() == self.windows().dom()
        &&& forall|j: usize|
            self.windows().contains_key(j) && j != k ==> post.windows()[j] == self.windows()[j]
    }

    /// A fresh editor state: no buffers, no windows, normal mode, an
    /// empty command line, and the stock command table. The active-window
    /// handle points at the first window that will be opened.
    pub fn new() -> (r: EditorState)
        ensures
            r.buffers() == Map::<usize, Buffer>::empty(),
            r.windows() == Map::<usize, Window>::empty(),
            r.active() == 0,
            r.spec_mode() == Mode::Normal,
            r.command() == Seq::<char>::empty(),
            r.spec_command_get("q"@) == Some(Action::Quit),
            r.buffer_next() == 0,
            r.window_next() == 0,
            r.wf(),
    {
        EditorState {
            buffer_manager: BufferManager::new(),
            window_manager: WindowManager::new(),
            active_window: WindowId(0),
            mode: Mode::Normal,
            command_buf: String::new(),
            command_map: CommandMap::default(),
        }
    }

    /// Register a buffer and open a window over it with the given
    /// viewport size. The fresh handles are the next buffer and window
    /// handles; the result is absent — and nothing changes — only when a
    /// handle space is exhausted.
    pub fn open_buffer_with_window(&mut self, buf: Buffer, size: UVec2) -> (r: Option<
        (BufferId, WindowId),
    >)
        requires
            old(self).wf(),
        ensures
            final(self).wf(),
            final(self).active() == old(self).active(),
            final(self).spec_mode() == old(self).spec_mode(),
            final(self).command() == old(self).command(),
            r is Some <==> old(self).buffer_next() < usize::MAX && old(self).window_next()
                < usize::MAX,
            match r {
                Some((b, w)) => {
                    &&& b.0 == old(self).buffer_next()
                    &&& w.0 == old(self).window_next()
                    &&& final(self).buffer_next() == old(self).buffer_next() + 1
                    &&& final(self).window_next() == old(self).window_next() + 1
                    &&& !old(self).buffers().contains_key(b.0)
                    &&& !old(self).windows().contains_key(w.0)
                    &&& final(self).buffers() == old(self).buffers().insert(b.0, buf)
                    &&& final(self).windows().dom() == old(self).windows().dom().insert(w.0)
                    &&& final(self).windows().contains_key(w.0)
                    &&& final(self).windows()[w.0].spec_buffer_id() == b
                    &&& final(self).windows()[w.0].spec_cursor() == (UVec2 { x: 0usize, y: 0usize })
                    &&& final(self).windows()[w.0].spec_anchor() is None
                    &&& final(self).windows()[w.0].spec_scroll() == 0
                    &&& final(self).windows()[w.0].spec_size() == size
                    &&& forall|j: usize|
                        old(self).windows().contains_key(j) && j != w.0 ==> final(self).windows()[j] == old(self).windows()[j]
                },
                None => old(self).spec_unchanged(final(self)) && final(self).buffer_next() == old(
                    self,
                ).buffer_next() && final(self).window_next() == old(self).window_next(),
            },
    {
        if self.buffer_manager.reg.next_value() == usize::MAX || self.window_manager.reg.next_value()
            == usize::MAX {
            proof {
                lemma_buffer_manager_reg(&self.buffer_manager);
                lemma_window_manager_reg(&self.window_manager);
            }
            return None;
        }
        proof {
            lemma_buffer_manager_reg(&self.buffer_manager);
            lemma_window_manager_reg(&self.window_manager);
        }
        let bid = match self.buffer_manager.open_buffer(buf) {
            Some(b) => b,
            None => {
                return None;
            },
        };
        let win = Window::new(bid, size);
        match self.window_manager.open_window(win) {
            Some(w) => Some((bid, w)),
            None => None,
        }
    }

    /// The active window, when it exists.
    pub fn get_active_window(&self) -> (r: Option<&Window>)
        requires
            self.wf(),
        ensures
            match r {
                Some(w) => self.active_window_key() == Some(self.active()) && *w == self.windows()[self.active()],
                None => self.active_window_key() is None,
            },
    {
        self.window_manager.get_window(self.active_window)
    }

    /// The buffer under a handle, when it is open.
    pub fn get_buffer(&self, id: BufferId) -> (r: Option<&Buffer>)
        requires
            self.wf(),
        ensures
            match r {
                Some(b) => self.buffers().contains_key(id.0) && *b == self.buffers()[id.0],
                None => !self.buffers().contains_key(id.0),
            },
    {
        self.buffer_manager.get_buffer(id)
    }

    /// The window under a handle, when it is open.
    pub fn get_window(&self, id: WindowId) -> (r: Option<&Window>)
        requires
            self.wf(),
        ensures
            match r {
                Some(w) => self.windows().contains_key(id.0) && *w == self.windows()[id.0],
                None => !self.windows().contains_key(id.0),
            },
    {
        self.window_manager.get_window(id)
    }

    /// The global mode.
    pub fn get_mode(&self) -> (r: Mode)
        ensures
            r == self.spec_mode(),
    {
        self.mode
    }

    /// The command-line text.
    pub fn get_command_line(&self) -> (r: String)
        ensures
            r@ == self.command(),
    {
        self.command_buf.clone()
    }

    /// Set the viewport size of the active window (done by the renderer).
    pub fn set_active_window_size(&mut self, size: UVec2)
        requires
            old(self).wf(),
        ensures
            final(self).wf(),
            match old(self).active_window_key() {
                Some(w) => {
                    &&& old(self).same_except_window(final(self), w)
                    &&& final(self).windows()[w].spec_size() == size
                    &&& final(self).windows()[w].spec_cursor() == old(self).windows()[w].spec_cursor()
                    &&& final(self).windows()[w].spec_anchor() == old(self).windows()[w].spec_anchor()
                    &&& final(self).windows()[w].spec_scroll() == old(self).windows()[w].spec_scroll()
                    &&& final(self).windows()[w].spec_position() == old(self).windows()[w].spec_position()
                    &&& final(self).windows()[w].spec_buffer_id() == old(self).windows()[w].spec_buffer_id()
                },
                None => old(self).spec_unchanged(final(self)),
            },
    {
        proof {
            lemma_window_manager_reg(&self.window_manager);
        }
        match self.window_manager.reg.index_of(self.active_window.0) {
            Some(i) => {
                let win = self.window_manager.reg.at_mut(i);
                win.set_size(size);
                proof {
                    lemma_window_manager_reg(&self.window_manager);
                    assert(self.windows().dom() =~= old(self).windows().dom());
                }
            },
            None => {},
        }
    }
}

/// What setting the global mode does: the mode becomes `m`; entering an
/// append-insert first advances the active window's cursor one column to
/// the right (a relative move under the old mode); entering visual mode
/// anchors a selection at the active window's cursor, and leaving visual
/// mode drops the anchor. Buffers, the active handle and the command
/// line are untouched, as is everything when no active window exists
/// (except the mode itself).
pub open spec fn spec_set_mode(pre: &EditorState, post: &EditorState, m: Mode) -> bool {
    &&& post.spec_mode() == m
    &&& post.buffers() == pre.buffers()
    &&& post.active() == pre.active()
    &&& post.command() == pre.command()
    &&& match pre.active_window_key() {
        None => post.windows() == pre.windows(),
        Some(w) => {
            let w0 = pre.windows()[w];
            let w1 = post.windows()[w];
            &&& post.windows().dom() == pre.windows().dom()
            &&& forall|j: usize|
                pre.windows().contains_key(j) && j != w ==> post.windows()[j] == pre.windows()[j]
            &&& w1.spec_size() == w0.spec_size()
            &&& w1.spec_position() == w0.spec_position()
            &&& w1.spec_buffer_id() == w0.spec_buffer_id()
            &&& w1.spec_anchor() == if m is Visual {
                Some(w0.spec_cursor())
            } else {
                None::<UVec2>
            }
            &&& if m == Mode::Insert(true) && pre.buffer_of_window(w) is Some {
                let lines = pre.buffers()[pre.buffer_of_window(w).unwrap()].lines();
                match spec_move_target(w0.spec_cursor(), lines, pre.spec_mode(), IVec2 { x: 1isize, y: 0isize }) {
                    Some(p) => w1.spec_cursor() == p && w1.spec_scroll() == spec_sync_scroll(
                        p.y as int,
                        w0.spec_scroll(),
                        w0.spec_size().y as int,
                    ),
                    None => w1.spec_cursor() == spec_clamped_for_move(
                        w0.spec_cursor(),
                        lines,
                        pre.spec_mode(),
                        IVec2 { x: 1isize, y: 0isize },
                    ) && w1.spec_scroll() == w0.spec_scroll(),
                }
            } else {
                w1.spec_cursor() == w0.spec_cursor() && w1.spec_scroll() == w0.spec_scroll()
            }
        },
    }
}

/// What one command-mode key does: the contract of
/// `EditorState::process_command`, factored out so the application loop
/// can state its own behaviour as a composition of it.
pub open spec fn spec_command_effect(
    pre: &EditorState,
    post: &EditorState,
    key: KeyCode,
    r: Option<Action>,
) -> bool {
    match key {
        KeyCode::Esc => r is None && spec_command_exit(pre, post) && post.command()
            == Seq::<char>::empty(),
        KeyCode::Backspace => if pre.command().len() == 0 {
            r is None && spec_command_exit(pre, post) && post.command() == Seq::<char>::empty()
        } else {
            r is None && pre.spec_unchanged_but_command(post) && post.command()
                == pre.command().drop_last()
        },
        KeyCode::Char(ch) => if ch == '\n' {
            r == pre.spec_command_get(pre.command()) && spec_command_exit(pre, post)
                && post.command() == Seq::<char>::empty()
        } else {
            r is None && pre.spec_unchanged_but_command(post) && post.command()
                == pre.command().push(ch)
        },
        _ => r is None && pre.spec_unchanged(post),
    }
}

/// The action a command-mode key emits: the command table's binding of
/// the accumulated line on enter, nothing otherwise.
pub open spec fn spec_command_emit(pre: &EditorState, key: KeyCode) -> Option<Action> {
    match key {
        KeyCode::Char(ch) => if ch == '\n' {
            pre.spec_command_get(pre.command())
        } else {
            None
        },
        _ => None,
    }
}

/// What abandoning command mode does: back to normal mode with the
/// selection anchor dropped from the active window; buffers, the cursor,
/// the scroll offset and the active handle are untouched.
pub open spec fn spec_command_exit(pre: &EditorState, post: &EditorState) -> bool {
    &&& post.spec_mode() == Mode::Normal
    &&& post.buffers() == pre.buffers()
    &&& post.active() == pre.active()
    &&& match pre.active_window_key() {
        None => post.windows() == pre.windows(),
        Some(w) => {
            let w0 = pre.windows()[w];
            let w1 = post.windows()[w];
            &&& post.windows().dom() == pre.windows().dom()
            &&& forall|j: usize|
                pre.windows().contains_key(j) && j != w ==> post.windows()[j] == pre.windows()[j]
            &&& w1.spec_anchor() is None
            &&& w1.spec_cursor() == w0.spec_cursor()
            &&& w1.spec_scroll() == w0.spec_scroll()
            &&& w1.spec_size() == w0.spec_size()
            &&& w1.spec_position() == w0.spec_position()
            &&& w1.spec_buffer_id() == w0.spec_buffer_id()
        },
    }
}

impl EditorState {
    /// Set the global mode, with the side effects `spec_set_mode` states.
    pub fn set_mode(&mut self, m: Mode)
        requires
            old(self).wf(),
        ensures
            final(self).wf(),
            spec_set_mode(old(self), final(self), m),
    {
        proof {
            lemma_window_manager_reg(&self.window_manager);
            lemma_buffer_manager_reg(&self.buffer_manager);
        }
        let cur_mode = self.mode;
        match self.window_manager.reg.index_of(self.active_window.0) {
            Some(i) => {
                let bid = self.window_manager.reg.items[i].1.get_buffer_id();
                let buf = self.buffer_manager.reg.get(bid.0);
                let win = self.window_manager.reg.at_mut(i);
                if let Mode::Insert(true) = m {
                    match buf {
                        Some(b) => {
                            win.move_by(b, cur_mode, IVec2 { x: 1, y: 0 });
                        },
                        None => {},
                    }
                }
                if let Mode::Visual = m {
                    win.set_anchor_here();
                } else {
                    win.clear_anchor();
                }
                proof {
                    lemma_window_manager_reg(&self.window_manager);
                    assert(self.windows().dom() =~= old(self).windows().dom());
                }
            },
            None => {},
        }
        self.mode = m;
    }

    /// Handle one key of command mode: printable characters extend the
    /// command line; backspace shortens it, leaving command mode when it
    /// is already empty; escape abandons it; enter looks the line up in
    /// the command table and emits the bound action on a match, returning
    /// to normal mode and clearing the line either way.
    #[verifier::spinoff_prover]
    #[verifier::rlimit(100)]
    pub fn process_command(&mut self, key: KeyCode) -> (r: Option<Action>)
        requires
            old(self).wf(),
        ensures
            final(self).wf(),
            spec_command_effect(old(self), final(self), key, r),
            r == spec_command_emit(old(self), key),
    {
        match key {
            KeyCode::Esc => {
                self.command_buf = String::new();
                self.set_mode(Mode::Normal);
                proof {
                    assert(self.command_buf@ =~= Seq::<char>::empty());
                }
                None
            },
            KeyCode::Backspace => {
                let n = self.command_buf.as_str().unicode_len();
                if n == 0 {
                    self.command_buf = String::new();
                    self.set_mode(Mode::Normal);
                    proof {
                        assert(self.command_buf@ =~= Seq::<char>::empty());
                        assert(old(self).command() =~= Seq::<char>::empty());
                    }
                    None
                } else {
                    let shorter = self.command_buf.as_str().substring_char(0, n - 1).to_owned();
                    self.command_buf = shorter;
                    proof {
                        assert(self.command_buf@ =~= old(self).command().drop_last());
                    }
                    None
                }
            },
            KeyCode::Char(ch) => {
                if ch == '\n' {
                    let action = match self.command_map.get(&self.command_buf) {
                        Some(a) => Some(*a),
                        None => None,
                    };
                    self.command_buf = String::new();
                    self.set_mode(Mode::Normal);
                    proof {
                        assert(self.command_buf@ =~= Seq::<char>::empty());
                    }
                    action
                } else {
                    let cs = char_to_string(ch);
                    self.command_buf.append(cs.as_str());
                    proof {
                        assert(self.command_buf@ =~= old(self).command().push(ch));
                    }
                    None
                }
            },
            _ => None,
        }
    }
}

/// A chain of intermediate states witnessing that responses came from
/// dispatching the requests one at a time, in arrival order: the chain
/// starts at `pre`, ends at `post`, and each consecutive pair is related
/// by `spec_request_effect` for the request and response at that
/// position.
pub open spec fn spec_batch_fold(
    states: Seq<EditorState>,
    pre: EditorState,
    post: EditorState,
    batch: Seq<CuprumApiRequest>,
    r: Seq<CuprumApiResponse>,
) -> bool {
    &&& states.len() == batch.len() + 1
    &&& states[0] == pre
    &&& states[batch.len() as int] == post
    &&& forall|i: int|
        0 <= i < batch.len() ==> #[trigger] spec_request_effect(
            &states[i],
            &states[i + 1],
            batch[i].kind,
            r[i].kind,
        )
}

/// What one dispatched request does: the response payload for the
/// operation and the exact state change, per request variant — the
/// contract of `EditorState::process_request`, factored out so that the
/// batch dispatcher and the application loop can state their own
/// behaviour as compositions of it.
pub open spec fn spec_request_effect(
    pre: &EditorState,
    post: &EditorState,
    req: CuprumApiRequestKind,
    r: Option<CuprumApiResponseKind>,
) -> bool {
    &&& (req matches CuprumApiRequestKind::ChangeMode(m) ==> r is None)
    &&& (req matches CuprumApiRequestKind::ChangeMode(m) ==> spec_set_mode(
                pre,
                post,
                m,
            ))
    &&& (req matches CuprumApiRequestKind::OpenFile(op) ==> (match r {
                    Some(rk) => match rk {
                        CuprumApiResponseKind::OpenFile(id) => {
                            &&& !pre.buffers().contains_key(id.0)
                            &&& post.buffers().dom() == pre.buffers().dom().insert(
                                id.0,
                            )
                            &&& forall|j: usize|
                                pre.buffers().contains_key(j) && j != id.0 ==> post.buffers()[j] == pre.buffers()[j]
                            &&& post.windows() == pre.windows()
                            &&& post.active() == pre.active()
                            &&& post.spec_mode() == pre.spec_mode()
                            &&& post.command() == pre.command()
                            &&& post.buffers()[id.0].wf()
                            &&& !post.buffers()[id.0].is_dirty()
                            &&& (op is None ==> post.buffers()[id.0].lines()
                                == Seq::<Seq<char>>::empty() && post.buffers()[id.0].backing() is None)
                            &&& (op matches Some(p) ==> post.buffers()[id.0].backing()
                                == Some(p@) && exists|t: Seq<char>|
                                post.buffers()[id.0].lines() == split_of(t))
                        },
                        _ => false,
                    },
                    None => pre.spec_unchanged(post),
                }))
    &&& (req matches CuprumApiRequestKind::SaveBuffer(ob, _path) ==> (r is None && match pre.resolved_buffer(ob) {
                    Some(k) => {
                        &&& pre.same_except_buffer(post, k)
                        &&& post.buffers()[k].lines() == pre.buffers()[k].lines()
                        &&& post.buffers()[k].backing() == pre.buffers()[k].backing()
                        &&& (post.buffers()[k].is_dirty() ==> pre.buffers()[k].is_dirty())
                    },
                    None => pre.spec_unchanged(post),
                }))
    &&& (req matches CuprumApiRequestKind::GetLineCount(ob) ==> (pre.spec_unchanged(post)
                    && match pre.resolved_buffer(ob) {
                    Some(k) => r == Some(
                        CuprumApiResponseKind::GetLineCount(
                            pre.buffers()[k].lines().len() as usize,
                        ),
                    ),
                    None => r is None,
                }))
    &&& (req matches CuprumApiRequestKind::GetLineLength(ob, y) ==> (pre.spec_unchanged(post)
                    && match pre.resolved_buffer(ob) {
                    Some(k) => if y < pre.buffers()[k].lines().len() {
                        r == Some(
                            CuprumApiResponseKind::GetLineLength(
                                pre.buffers()[k].lines()[y as int].len() as usize,
                            ),
                        )
                    } else {
                        r is None
                    },
                    None => r is None,
                }))
    &&& (req matches CuprumApiRequestKind::GetChar(ob, pos) ==> (pre.spec_unchanged(post)
                    && match pre.resolved_buffer(ob) {
                    Some(k) => if pos.y < pre.buffers()[k].lines().len() && pos.x < pre.buffers()[k].lines()[pos.y as int].len() {
                        r == Some(
                            CuprumApiResponseKind::GetChar(
                                pre.buffers()[k].lines()[pos.y as int][pos.x as int],
                            ),
                        )
                    } else {
                        r is None
                    },
                    None => r is None,
                }))
    &&& (req matches CuprumApiRequestKind::GetLine(ob, y) ==> (pre.spec_unchanged(post)
                    && match pre.resolved_buffer(ob) {
                    Some(k) => if y < pre.buffers()[k].lines().len() {
                        r matches Some(CuprumApiResponseKind::GetLine(l)) && l@ == pre.buffers()[k].lines()[y as int]
                    } else {
                        r is None
                    },
                    None => r is None,
                }))
    &&& (req matches CuprumApiRequestKind::GetAllLines(ob) ==> (pre.spec_unchanged(post)
                    && match pre.resolved_buffer(ob) {
                    Some(k) => r matches Some(CuprumApiResponseKind::GetAllLines(v)) && views_of(
                        v@,
                    ) == pre.buffers()[k].lines(),
                    None => r is None,
                }))
    &&& (req matches CuprumApiRequestKind::GetContent(ob) ==> (pre.spec_unchanged(post)
                    && match pre.resolved_buffer(ob) {
                    Some(k) => r matches Some(CuprumApiResponseKind::GetContent(s)) && s@
                        == flat_of(pre.buffers()[k].lines()),
                    None => r is None,
                }))
    &&& (req matches CuprumApiRequestKind::Insert(ob, i, text) ==> (r is None && match pre.resolved_buffer(ob) {
                    Some(k) => pre.same_except_buffer(post, k) && ({
                        let b0 = pre.buffers()[k];
                        let b1 = post.buffers()[k];
                        &&& b1.backing() == b0.backing()
                        &&& if i <= flat_of(b0.lines()).len() {
                            b1.lines() == split_of(
                                flat_of(b0.lines()).take(i as int) + text@ + flat_of(
                                    b0.lines(),
                                ).skip(i as int),
                            ) && b1.is_dirty()
                        } else {
                            b1.lines() == b0.lines() && b1.is_dirty() == b0.is_dirty()
                        }
                    }),
                    None => pre.spec_unchanged(post),
                }))
    &&& (req matches CuprumApiRequestKind::InsertChar(ob, pos, ch) ==> (r is None && match pre.resolved_buffer(ob) {
                    Some(k) => pre.same_except_buffer(post, k) && ({
                        let b0 = pre.buffers()[k];
                        let b1 = post.buffers()[k];
                        &&& b1.backing() == b0.backing()
                        &&& (valid_pos(b0.lines(), pos.x as int, pos.y as int) && ch != '\n'
                            ==> b1.lines() == b0.lines().update(
                            pos.y as int,
                            b0.lines()[pos.y as int].take(pos.x as int) + seq![ch]
                                + b0.lines()[pos.y as int].skip(pos.x as int),
                        ) && b1.is_dirty())
                        &&& (valid_pos(b0.lines(), pos.x as int, pos.y as int) && ch == '\n'
                            ==> b1.lines() == b0.lines().take(pos.y as int) + seq![
                            b0.lines()[pos.y as int].take(pos.x as int),
                            b0.lines()[pos.y as int].skip(pos.x as int),
                        ] + b0.lines().skip(pos.y + 1) && b1.is_dirty())
                        &&& (!valid_pos(b0.lines(), pos.x as int, pos.y as int) ==> b1.lines()
                            == b0.lines() && b1.is_dirty() == b0.is_dirty())
                    }),
                    None => pre.spec_unchanged(post),
                }))
    &&& (req matches CuprumApiRequestKind::InsertLine(ob, y, line) ==> (r is None && match pre.resolved_buffer(ob) {
                    Some(k) => pre.same_except_buffer(post, k) && ({
                        let b0 = pre.buffers()[k];
                        let b1 = post.buffers()[k];
                        &&& b1.backing() == b0.backing()
                        &&& (y <= b0.lines().len() ==> b1.lines() == b0.lines().take(y as int)
                            + split_of(line@) + b0.lines().skip(y as int) && b1.is_dirty())
                        &&& (y > b0.lines().len() ==> b1.lines() == b0.lines() && b1.is_dirty()
                            == b0.is_dirty())
                    }),
                    None => pre.spec_unchanged(post),
                }))
    &&& (req matches CuprumApiRequestKind::ReplaceChar(ob, pos, ch) ==> (match pre.resolved_buffer(
                    ob,
                ) {
                    Some(k) => pre.same_except_buffer(post, k) && ({
                        let b0 = pre.buffers()[k];
                        let b1 = post.buffers()[k];
                        &&& b1.backing() == b0.backing()
                        &&& if pos.y < b0.lines().len() && pos.x < b0.lines()[pos.y as int].len() {
                            &&& r == Some(
                                CuprumApiResponseKind::ReplaceChar(
                                    b0.lines()[pos.y as int][pos.x as int],
                                ),
                            )
                            &&& b1.is_dirty()
                            &&& (ch != '\n' ==> b1.lines() == b0.lines().update(
                                pos.y as int,
                                b0.lines()[pos.y as int].take(pos.x as int) + seq![ch]
                                    + b0.lines()[pos.y as int].skip(pos.x + 1),
                            ))
                            &&& (ch == '\n' ==> b1.lines() == b0.lines().take(pos.y as int)
                                + seq![
                                b0.lines()[pos.y as int].take(pos.x as int),
                                b0.lines()[pos.y as int].skip(pos.x + 1),
                            ] + b0.lines().skip(pos.y + 1))
                        } else {
                            r is None && b1.lines() == b0.lines() && b1.is_dirty()
                                == b0.is_dirty()
                        }
                    }),
                    None => r is None && pre.spec_unchanged(post),
                }))
    &&& (req matches CuprumApiRequestKind::ReplaceLine(ob, y, line) ==> (match pre.resolved_buffer(
                    ob,
                ) {
                    Some(k) => pre.same_except_buffer(post, k) && ({
                        let b0 = pre.buffers()[k];
                        let b1 = post.buffers()[k];
                        &&& b1.backing() == b0.backing()
                        &&& if y < b0.lines().len() {
                            &&& r matches Some(CuprumApiResponseKind::ReplaceLine(l)) && l@
                                == b0.lines()[y as int]
                            &&& b1.lines() == b0.lines().take(y as int) + split_of(line@)
                                + b0.lines().skip(y + 1)
                            &&& b1.is_dirty()
                        } else {
                            r is None && b1.lines() == b0.lines() && b1.is_dirty()
                                == b0.is_dirty()
                        }
                    }),
                    None => r is None && pre.spec_unchanged(post),
                }))
    &&& (req matches CuprumApiRequestKind::ReplaceAllLines(ob, lines) ==> (match pre.resolved_buffer(ob) {
                    Some(k) => pre.same_except_buffer(post, k) && ({
                        let b0 = pre.buffers()[k];
                        let b1 = post.buffers()[k];
                        &&& b1.backing() == b0.backing()
                        &&& r matches Some(CuprumApiResponseKind::ReplaceAllLines(v)) && views_of(
                            v@,
                        ) == b0.lines()
                        &&& b1.lines() == split_of(flat_of(views_of(lines@)))
                        &&& b1.is_dirty()
                    }),
                    None => r is None && pre.spec_unchanged(post),
                }))
    &&& (req matches CuprumApiRequestKind::ReplaceContent(ob, content) ==> (match pre.resolved_buffer(ob) {
                    Some(k) => pre.same_except_buffer(post, k) && ({
                        let b0 = pre.buffers()[k];
                        let b1 = post.buffers()[k];
                        &&& b1.backing() == b0.backing()
                        &&& r matches Some(CuprumApiResponseKind::ReplaceContent(s)) && s@
                            == flat_of(b0.lines())
                        &&& b1.lines() == split_of(content@)
                        &&& b1.is_dirty()
                    }),
                    None => r is None && pre.spec_unchanged(post),
                }))
    &&& (req matches CuprumApiRequestKind::Remove(ob, l, rr) ==> (r is None && match pre.resolved_buffer(ob) {
                    Some(k) => pre.same_except_buffer(post, k) && ({
                        let b0 = pre.buffers()[k];
                        let b1 = post.buffers()[k];
                        &&& b1.backing() == b0.backing()
                        &&& (range_ordered(b0.lines(), l, rr) ==> b1.lines() == spec_remove_range(
                            b0.lines(),
                            l,
                            rr,
                        ) && b1.is_dirty())
                        &&& (!range_ordered(b0.lines(), l, rr) ==> b1.lines() == b0.lines()
                            && b1.is_dirty() == b0.is_dirty())
                    }),
                    None => pre.spec_unchanged(post),
                }))
    &&& (req matches CuprumApiRequestKind::RemoveChar(ob, pos) ==> (match pre.resolved_buffer(ob) {
                    Some(k) => pre.same_except_buffer(post, k) && ({
                        let b0 = pre.buffers()[k];
                        let b1 = post.buffers()[k];
                        &&& b1.backing() == b0.backing()
                        &&& if pos.y < b0.lines().len() && pos.x < b0.lines()[pos.y as int].len() {
                            &&& r == Some(
                                CuprumApiResponseKind::RemoveChar(
                                    b0.lines()[pos.y as int][pos.x as int],
                                ),
                            )
                            &&& b1.lines() == b0.lines().update(
                                pos.y as int,
                                b0.lines()[pos.y as int].take(pos.x as int)
                                    + b0.lines()[pos.y as int].skip(pos.x + 1),
                            )
                            &&& b1.is_dirty()
                        } else {
                            r is None && b1.lines() == b0.lines() && b1.is_dirty()
                                == b0.is_dirty()
                        }
                    }),
                    None => r is None && pre.spec_unchanged(post),
                }))
    &&& (req matches CuprumApiRequestKind::RemoveLine(ob, y) ==> (match pre.resolved_buffer(ob) {
                    Some(k) => pre.same_except_buffer(post, k) && ({
                        let b0 = pre.buffers()[k];
                        let b1 = post.buffers()[k];
                        &&& b1.backing() == b0.backing()
                        &&& if y < b0.lines().len() {
                            &&& r matches Some(CuprumApiResponseKind::RemoveLine(l)) && l@
                                == b0.lines()[y as int]
                            &&& b1.lines() == b0.lines().remove(y as int)
                            &&& b1.is_dirty()
                        } else {
                            r is None && b1.lines() == b0.lines() && b1.is_dirty()
                                == b0.is_dirty()
                        }
                    }),
                    None => r is None && pre.spec_unchanged(post),
                }))
    &&& (req matches CuprumApiRequestKind::SplitLine(ob, pos) ==> (r is None && match pre.resolved_buffer(ob) {
                    Some(k) => pre.same_except_buffer(post, k) && ({
                        let b0 = pre.buffers()[k];
                        let b1 = post.buffers()[k];
                        &&& b1.backing() == b0.backing()
                        &&& (valid_pos(b0.lines(), pos.x as int, pos.y as int) ==> b1.lines()
                            == b0.lines().take(pos.y as int) + seq![
                            b0.lines()[pos.y as int].take(pos.x as int),
                            b0.lines()[pos.y as int].skip(pos.x as int),
                        ] + b0.lines().skip(pos.y + 1) && b1.is_dirty())
                        &&& (!valid_pos(b0.lines(), pos.x as int, pos.y as int) ==> b1.lines()
                            == b0.lines() && b1.is_dirty() == b0.is_dirty())
                    }),
                    None => pre.spec_unchanged(post),
                }))
    &&& (req matches CuprumApiRequestKind::JoinLines(ob, y) ==> (r is None && match pre.resolved_buffer(ob) {
                    Some(k) => pre.same_except_buffer(post, k) && ({
                        let b0 = pre.buffers()[k];
                        let b1 = post.buffers()[k];
                        &&& b1.backing() == b0.backing()
                        &&& (y + 1 < b0.lines().len() ==> b1.lines() == b0.lines().take(y as int)
                            + seq![b0.lines()[y as int] + b0.lines()[y + 1]] + b0.lines().skip(
                            y + 2,
                        ) && b1.is_dirty())
                        &&& (y + 1 >= b0.lines().len() ==> b1.lines() == b0.lines()
                            && b1.is_dirty() == b0.is_dirty())
                    }),
                    None => pre.spec_unchanged(post),
                }))
    &&& (req matches CuprumApiRequestKind::GetCursor(ow) ==> (pre.spec_unchanged(post)
                    && match pre.resolved_window(ow) {
                    Some(w) => match pre.buffer_of_window(w) {
                        Some(b) => r == Some(
                            CuprumApiResponseKind::GetCursor(
                                spec_effective_cursor(
                                    pre.windows()[w].spec_cursor(),
                                    pre.buffers()[b].lines(),
                                    pre.spec_mode(),
                                ),
                            ),
                        ),
                        None => r == Some(
                            CuprumApiResponseKind::GetCursor(pre.windows()[w].spec_cursor()),
                        ),
                    },
                    None => r is None,
                }))
    &&& (req matches CuprumApiRequestKind::GetVisualStart(ow) ==> (pre.spec_unchanged(post)
                    && match pre.resolved_window(ow) {
                    Some(w) => r == Some(
                        CuprumApiResponseKind::GetVisualStart(
                            match pre.windows()[w].spec_anchor() {
                                Some(a) => a,
                                None => pre.windows()[w].spec_cursor(),
                            },
                        ),
                    ),
                    None => r is None,
                }))
    &&& (req matches CuprumApiRequestKind::MoveBy(ow, off) ==> (r is None && match pre.resolved_window(ow) {
                    Some(w) => match pre.buffer_of_window(w) {
                        Some(b) => pre.same_except_window(post, w) && ({
                            let w0 = pre.windows()[w];
                            let w1 = post.windows()[w];
                            let lines = pre.buffers()[b].lines();
                            &&& w1.spec_anchor() == w0.spec_anchor()
                            &&& w1.spec_size() == w0.spec_size()
                            &&& w1.spec_position() == w0.spec_position()
                            &&& w1.spec_buffer_id() == w0.spec_buffer_id()
                            &&& match spec_move_target(
                                w0.spec_cursor(),
                                lines,
                                pre.spec_mode(),
                                off,
                            ) {
                                Some(p) => w1.spec_cursor() == p && w1.spec_scroll()
                                    == spec_sync_scroll(
                                    p.y as int,
                                    w0.spec_scroll(),
                                    w0.spec_size().y as int,
                                ),
                                None => w1.spec_cursor() == spec_clamped_for_move(
                                    w0.spec_cursor(),
                                    lines,
                                    pre.spec_mode(),
                                    off,
                                ) && w1.spec_scroll() == w0.spec_scroll(),
                            }
                        }),
                        None => pre.spec_unchanged(post),
                    },
                    None => pre.spec_unchanged(post),
                }))
    &&& (req matches CuprumApiRequestKind::MoveToX(ow, pos) ==> (r is None && match pre.resolved_window(ow) {
                    Some(w) => pre.same_except_window(post, w) && ({
                        let w0 = pre.windows()[w];
                        let w1 = post.windows()[w];
                        &&& w1.spec_anchor() == w0.spec_anchor()
                        &&& w1.spec_size() == w0.spec_size()
                        &&& w1.spec_position() == w0.spec_position()
                        &&& w1.spec_buffer_id() == w0.spec_buffer_id()
                        &&& match pos {
                            Position::Start => w1.spec_cursor() == (UVec2 {
                                x: 0usize,
                                y: w0.spec_cursor().y,
                            }) && w1.scroll_in_sync(),
                            Position::Number(x) => match pre.buffer_of_window(w) {
                                Some(b) => {
                                    let lines = pre.buffers()[b].lines();
                                    if w0.spec_cursor().y < lines.len() {
                                        let m = spec_max_col(
                                            lines[w0.spec_cursor().y as int].len() as int,
                                            pre.spec_mode(),
                                        );
                                        &&& w1.spec_cursor().y == w0.spec_cursor().y
                                        &&& w1.spec_cursor().x as int == if x as int > m {
                                            m
                                        } else {
                                            x as int
                                        }
                                        &&& w1.scroll_in_sync()
                                    } else {
                                        w1.spec_cursor() == w0.spec_cursor() && w1.spec_scroll()
                                            == w0.spec_scroll()
                                    }
                                },
                                None => w1.spec_cursor() == w0.spec_cursor() && w1.spec_scroll()
                                    == w0.spec_scroll(),
                            },
                            Position::End => match pre.buffer_of_window(w) {
                                Some(b) => {
                                    let lines = pre.buffers()[b].lines();
                                    if w0.spec_cursor().y < lines.len() {
                                        w1.spec_cursor() == (UVec2 {
                                            x: usize::MAX,
                                            y: w0.spec_cursor().y,
                                        }) && w1.scroll_in_sync()
                                    } else {
                                        w1.spec_cursor() == w0.spec_cursor() && w1.spec_scroll()
                                            == w0.spec_scroll()
                                    }
                                },
                                None => w1.spec_cursor() == w0.spec_cursor() && w1.spec_scroll()
                                    == w0.spec_scroll(),
                            },
                        }
                    }),
                    None => pre.spec_unchanged(post),
                }))
    &&& (req matches CuprumApiRequestKind::MoveToY(ow, pos) ==> (r is None && match pre.resolved_window(ow) {
                    Some(w) => pre.same_except_window(post, w) && ({
                        let w0 = pre.windows()[w];
                        let w1 = post.windows()[w];
                        &&& w1.spec_anchor() == w0.spec_anchor()
                        &&& w1.spec_size() == w0.spec_size()
                        &&& w1.spec_position() == w0.spec_position()
                        &&& w1.spec_buffer_id() == w0.spec_buffer_id()
                        &&& match pos {
                            Position::Start => w1.spec_cursor() == (UVec2 {
                                x: 0usize,
                                y: 0usize,
                            }) && w1.scroll_in_sync(),
                            Position::Number(y) => match pre.buffer_of_window(w) {
                                Some(b) => {
                                    let lines = pre.buffers()[b].lines();
                                    if y < lines.len() {
                                        &&& w1.spec_cursor().y == y
                                        &&& w1.spec_cursor().x as int == if w0.spec_cursor().x
                                            as int > lines[y as int].len() {
                                            lines[y as int].len() as int
                                        } else {
                                            w0.spec_cursor().x as int
                                        }
                                        &&& w1.scroll_in_sync()
                                    } else {
                                        w1.spec_cursor() == w0.spec_cursor() && w1.spec_scroll()
                                            == w0.spec_scroll()
                                    }
                                },
                                None => w1.spec_cursor() == w0.spec_cursor() && w1.spec_scroll()
                                    == w0.spec_scroll(),
                            },
                            Position::End => match pre.buffer_of_window(w) {
                                Some(b) => {
                                    let lines = pre.buffers()[b].lines();
                                    if lines.len() > 0 {
                                        w1.spec_cursor() == (UVec2 {
                                            x: lines[lines.len() - 1].len() as usize,
                                            y: (lines.len() - 1) as usize,
                                        }) && w1.scroll_in_sync()
                                    } else {
                                        w1.spec_cursor() == w0.spec_cursor()
                                    }
                                },
                                None => w1.spec_cursor() == w0.spec_cursor() && w1.spec_scroll() == w0.spec_scroll(),
                            },
                        }
                    }),
                    None => pre.spec_unchanged(post),
                }))
    &&& (req matches CuprumApiRequestKind::OpenFile(op) && op is None && pre.buffer_next()
        < usize::MAX ==> r is Some)
}

impl EditorState {
    /// The registry position of the buffer an optional handle resolves to.
    fn resolve_buffer_entry(&self, ob: Option<BufferId>) -> (r: Option<usize>)
        requires
            self.wf(),
        ensures
            match r {
                Some(i) => {
                    &&& self.resolved_buffer(ob) is Some
                    &&& i < self.buffer_manager.reg.items@.len()
                    &&& self.buffer_manager.reg.items@[i as int].0 == self.resolved_buffer(
                        ob,
                    ).unwrap()
                    &&& self.buffer_manager.reg.items@[i as int].1 == self.buffers()[self.resolved_buffer(ob).unwrap()]
                },
                None => self.resolved_buffer(ob) is None,
            },
    {
        proof {
            lemma_buffer_manager_reg(&self.buffer_manager);
            lemma_window_manager_reg(&self.window_manager);
        }
        match ob {
            Some(b) => self.buffer_manager.reg.index_of(b.0),
            None => {
                match self.window_manager.reg.get(self.active_window.0) {
                    Some(w) => {
                        let bid = w.get_buffer_id();
                        self.buffer_manager.reg.index_of(bid.0)
                    },
                    None => None,
                }
            },
        }
    }

    /// The registry position of the window an optional handle resolves to.
    fn resolve_window_entry(&self, ow: Option<WindowId>) -> (r: Option<usize>)
        requires
            self.wf(),
        ensures
            match r {
                Some(i) => {
                    &&& self.resolved_window(ow) is Some
                    &&& i < self.window_manager.reg.items@.len()
                    &&& self.window_manager.reg.items@[i as int].0 == self.resolved_window(
                        ow,
                    ).unwrap()
                    &&& self.window_manager.reg.items@[i as int].1 == self.windows()[self.resolved_window(ow).unwrap()]
                },
                None => self.resolved_window(ow) is None,
            },
    {
        proof {
            lemma_window_manager_reg(&self.window_manager);
        }
        match ow {
            Some(w) => self.window_manager.reg.index_of(w.0),
            None => self.window_manager.reg.index_of(self.active_window.0),
        }
    }

    /// Execute one protocol request against the editor state and return
    /// its response: the payload matching the operation, or an absent
    /// response when the operation is void, the referent does not exist,
    /// or the operands are out of range. This is the only place editor
    /// state is mutated on behalf of the protocol; an omitted handle
    /// resolves against the active window at execution time.
    #[verifier::rlimit(100)]
    #[verifier::spinoff_prover]
    pub fn process_request<F: FileIo>(&mut self, fs: &mut F, req: CuprumApiRequestKind) -> (r:
        Option<CuprumApiResponseKind>)
        requires
            old(self).wf(),
        ensures
            final(self).wf(),
            spec_request_effect(old(self), final(self), req, r),
    {
        proof {
            lemma_buffer_manager_reg(&self.buffer_manager);
            lemma_window_manager_reg(&self.window_manager);
        }
        match req {
            CuprumApiRequestKind::ChangeMode(m) => {
                self.set_mode(m);
                proof {
                    assert(spec_set_mode(old(self), self, m));
                }
                None
            },
            CuprumApiRequestKind::OpenFile(op) => {
                let buf = match op {
                    None => Buffer::default(),
                    Some(p) => match Buffer::open(fs, p) {
                        Ok(b) => b,
                        Err(()) => {
                            return None;
                        },
                    },
                };
                match self.buffer_manager.open_buffer(buf) {
                    Some(id) => {
                        proof {
                            assert(self.buffers().dom() =~= old(self).buffers().dom().insert(
                                id.0,
                            ));
                        }
                        Some(CuprumApiResponseKind::OpenFile(id))
                    },
                    None => None,
                }
            },
            CuprumApiRequestKind::SaveBuffer(ob, _path) => {
                match self.resolve_buffer_entry(ob) {
                    Some(i) => {
                        let b = self.buffer_manager.reg.at_mut(i);
                        let _saved = b.save(fs);
                        proof {
                            lemma_buffer_manager_reg(&self.buffer_manager);
                            assert(self.buffers().dom() =~= old(self).buffers().dom());
                        }
                        None
                    },
                    None => None,
                }
            },
            CuprumApiRequestKind::GetLineCount(ob) => {
                match self.resolve_buffer_entry(ob) {
                    Some(i) => {
                        let n = self.buffer_manager.reg.items[i].1.get_line_count();
                        Some(CuprumApiResponseKind::GetLineCount(n))
                    },
                    None => None,
                }
            },
            CuprumApiRequestKind::GetLineLength(ob, y) => {
                match self.resolve_buffer_entry(ob) {
                    Some(i) => {
                        match self.buffer_manager.reg.items[i].1.get_line_length(y) {
                            Some(n) => Some(CuprumApiResponseKind::GetLineLength(n)),
                            None => None,
                        }
                    },
                    None => None,
                }
            },
            CuprumApiRequestKind::GetChar(ob, pos) => {
                match self.resolve_buffer_entry(ob) {
                    Some(i) => {
                        match self.buffer_manager.reg.items[i].1.get_char(pos.x, pos.y) {
                            Some(c) => Some(CuprumApiResponseKind::GetChar(c)),
                            None => None,
                        }
                    },
                    None => None,
                }
            },
            CuprumApiRequestKind::GetLine(ob, y) => {
                match self.resolve_buffer_entry(ob) {
                    Some(i) => {
                        match self.buffer_manager.reg.items[i].1.get_line(y) {
                            Some(l) => Some(CuprumApiResponseKind::GetLine(l)),
                            None => None,
                        }
                    },
                    None => None,
                }
            },
            CuprumApiRequestKind::GetAllLines(ob) => {
                match self.resolve_buffer_entry(ob) {
                    Some(i) => {
                        let v = self.buffer_manager.reg.items[i].1.get_all_lines();
                        Some(CuprumApiResponseKind::GetAllLines(v))
                    },
                    None => None,
                }
            },
            CuprumApiRequestKind::GetContent(ob) => {
                match self.resolve_buffer_entry(ob) {
                    Some(i) => {
                        let s = self.buffer_manager.reg.items[i].1.get_content();
                        Some(CuprumApiResponseKind::GetContent(s))
                    },
                    None => None,
                }
            },
            CuprumApiRequestKind::Insert(ob, i, text) => {
                match self.resolve_buffer_entry(ob) {
                    Some(idx) => {
                        let b = self.buffer_manager.reg.at_mut(idx);
                        b.insert(i, text.as_str());
                        proof {
                            lemma_buffer_manager_reg(&self.buffer_manager);
                            assert(self.buffers().dom() =~= old(self).buffers().dom());
                        }
                        None
                    },
                    None => None,
                }
            },
            CuprumApiRequestKind::InsertChar(ob, pos, ch) => {
                match self.resolve_buffer_entry(ob) {
                    Some(idx) => {
                        let b = self.buffer_manager.reg.at_mut(idx);
                        b.insert_char(pos.x, pos.y, ch);
                        proof {
                            lemma_buffer_manager_reg(&self.buffer_manager);
                            assert(self.buffers().dom() =~= old(self).buffers().dom());
                        }
                        None
                    },
                    None => None,
                }
            },
            CuprumApiRequestKind::InsertLine(ob, y, line) => {
                match self.resolve_buffer_entry(ob) {
                    Some(idx) => {
                        let b = self.buffer_manager.reg.at_mut(idx);
                        b.insert_line(y, line);
                        proof {
                            lemma_buffer_manager_reg(&self.buffer_manager);
                            assert(self.buffers().dom() =~= old(self).buffers().dom());
                        }
                        None
                    },
                    None => None,
                }
            },
            CuprumApiRequestKind::ReplaceChar(ob, pos, ch) => {
                match self.resolve_buffer_entry(ob) {
                    Some(idx) => {
                        let b = self.buffer_manager.reg.at_mut(idx);
                        let removed = b.replace_char(pos.x, pos.y, ch);
                        proof {
                            lemma_buffer_manager_reg(&self.buffer_manager);
                            assert(self.buffers().dom() =~= old(self).buffers().dom());
                        }
                        match removed {
                            Some(c) => Some(CuprumApiResponseKind::ReplaceChar(c)),
                            None => None,
                        }
                    },
                    None => None,
                }
            },
            CuprumApiRequestKind::ReplaceLine(ob, y, line) => {
                match self.resolve_buffer_entry(ob) {
                    Some(idx) => {
                        let b = self.buffer_manager.reg.at_mut(idx);
                        let removed = b.replace_line(y, line);
                        proof {
                            lemma_buffer_manager_reg(&self.buffer_manager);
                            assert(self.buffers().dom() =~= old(self).buffers().dom());
                        }
                        match removed {
                            Some(l) => Some(CuprumApiResponseKind::ReplaceLine(l)),
                            None => None,
                        }
                    },
                    None => None,
                }
            },
            CuprumApiRequestKind::ReplaceAllLines(ob, lines) => {
                match self.resolve_buffer_entry(ob) {
                    Some(idx) => {
                        let b = self.buffer_manager.reg.at_mut(idx);
                        let previous = b.replace_all_lines(lines);
                        proof {
                            lemma_buffer_manager_reg(&self.buffer_manager);
                            assert(self.buffers().dom() =~= old(self).buffers().dom());
                        }
                        Some(CuprumApiResponseKind::ReplaceAllLines(previous))
                    },
                    None => None,
                }
            },
            CuprumApiRequestKind::ReplaceContent(ob, content) => {
                match self.resolve_buffer_entry(ob) {
                    Some(idx) => {
                        let b = self.buffer_manager.reg.at_mut(idx);
                        let previous = b.replace_content(content);
                        proof {
                            lemma_buffer_manager_reg(&self.buffer_manager);
                            assert(self.buffers().dom() =~= old(self).buffers().dom());
                        }
                        Some(CuprumApiResponseKind::ReplaceContent(previous))
                    },
                    None => None,
                }
            },
            CuprumApiRequestKind::Remove(ob, l, rr) => {
                match self.resolve_buffer_entry(ob) {
                    Some(idx) => {
                        let b = self.buffer_manager.reg.at_mut(idx);
                        b.remove_range(l, rr);
                        proof {
                            lemma_buffer_manager_reg(&self.buffer_manager);
                            assert(self.buffers().dom() =~= old(self).buffers().dom());
                        }
                        None
                    },
                    None => None,
                }
            },
            CuprumApiRequestKind::RemoveChar(ob, pos) => {
                match self.resolve_buffer_entry(ob) {
                    Some(idx) => {
                        let b = self.buffer_manager.reg.at_mut(idx);
                        let removed = b.remove_char(pos.x, pos.y);
                        proof {
                            lemma_buffer_manager_reg(&self.buffer_manager);
                            assert(self.buffers().dom() =~= old(self).buffers().dom());
                        }
                        match removed {
                            Some(c) => Some(CuprumApiResponseKind::RemoveChar(c)),
                            None => None,
                        }
                    },
                    None => None,
                }
            },
            CuprumApiRequestKind::RemoveLine(ob, y) => {
                match self.resolve_buffer_entry(ob) {
                    Some(idx) => {
                        let b = self.buffer_manager.reg.at_mut(idx);
                        let removed = b.remove_line(y);
                        proof {
                            lemma_buffer_manager_reg(&self.buffer_manager);
                            assert(self.buffers().dom() =~= old(self).buffers().dom());
                        }
                        match removed {
                            Some(l) => Some(CuprumApiResponseKind::RemoveLine(l)),
                            None => None,
                        }
                    },
                    None => None,
                }
            },
            CuprumApiRequestKind::SplitLine(ob, pos) => {
                match self.resolve_buffer_entry(ob) {
                    Some(idx) => {
                        let b = self.buffer_manager.reg.at_mut(idx);
                        b.split_line(pos.x, pos.y);
                        proof {
                            lemma_buffer_manager_reg(&self.buffer_manager);
                            assert(self.buffers().dom() =~= old(self).buffers().dom());
                        }
                        None
                    },
                    None => None,
                }
            },
            CuprumApiRequestKind::JoinLines(ob, y) => {
                match self.resolve_buffer_entry(ob) {
                    Some(idx) => {
                        let b = self.buffer_manager.reg.at_mut(idx);
                        b.join_lines(y);
                        proof {
                            lemma_buffer_manager_reg(&self.buffer_manager);
                            assert(self.buffers().dom() =~= old(self).buffers().dom());
                        }
                        None
                    },
                    None => None,
                }
            },
            CuprumApiRequestKind::GetCursor(ow) => {
                match self.resolve_window_entry(ow) {
                    Some(wi) => {
                        let mode_now = self.mode;
                        let win = &self.window_manager.reg.items[wi].1;
                        let bid = win.get_buffer_id();
                        proof {
                            lemma_buffer_manager_reg(&self.buffer_manager);
                        }
                        match self.buffer_manager.reg.index_of(bid.0) {
                            Some(bi) => {
                                let bref = &self.buffer_manager.reg.items[bi].1;
                                let c = win.get_effective_cursor(bref, mode_now);
                                Some(CuprumApiResponseKind::GetCursor(c))
                            },
                            None => Some(CuprumApiResponseKind::GetCursor(win.get_cursor())),
                        }
                    },
                    None => None,
                }
            },
            CuprumApiRequestKind::GetVisualStart(ow) => {
                match self.resolve_window_entry(ow) {
                    Some(wi) => {
                        let win = &self.window_manager.reg.items[wi].1;
                        Some(CuprumApiResponseKind::GetVisualStart(win.get_visual_start()))
                    },
                    None => None,
                }
            },
            CuprumApiRequestKind::MoveBy(ow, off) => {
                match self.resolve_window_entry(ow) {
                    Some(wi) => {
                        let mode_now = self.mode;
                        let bid = self.window_manager.reg.items[wi].1.get_buffer_id();
                        proof {
                            lemma_buffer_manager_reg(&self.buffer_manager);
                        }
                        match self.buffer_manager.reg.index_of(bid.0) {
                            Some(bi) => {
                                let bref = &self.buffer_manager.reg.items[bi].1;
                                let win = self.window_manager.reg.at_mut(wi);
                                win.move_by(bref, mode_now, off);
                                proof {
                                    lemma_window_manager_reg(&self.window_manager);
                                    assert(self.windows().dom() =~= old(self).windows().dom());
                                }
                            },
                            None => {},
                        }
                        None
                    },
                    None => None,
                }
            },
            CuprumApiRequestKind::MoveToX(ow, pos) => {
                match self.resolve_window_entry(ow) {
                    Some(wi) => {
                        let mode_now = self.mode;
                        match pos {
                            Position::Start => {
                                let win = self.window_manager.reg.at_mut(wi);
                                win.move_to_line_start();
                                proof {
                                    lemma_window_manager_reg(&self.window_manager);
                                    assert(self.windows().dom() =~= old(self).windows().dom());
                                }
                            },
                            Position::Number(x) => {
                                let bid = self.window_manager.reg.items[wi].1.get_buffer_id();
                                proof {
                                    lemma_buffer_manager_reg(&self.buffer_manager);
                                }
                                match self.buffer_manager.reg.index_of(bid.0) {
                                    Some(bi) => {
                                        let bref = &self.buffer_manager.reg.items[bi].1;
                                        let win = self.window_manager.reg.at_mut(wi);
                                        win.move_to_x(bref, mode_now, x);
                                        proof {
                                            lemma_window_manager_reg(&self.window_manager);
                                            assert(self.windows().dom() =~= old(self).windows().dom());
                                        }
                                    },
                                    None => {},
                                }
                            },
                            Position::End => {
                                let bid = self.window_manager.reg.items[wi].1.get_buffer_id();
                                proof {
                                    lemma_buffer_manager_reg(&self.buffer_manager);
                                }
                                match self.buffer_manager.reg.index_of(bid.0) {
                                    Some(bi) => {
                                        let bref = &self.buffer_manager.reg.items[bi].1;
                                        let win = self.window_manager.reg.at_mut(wi);
                                        win.move_to_line_end(bref);
                                        proof {
                                            lemma_window_manager_reg(&self.window_manager);
                                            assert(self.windows().dom() =~= old(self).windows().dom());
                                        }
                                    },
                                    None => {},
                                }
                            },
                        }
                        None
                    },
                    None => None,
                }
            },
            CuprumApiRequestKind::MoveToY(ow, pos) => {
                match self.resolve_window_entry(ow) {
                    Some(wi) => {
                        match pos {
                            Position::Start => {
                                let win = self.window_manager.reg.at_mut(wi);
                                win.move_to_buffer_start();
                                proof {
                                    lemma_window_manager_reg(&self.window_manager);
                                    assert(self.windows().dom() =~= old(self).windows().dom());
                                }
                            },
                            Position::Number(y) => {
                                let bid = self.window_manager.reg.items[wi].1.get_buffer_id();
                                proof {
                                    lemma_buffer_manager_reg(&self.buffer_manager);
                                }
                                match self.buffer_manager.reg.index_of(bid.0) {
                                    Some(bi) => {
                                        let bref = &self.buffer_manager.reg.items[bi].1;
                                        let win = self.window_manager.reg.at_mut(wi);
                                        win.move_to_y(bref, y);
                                        proof {
                                            lemma_window_manager_reg(&self.window_manager);
                                            assert(self.windows().dom() =~= old(self).windows().dom());
                                        }
                                    },
                                    None => {},
                                }
                            },
                            Position::End => {
                                let bid = self.window_manager.reg.items[wi].1.get_buffer_id();
                                proof {
                                    lemma_buffer_manager_reg(&self.buffer_manager);
                                }
                                match self.buffer_manager.reg.index_of(bid.0) {
                                    Some(bi) => {
                                        let bref = &self.buffer_manager.reg.items[bi].1;
                                        let win = self.window_manager.reg.at_mut(wi);
                                        win.move_to_buffer_end(bref);
                                        proof {
                                            lemma_window_manager_reg(&self.window_manager);
                                            assert(self.windows().dom() =~= old(self).windows().dom());
                                        }
                                    },
                                    None => {},
                                }
                            },
                        }
                        None
                    },
                    None => None,
                }
            },
        }
    }

    /// Dispatch a whole batch of requests in arrival order and pair each
    /// response with the sequence number of its own request: the response
    /// at a position answers exactly the request at that position — so no
    /// caller is ever handed another caller's result — and a chain of
    /// intermediate states witnesses that each pair is one dispatched
    /// request, in order.
    pub fn process_batch<F: FileIo>(&mut self, fs: &mut F, batch: Vec<CuprumApiRequest>) -> (r:
        Vec<CuprumApiResponse>)
        requires
            old(self).wf(),
        ensures
            final(self).wf(),
            r@.len() == batch@.len(),
            forall|i: int| 0 <= i < batch@.len() ==> (#[trigger] r@[i]).id == batch@[i].id,
            exists|states: Seq<EditorState>|
                spec_batch_fold(states, *old(self), *final(self), batch@, r@),
    {
        let mut rest = batch;
        let mut responses: Vec<CuprumApiResponse> = Vec::new();
        let ghost all = rest@;
        let ghost mut states: Seq<EditorState> = seq![*old(self)];
        while rest.len() > 0
            invariant
                self.wf(),
                responses@.len() + rest@.len() == all.len(),
                rest@ == all.skip(responses@.len() as int),
                forall|i: int|
                    0 <= i < responses@.len() ==> (#[trigger] responses@[i]).id == all[i].id,
                states.len() == responses@.len() + 1,
                states[0] == *old(self),
                states.last() == *self,
                forall|i: int|
                    0 <= i < responses@.len() ==> #[trigger] spec_request_effect(
                        &states[i],
                        &states[i + 1],
                        all[i].kind,
                        responses@[i].kind,
                    ),
            decreases rest@.len(),
        {
            let ghost k: int = responses@.len() as int;
            let req = rest.remove(0);
            proof {
                assert(req == all[k]);
                assert(rest@ =~= all.skip(k + 1));
            }
            let kind = req.kind;
            let id = req.id;
            let resp = self.process_request(fs, kind);
            proof {
                states = states.push(*self);
            }
            responses.push(CuprumApiResponse { id, kind: resp });
        }
        proof {
            assert(spec_batch_fold(states, *old(self), *self, all, responses@));
        }
        responses
    }
}

impl EditorState {
    /// Everything but the command-line text is unchanged.
    pub open spec fn spec_unchanged_but_command(&self, post: &EditorState) -> bool {
        &&& post.buffers() == self.buffers()
        &&& post.windows() == self.windows()
        &&& post.active() == self.active()
        &&& post.spec_mode() == self.spec_mode()
    }
}


/// What one insert-mode key does to the editor state: the contract of
/// `EditorState::process_insert`, factored out so the application loop
/// can state its own behaviour as a composition of it. All positions are
/// taken at the effective cursor `c`; `spec_insert_lines1` names the
/// buffer's lines after the edit, and the cursor clauses then follow the
/// move that each key performs on the edited buffer.
pub open spec fn spec_insert_effect(
    pre: &EditorState,
    post: &EditorState,
    key: KeyCode,
    is_append: bool,
) -> bool {
    &&& post.active() == pre.active()
    &&& post.command() == pre.command()
    &&& (key is Esc ==> post.spec_mode() == Mode::Normal)
    &&& (!(key is Esc) ==> post.spec_mode() == pre.spec_mode())
    &&& post.buffers().dom() == pre.buffers().dom()
    &&& post.windows().dom() == pre.windows().dom()
    &&& match pre.active_window_key() {
        None => post.buffers() == pre.buffers() && post.windows() == pre.windows(),
        Some(w) => {
            &&& forall|j: usize|
                pre.windows().contains_key(j) && j != w ==> post.windows()[j] == pre.windows()[j]
            &&& match pre.buffer_of_window(w) {
                None => {
                    &&& post.buffers() == pre.buffers()
                    &&& (key is Esc ==> spec_set_mode(pre, post, Mode::Normal))
                    &&& (!(key is Esc) ==> post.windows() == pre.windows())
                },
                Some(k) => {
                    &&& forall|j: usize|
                        pre.buffers().contains_key(j) && j != k ==> post.buffers()[j]
                            == pre.buffers()[j]
                    &&& ({
                        let b0 = pre.buffers()[k];
                        let b1 = post.buffers()[k];
                        let c = spec_effective_cursor(
                            pre.windows()[w].spec_cursor(),
                            b0.lines(),
                            pre.spec_mode(),
                        );
                        &&& b1.backing() == b0.backing()
                        &&& b1.lines() == spec_insert_lines1(b0.lines(), c, key)
                    })
                    &&& ({
                        let w0 = pre.windows()[w];
                        let w1 = post.windows()[w];
                        let lines0 = pre.buffers()[k].lines();
                        let mode0 = pre.spec_mode();
                        let c = spec_effective_cursor(w0.spec_cursor(), lines0, mode0);
                        let lines1 = spec_insert_lines1(lines0, c, key);
                        match key {
                            KeyCode::Char(ch) => if ch == '\n' {
                                match spec_move_target(
                                    w0.spec_cursor(),
                                    lines1,
                                    mode0,
                                    IVec2 { x: 0isize, y: 1isize },
                                ) {
                                    Some(p) => w1.spec_cursor() == (UVec2 { x: 0usize, y: p.y })
                                        && w1.scroll_in_sync(),
                                    None => if w0.spec_cursor().y < lines1.len() {
                                        w1.spec_cursor() == (UVec2 {
                                            x: 0usize,
                                            y: w0.spec_cursor().y,
                                        }) && w1.scroll_in_sync()
                                    } else {
                                        w1.spec_cursor() == w0.spec_cursor() && w1.spec_scroll()
                                            == w0.spec_scroll()
                                    },
                                }
                            } else {
                                match spec_move_target(
                                    w0.spec_cursor(),
                                    lines1,
                                    mode0,
                                    IVec2 { x: 1isize, y: 0isize },
                                ) {
                                    Some(p) => w1.spec_cursor() == p && w1.scroll_in_sync(),
                                    None => w1.spec_cursor() == spec_clamped_for_move(
                                        w0.spec_cursor(),
                                        lines1,
                                        mode0,
                                        IVec2 { x: 1isize, y: 0isize },
                                    ) && w1.spec_scroll() == w0.spec_scroll(),
                                }
                            },
                            KeyCode::Backspace => if c.x == 0 && c.y == 0 {
                                w1 == w0
                            } else if c.x > 0 {
                                if w0.spec_cursor().y < lines1.len() {
                                    ({
                                        let m1 = spec_max_col(
                                            lines1[w0.spec_cursor().y as int].len() as int,
                                            mode0,
                                        );
                                        &&& w1.spec_cursor().y == w0.spec_cursor().y
                                        &&& w1.spec_cursor().x as int == if c.x - 1 > m1 {
                                            m1
                                        } else {
                                            c.x - 1
                                        }
                                        &&& w1.scroll_in_sync()
                                    })
                                } else {
                                    w1.spec_cursor() == w0.spec_cursor() && w1.spec_scroll()
                                        == w0.spec_scroll()
                                }
                            } else {
                                if c.y - 1 < lines0.len() {
                                    ({
                                        let ll = lines0[c.y - 1].len() as int;
                                        let m2 = spec_max_col(lines1[c.y - 1].len() as int, mode0);
                                        &&& w1.spec_cursor().y == c.y - 1
                                        &&& w1.spec_cursor().x as int == if ll > m2 {
                                            m2
                                        } else {
                                            ll
                                        }
                                        &&& w1.scroll_in_sync()
                                    })
                                } else {
                                    w1.spec_cursor() == w0.spec_cursor() && w1.spec_scroll()
                                        == w0.spec_scroll()
                                }
                            },
                            KeyCode::Delete => w1 == w0,
                            KeyCode::Esc => {
                                &&& w1.spec_anchor() is None
                                &&& if is_append {
                                    match spec_move_target(
                                        w0.spec_cursor(),
                                        lines0,
                                        mode0,
                                        IVec2 { x: -1isize, y: 0isize },
                                    ) {
                                        Some(p) => w1.spec_cursor() == p && w1.scroll_in_sync(),
                                        None => w1.spec_cursor() == spec_clamped_for_move(
                                            w0.spec_cursor(),
                                            lines0,
                                            mode0,
                                            IVec2 { x: -1isize, y: 0isize },
                                        ) && w1.spec_scroll() == w0.spec_scroll(),
                                    }
                                } else {
                                    w1.spec_cursor() == w0.spec_cursor() && w1.spec_scroll()
                                        == w0.spec_scroll()
                                }
                            },
                            _ => w1 == w0,
                        }
                    })
                },
            }
        },
    }
}

/// The lines of the edited buffer after one insert-mode key at the
/// effective cursor `c`: a character spliced in (a newline splitting the
/// line), backspace removing the character before `c` or joining with
/// the previous line at column zero, delete removing the character under
/// `c`; out-of-range positions and every other key leave the lines as
/// they are.
pub open spec fn spec_insert_lines1(lines0: Seq<Seq<char>>, c: UVec2, key: KeyCode) -> Seq<
    Seq<char>,
> {
    match key {
        KeyCode::Char(ch) => if !valid_pos(lines0, c.x as int, c.y as int) {
            lines0
        } else if ch == '\n' {
            lines0.take(c.y as int) + seq![
                lines0[c.y as int].take(c.x as int),
                lines0[c.y as int].skip(c.x as int),
            ] + lines0.skip(c.y + 1)
        } else {
            lines0.update(
                c.y as int,
                lines0[c.y as int].take(c.x as int) + seq![ch] + lines0[c.y as int].skip(
                    c.x as int,
                ),
            )
        },
        KeyCode::Backspace => if c.x == 0 && c.y == 0 {
            lines0
        } else if c.x == 0 {
            if c.y < lines0.len() {
                lines0.take(c.y - 1) + seq![lines0[c.y - 1] + lines0[c.y as int]] + lines0.skip(
                    c.y + 1,
                )
            } else {
                lines0
            }
        } else {
            if c.y < lines0.len() && c.x - 1 < lines0[c.y as int].len() {
                lines0.update(
                    c.y as int,
                    lines0[c.y as int].take(c.x - 1) + lines0[c.y as int].skip(c.x as int),
                )
            } else {
                lines0
            }
        },
        KeyCode::Delete => if c.y < lines0.len() && c.x < lines0[c.y as int].len() {
            lines0.update(
                c.y as int,
                lines0[c.y as int].take(c.x as int) + lines0[c.y as int].skip(c.x + 1),
            )
        } else {
            lines0
        },
        _ => lines0,
    }
}

impl EditorState {
    /// Handle one key of insert mode against the active window and its
    /// buffer, at the effective cursor `c`: a printable character is
    /// inserted at `c` and the cursor advances; enter splits the line at
    /// `c` and the cursor moves to the start of the next line; backspace
    /// removes the character before `c` (joining with the previous line at
    /// column zero) and the cursor follows; delete removes the character
    /// under `c`; escape returns to normal mode, first stepping the cursor
    /// back when leaving an append-insert. Without an active window and
    /// buffer only escape has an effect.
    #[verifier::rlimit(100)]
    #[verifier::spinoff_prover]
    pub fn process_insert(&mut self, key: KeyCode, is_append: bool)
        requires
            old(self).wf(),
        ensures
            final(self).wf(),
            spec_insert_effect(old(self), final(self), key, is_append),
    {
        proof {
            lemma_buffer_manager_reg(&self.buffer_manager);
            lemma_window_manager_reg(&self.window_manager);
        }
        let wi = match self.window_manager.reg.index_of(self.active_window.0) {
            Some(i) => i,
            None => {
                if let KeyCode::Esc = key {
                    self.set_mode(Mode::Normal);
                }
                return ;
            },
        };
        let mode_now = self.mode;
        let bid = self.window_manager.reg.items[wi].1.get_buffer_id();
        let bi = match self.buffer_manager.reg.index_of(bid.0) {
            Some(i) => i,
            None => {
                if let KeyCode::Esc = key {
                    self.set_mode(Mode::Normal);
                }
                return ;
            },
        };
        let c = {
            let bref = &self.buffer_manager.reg.items[bi].1;
            self.window_manager.reg.items[wi].1.get_effective_cursor(bref, mode_now)
        };
        match key {
            KeyCode::Char(ch) => {
                {
                    let b = self.buffer_manager.reg.at_mut(bi);
                    if ch == '\n' {
                        b.split_line(c.x, c.y);
                    } else {
                        b.insert_char(c.x, c.y, ch);
                    }
                }
                proof {
                    lemma_buffer_manager_reg(&self.buffer_manager);
                    assert(self.buffers().dom() =~= old(self).buffers().dom());
                }
                let bref = &self.buffer_manager.reg.items[bi].1;
                let win = self.window_manager.reg.at_mut(wi);
                if ch == '\n' {
                    win.move_by(bref, mode_now, IVec2 { x: 0, y: 1 });
                    win.move_to_x(bref, mode_now, 0);
                } else {
                    win.move_by(bref, mode_now, IVec2 { x: 1, y: 0 });
                }
                proof {
                    lemma_window_manager_reg(&self.window_manager);
                    assert(self.windows().dom() =~= old(self).windows().dom());
                }
            },
            KeyCode::Backspace => {
                if c.x == 0 && c.y == 0 {
                    return ;
                }
                let prev_len = if c.x == 0 {
                    self.buffer_manager.reg.items[bi].1.get_line_length(c.y - 1)
                } else {
                    None
                };
                {
                    let b = self.buffer_manager.reg.at_mut(bi);
                    if c.x == 0 {
                        b.join_lines(c.y - 1);
                    } else {
                        let _removed = b.remove_char(c.x - 1, c.y);
                    }
                }
                proof {
                    lemma_buffer_manager_reg(&self.buffer_manager);
                    assert(self.buffers().dom() =~= old(self).buffers().dom());
                }
                let bref = &self.buffer_manager.reg.items[bi].1;
                let win = self.window_manager.reg.at_mut(wi);
                if c.x != 0 {
                    win.move_to_x(bref, mode_now, c.x - 1);
                } else {
                    match prev_len {
                        Some(ll) => {
                            win.move_by(bref, mode_now, IVec2 { x: 0, y: -1 });
                            win.move_to_x(bref, mode_now, ll);
                        },
                        None => {},
                    }
                }
                proof {
                    lemma_window_manager_reg(&self.window_manager);
                    assert(self.windows().dom() =~= old(self).windows().dom());
                }
            },
            KeyCode::Delete => {
                let b = self.buffer_manager.reg.at_mut(bi);
                let _removed = b.remove_char(c.x, c.y);
                proof {
                    lemma_buffer_manager_reg(&self.buffer_manager);
                    assert(self.buffers().dom() =~= old(self).buffers().dom());
                }
            },
            KeyCode::Esc => {
                if is_append {
                    let bref = &self.buffer_manager.reg.items[bi].1;
                    let win = self.window_manager.reg.at_mut(wi);
                    win.move_by(bref, mode_now, IVec2 { x: -1, y: 0 });
                    proof {
                        lemma_window_manager_reg(&self.window_manager);
                        assert(self.windows().dom() =~= old(self).windows().dom());
                    }
                }
                self.set_mode(Mode::Normal);
            },
            _ => {},
        }
    }
}

} // verus!

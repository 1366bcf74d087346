//! The builtin bridge: discrete user actions carried out as protocol
//! requests against the editor state, one request at a time, waiting for
//! each response before the next — exactly what a plugin would do from
//! outside, issued from within.

use vstd::prelude::*;
use vstd::string::*;

use crate::api::{CuprumApiRequestKind, CuprumApiResponseKind, Mode, Position};
use crate::fileio::FileIo;
use crate::buffer::{range_ordered, spec_remove_range};
use crate::state::{spec_set_mode, EditorState};
use crate::window::{spec_clamped_for_move, spec_effective_cursor, spec_max_col, spec_move_target};
use crate::vec2::{IVec2, UVec2};

verus! {

/// An action that the builtin bridge carries out through the protocol.
#[derive(Clone, Copy, Debug, PartialEq, Eq, Structural)]
pub enum BuiltinAction {
    Save,
    ChangeMode(Mode),
    MoveBy(IVec2),
    MoveToX(Position),
    MoveToY(Position),
    RemoveChar,
    RemoveLine,
    RemoveSelection,
    OpenLineBelow,
    OpenLineAbove,
    InsertLineStart,
    AppendLineEnd,
}

/// What carrying out one builtin action does to the editor state: the
/// contract of `Builtin::on_action`, factored out so the application
/// loop can state its own behaviour as a composition of it. Handles and
/// the command line are untouched; each action's clause pins the mode,
/// the buffer change, and the cursor landing it produces.
pub open spec fn spec_on_action_effect(
    pre: &EditorState,
    post: &EditorState,
    action: BuiltinAction,
) -> bool {
    &&& (post.active() == pre.active())
    &&& (post.command() == pre.command())
    &&& (post.buffers().dom() == pre.buffers().dom())
    &&& (post.windows().dom() == pre.windows().dom())
    &&& (action matches BuiltinAction::ChangeMode(m) ==> spec_set_mode(
                pre,
                post,
                m,
            ))
    &&& (action is RemoveSelection ==> post.spec_mode() == Mode::Normal && match pre.resolved_window(None) {
                Some(w) => {
                    &&& (post.windows().contains_key(w) ==> post.windows()[w].spec_anchor() is None)
                    &&& match pre.buffer_of_window(w) {
                        Some(k) => ({
                            let w0 = pre.windows()[w];
                            let lines0 = pre.buffers()[k].lines();
                            let c = spec_effective_cursor(
                                w0.spec_cursor(),
                                lines0,
                                pre.spec_mode(),
                            );
                            let a = match w0.spec_anchor() {
                                Some(a) => a,
                                None => w0.spec_cursor(),
                            };
                            let c_first = c.y < a.y || (c.y == a.y && c.x < a.x);
                            let l = if c_first {
                                c
                            } else {
                                a
                            };
                            let rr = if c_first {
                                a
                            } else {
                                c
                            };
                            &&& post.buffers()[k].backing() == pre.buffers()[k].backing()
                            &&& (range_ordered(lines0, l, rr) ==> post.buffers()[k].lines()
                                == spec_remove_range(lines0, l, rr) && post.buffers()[k].is_dirty())
                            &&& (!range_ordered(lines0, l, rr) ==> post.buffers()[k].lines() == lines0)
                            &&& (range_ordered(lines0, l, rr) ==> ({
                                let lines1 = spec_remove_range(lines0, l, rr);
                                let m = spec_max_col(
                                    lines1[l.y as int].len() as int,
                                    pre.spec_mode(),
                                );
                                &&& post.windows().contains_key(w)
                                &&& post.windows()[w].spec_cursor().y == l.y
                                &&& post.windows()[w].spec_cursor().x as int == if a.x as int
                                    > m {
                                    m
                                } else {
                                    a.x as int
                                }
                            }))
                            &&& forall|j: usize|
                                pre.buffers().contains_key(j) && j != k ==> post.buffers()[j] == pre.buffers()[j]
                        }),
                        None => post.buffers() == pre.buffers(),
                    }
                },
                None => post.buffers() == pre.buffers(),
            })
    &&& (action is OpenLineBelow ==> post.spec_mode() == Mode::Insert(false) && match pre.resolved_window(None) {
                Some(w) => match pre.buffer_of_window(w) {
                    Some(k) => ({
                        let lines0 = pre.buffers()[k].lines();
                        let c = spec_effective_cursor(
                            pre.windows()[w].spec_cursor(),
                            lines0,
                            pre.spec_mode(),
                        );
                        &&& (c.y < usize::MAX && c.y + 1 <= lines0.len() ==> post.buffers()[k].lines() == lines0.take(c.y + 1) + seq![
                            Seq::<char>::empty(),
                        ] + lines0.skip(c.y + 1))
                        &&& (c.y + 1 > lines0.len() || c.y == usize::MAX ==> post.buffers()[k].lines() == lines0)
                        &&& (c.y < usize::MAX && c.y + 1 <= lines0.len() ==> post.windows().contains_key(w) && post.windows()[w].spec_cursor() == (UVec2 {
                            x: pre.windows()[w].spec_cursor().x,
                            y: (c.y + 1) as usize,
                        }))
                        &&& forall|j: usize|
                            pre.buffers().contains_key(j) && j != k ==> post.buffers()[j] == pre.buffers()[j]
                    }),
                    None => post.buffers() == pre.buffers(),
                },
                None => post.buffers() == pre.buffers(),
            })
    &&& (action is OpenLineAbove ==> post.spec_mode() == Mode::Insert(false) && match pre.resolved_window(None) {
                Some(w) => match pre.buffer_of_window(w) {
                    Some(k) => ({
                        let lines0 = pre.buffers()[k].lines();
                        let c = spec_effective_cursor(
                            pre.windows()[w].spec_cursor(),
                            lines0,
                            pre.spec_mode(),
                        );
                        &&& (c.y <= lines0.len() ==> post.buffers()[k].lines()
                            == lines0.take(c.y as int) + seq![Seq::<char>::empty()] + lines0.skip(
                            c.y as int,
                        ))
                        &&& (c.y > lines0.len() ==> post.buffers()[k].lines() == lines0)
                        &&& post.windows().contains_key(w)
                        &&& post.windows()[w].spec_cursor() == pre.windows()[w].spec_cursor()
                        &&& forall|j: usize|
                            pre.buffers().contains_key(j) && j != k ==> post.buffers()[j] == pre.buffers()[j]
                    }),
                    None => post.buffers() == pre.buffers(),
                },
                None => post.buffers() == pre.buffers(),
            })
    &&& (action is InsertLineStart ==> post.spec_mode() == Mode::Insert(false)
                && match pre.resolved_window(None) {
                Some(w) => post.windows().contains_key(w) && post.windows()[w].spec_cursor().x == 0,
                None => true,
            })
    &&& (action is AppendLineEnd ==> post.spec_mode() == Mode::Insert(true) && match pre.resolved_window(None) {
                Some(w) => match pre.buffer_of_window(w) {
                    Some(k) => pre.windows()[w].spec_cursor().y < pre.buffers()[k].lines().len() ==> post.windows().contains_key(w)
                        && post.windows()[w].spec_cursor() == (UVec2 {
                        x: usize::MAX,
                        y: pre.windows()[w].spec_cursor().y,
                    }),
                    None => true,
                },
                None => true,
            })
    &&& (action is Save ==> post.spec_mode() == pre.spec_mode() && post.windows() == pre.windows() && match pre.resolved_buffer(
                None,
            ) {
                Some(k) => {
                    &&& pre.same_except_buffer(post, k)
                    &&& post.buffers()[k].lines() == pre.buffers()[k].lines()
                    &&& post.buffers()[k].backing() == pre.buffers()[k].backing()
                    &&& (post.buffers()[k].is_dirty() ==> pre.buffers()[k].is_dirty())
                },
                None => pre.spec_unchanged(post),
            })
    &&& (action is RemoveChar ==> match pre.resolved_window(None) {
                Some(w) => match pre.buffer_of_window(w) {
                    Some(k) => pre.same_except_buffer(post, k) && ({
                        let b0 = pre.buffers()[k];
                        let b1 = post.buffers()[k];
                        let c = spec_effective_cursor(
                            pre.windows()[w].spec_cursor(),
                            b0.lines(),
                            pre.spec_mode(),
                        );
                        &&& b1.backing() == b0.backing()
                        &&& if c.y < b0.lines().len() && c.x < b0.lines()[c.y as int].len() {
                            b1.lines() == b0.lines().update(
                                c.y as int,
                                b0.lines()[c.y as int].take(c.x as int)
                                    + b0.lines()[c.y as int].skip(c.x + 1),
                            ) && b1.is_dirty()
                        } else {
                            b1.lines() == b0.lines() && b1.is_dirty() == b0.is_dirty()
                        }
                    }),
                    None => pre.spec_unchanged(post),
                },
                None => pre.spec_unchanged(post),
            })
    &&& (action is RemoveLine ==> match pre.resolved_window(None) {
                Some(w) => match pre.buffer_of_window(w) {
                    Some(k) => pre.same_except_buffer(post, k) && ({
                        let b0 = pre.buffers()[k];
                        let b1 = post.buffers()[k];
                        let c = spec_effective_cursor(
                            pre.windows()[w].spec_cursor(),
                            b0.lines(),
                            pre.spec_mode(),
                        );
                        &&& b1.backing() == b0.backing()
                        &&& if c.y < b0.lines().len() {
                            b1.lines() == b0.lines().remove(c.y as int) && b1.is_dirty()
                        } else {
                            b1.lines() == b0.lines() && b1.is_dirty() == b0.is_dirty()
                        }
                    }),
                    None => pre.spec_unchanged(post),
                },
                None => pre.spec_unchanged(post),
            })
    &&& (action matches BuiltinAction::MoveToX(pos) ==> match pre.resolved_window(
                None,
            ) {
                Some(w) => pre.same_except_window(post, w) && ({
                    let w0 = pre.windows()[w];
                    let w1 = post.windows()[w];
                    &&& w1.spec_anchor() == w0.spec_anchor()
                    &&& w1.spec_size() == w0.spec_size()
                    &&& w1.spec_position() == w0.spec_position()
                    &&& w1.spec_buffer_id() == w0.spec_buffer_id()
                    &&& match pos {
                        Position::Start => w1.spec_cursor() == (UVec2 {
                            x: 0usize,
                            y: w0.spec_cursor().y,
                        }) && w1.scroll_in_sync(),
                        Position::Number(x) => match pre.buffer_of_window(w) {
                            Some(b) => {
                                let lines = pre.buffers()[b].lines();
                                if w0.spec_cursor().y < lines.len() {
                                    let m = spec_max_col(
                                        lines[w0.spec_cursor().y as int].len() as int,
                                        pre.spec_mode(),
                                    );
                                    &&& w1.spec_cursor().y == w0.spec_cursor().y
                                    &&& w1.spec_cursor().x as int == if x as int > m {
                                        m
                                    } else {
                                        x as int
                                    }
                                    &&& w1.scroll_in_sync()
                                } else {
                                    w1.spec_cursor() == w0.spec_cursor() && w1.spec_scroll()
                                        == w0.spec_scroll()
                                }
                            },
                            None => w1.spec_cursor() == w0.spec_cursor() && w1.spec_scroll()
                                == w0.spec_scroll(),
                        },
                        Position::End => match pre.buffer_of_window(w) {
                            Some(b) => {
                                let lines = pre.buffers()[b].lines();
                                if w0.spec_cursor().y < lines.len() {
                                    w1.spec_cursor() == (UVec2 {
                                        x: usize::MAX,
                                        y: w0.spec_cursor().y,
                                    }) && w1.scroll_in_sync()
                                } else {
                                    w1.spec_cursor() == w0.spec_cursor() && w1.spec_scroll()
                                        == w0.spec_scroll()
                                }
                            },
                            None => w1.spec_cursor() == w0.spec_cursor() && w1.spec_scroll()
                                == w0.spec_scroll(),
                        },
                    }
                }),
                None => pre.spec_unchanged(post),
            })
    &&& (action matches BuiltinAction::MoveToY(pos) ==> match pre.resolved_window(
                None,
            ) {
                Some(w) => pre.same_except_window(post, w) && ({
                    let w0 = pre.windows()[w];
                    let w1 = post.windows()[w];
                    &&& w1.spec_anchor() == w0.spec_anchor()
                    &&& w1.spec_size() == w0.spec_size()
                    &&& w1.spec_position() == w0.spec_position()
                    &&& w1.spec_buffer_id() == w0.spec_buffer_id()
                    &&& match pos {
                        Position::Start => w1.spec_cursor() == (UVec2 { x: 0usize, y: 0usize })
                            && w1.scroll_in_sync(),
                        Position::Number(y) => match pre.buffer_of_window(w) {
                            Some(b) => {
                                let lines = pre.buffers()[b].lines();
                                if y < lines.len() {
                                    &&& w1.spec_cursor().y == y
                                    &&& w1.spec_cursor().x as int == if w0.spec_cursor().x as int
                                        > lines[y as int].len() {
                                        lines[y as int].len() as int
                                    } else {
                                        w0.spec_cursor().x as int
                                    }
                                    &&& w1.scroll_in_sync()
                                } else {
                                    w1.spec_cursor() == w0.spec_cursor() && w1.spec_scroll()
                                        == w0.spec_scroll()
                                }
                            },
                            None => w1.spec_cursor() == w0.spec_cursor() && w1.spec_scroll()
                                == w0.spec_scroll(),
                        },
                        Position::End => match pre.buffer_of_window(w) {
                            Some(b) => {
                                let lines = pre.buffers()[b].lines();
                                if lines.len() > 0 {
                                    w1.spec_cursor() == (UVec2 {
                                        x: lines[lines.len() - 1].len() as usize,
                                        y: (lines.len() - 1) as usize,
                                    }) && w1.scroll_in_sync()
                                } else {
                                    w1.spec_cursor() == w0.spec_cursor()
                                }
                            },
                            None => w1.spec_cursor() == w0.spec_cursor() && w1.spec_scroll()
                                == w0.spec_scroll(),
                        },
                    }
                }),
                None => pre.spec_unchanged(post),
            })
    &&& (action matches BuiltinAction::MoveBy(off) ==> match pre.resolved_window(None) {
                Some(w) => match pre.buffer_of_window(w) {
                    Some(b) => pre.same_except_window(post, w) && ({
                        let w0 = pre.windows()[w];
                        let w1 = post.windows()[w];
                        let lines = pre.buffers()[b].lines();
                        &&& w1.spec_anchor() == w0.spec_anchor()
                        &&& w1.spec_size() == w0.spec_size()
                        &&& w1.spec_position() == w0.spec_position()
                        &&& w1.spec_buffer_id() == w0.spec_buffer_id()
                        &&& match spec_move_target(
                            w0.spec_cursor(),
                            lines,
                            pre.spec_mode(),
                            off,
                        ) {
                            Some(p) => w1.spec_cursor() == p && w1.scroll_in_sync(),
                            None => w1.spec_cursor() == spec_clamped_for_move(
                                w0.spec_cursor(),
                                lines,
                                pre.spec_mode(),
                                off,
                            ) && w1.spec_scroll() == w0.spec_scroll(),
                        }
                    }),
                    None => pre.spec_unchanged(post),
                },
                None => pre.spec_unchanged(post),
            })
}

/// The builtin bridge: it issues protocol requests against the editor
/// state, one at a time, each fully dispatched before the next — exactly
/// what a plugin does from outside, issued from within.
#[derive(Debug)]
pub struct Builtin {}

impl Builtin {
    /// A fresh bridge.
    pub fn new() -> (r: Builtin) {
        Builtin {}
    }

    /// Carry out one user action as a sequence of protocol requests.
    /// Mode changes behave as `spec_set_mode` states; removing the visual
    /// selection deletes the inclusive span between the anchor and the
    /// cursor, puts the cursor back at the anchor's column on the span's
    /// first line (clamped), and returns to normal mode — as does every
    /// action that enters a mode, through its final `ChangeMode`.
    pub fn on_action<F: FileIo>(
        &mut self,
        state: &mut EditorState,
        fs: &mut F,
        action: BuiltinAction,
    ) -> (r: Result<(), ()>)
        requires
            old(state).wf(),
        ensures
            final(state).wf(),
            r is Ok,
            spec_on_action_effect(old(state), final(state), action),
    {
        match action {
            BuiltinAction::Save => {
                let _r = state.process_request(fs, CuprumApiRequestKind::SaveBuffer(None, None));
                Ok(())
            },
            BuiltinAction::ChangeMode(m) => {
                let _r = state.process_request(fs, CuprumApiRequestKind::ChangeMode(m));
                Ok(())
            },
            BuiltinAction::MoveBy(offset) => {
                let _r = state.process_request(fs, CuprumApiRequestKind::MoveBy(None, offset));
                Ok(())
            },
            BuiltinAction::MoveToX(pos) => {
                let _r = state.process_request(fs, CuprumApiRequestKind::MoveToX(None, pos));
                Ok(())
            },
            BuiltinAction::MoveToY(pos) => {
                let _r = state.process_request(fs, CuprumApiRequestKind::MoveToY(None, pos));
                Ok(())
            },
            BuiltinAction::RemoveChar => {
                match state.process_request(fs, CuprumApiRequestKind::GetCursor(None)) {
                    Some(CuprumApiResponseKind::GetCursor(pos)) => {
                        let _r = state.process_request(fs, CuprumApiRequestKind::RemoveChar(None, pos));
                        Ok(())
                    },
                    _ => Ok(()),
                }
            },
            BuiltinAction::RemoveLine => {
                match state.process_request(fs, CuprumApiRequestKind::GetCursor(None)) {
                    Some(CuprumApiResponseKind::GetCursor(pos)) => {
                        let _r = state.process_request(fs, CuprumApiRequestKind::RemoveLine(None, pos.y),
                        );
                        Ok(())
                    },
                    _ => Ok(()),
                }
            },
            BuiltinAction::RemoveSelection => {
                let cursor = state.process_request(fs, CuprumApiRequestKind::GetCursor(None));
                let start = state.process_request(fs, CuprumApiRequestKind::GetVisualStart(None));
                match (cursor, start) {
                    (
                        Some(CuprumApiResponseKind::GetCursor(c)),
                        Some(CuprumApiResponseKind::GetVisualStart(a)),
                    ) => {
                        let c_first = c.y < a.y || (c.y == a.y && c.x < a.x);
                        let (l, rr) = if c_first {
                            (c, a)
                        } else {
                            (a, c)
                        };
                        let _r = state.process_request(fs, CuprumApiRequestKind::Remove(None, l, rr));
                        let _r = state.process_request(fs, CuprumApiRequestKind::MoveToY(None, Position::Number(l.y)),
                        );
                        let _r = state.process_request(fs, CuprumApiRequestKind::MoveToX(None, Position::Number(a.x)),
                        );
                        let _r = state.process_request(fs, CuprumApiRequestKind::ChangeMode(Mode::Normal),
                        );
                        Ok(())
                    },
                    _ => {
                        let _r = state.process_request(fs, CuprumApiRequestKind::ChangeMode(Mode::Normal),
                        );
                        Ok(())
                    },
                }
            },
            BuiltinAction::OpenLineBelow => {
                match state.process_request(fs, CuprumApiRequestKind::GetCursor(None)) {
                    Some(CuprumApiResponseKind::GetCursor(pos)) => {
                        if pos.y < usize::MAX {
                            let _r = state.process_request(fs, CuprumApiRequestKind::InsertLine(None, pos.y + 1, String::new()),
                            );
                        }
                        let _r = state.process_request(fs, CuprumApiRequestKind::MoveBy(None, IVec2::down()),
                        );
                        let _r = state.process_request(fs, CuprumApiRequestKind::ChangeMode(Mode::Insert(false)),
                        );
                        Ok(())
                    },
                    _ => {
                        let _r = state.process_request(fs, CuprumApiRequestKind::ChangeMode(Mode::Insert(false)),
                        );
                        Ok(())
                    },
                }
            },
            BuiltinAction::OpenLineAbove => {
                match state.process_request(fs, CuprumApiRequestKind::GetCursor(None)) {
                    Some(CuprumApiResponseKind::GetCursor(pos)) => {
                        let _r = state.process_request(fs, CuprumApiRequestKind::InsertLine(None, pos.y, String::new()),
                        );
                    },
                    _ => {},
                }
                let _r = state.process_request(fs, CuprumApiRequestKind::ChangeMode(Mode::Insert(false)),
                );
                Ok(())
            },
            BuiltinAction::InsertLineStart => {
                let _r = state.process_request(fs, CuprumApiRequestKind::MoveToX(None, Position::Start));
                let _r = state.process_request(fs, CuprumApiRequestKind::ChangeMode(Mode::Insert(false)),
                );
                Ok(())
            },
            BuiltinAction::AppendLineEnd => {
                let _r = state.process_request(fs, CuprumApiRequestKind::ChangeMode(Mode::Insert(true)),
                );
                let _r = state.process_request(fs, CuprumApiRequestKind::MoveToX(None, Position::End));
                Ok(())
            },
        }
    }
}

} // verus!

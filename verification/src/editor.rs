//! The editor application: the editor state, the modal input machine and
//! the builtin bridge, driven one decoded key event at a time.
//!
//! The surrounding program reads terminal events, decodes them into the
//! key alphabet, and feeds them here together with the time elapsed since
//! the previous key; everything that happens to the editor state as a
//! result is decided — and verified — in this crate.

use vstd::prelude::*;

use crate::action::Action;
use crate::api::{BufferId, Mode};
use crate::buffer::Buffer;
use crate::builtin::{spec_on_action_effect, Builtin};
use crate::fileio::FileIo;
use crate::input::{spec_base, InputManager, KeyCode};
use crate::state::{
    spec_batch_fold,
    spec_command_effect, spec_command_emit, spec_insert_effect, EditorState,
};
use crate::text::split_of;
use crate::vec2::UVec2;

verus! {

/// What one key event does in a sequence-machine mode (normal or
/// visual): the pending sequence evolves by the timeout rule and the
/// lookup, and the emitted action — quit, or a builtin action with the
/// effect `spec_on_action_effect` states — is carried out on the editor
/// state.
pub open spec fn spec_key_step(
    pre: &EditorApplication,
    post: &EditorApplication,
    key: Option<KeyCode>,
    elapsed_ms: Option<u64>,
    visual: bool,
) -> bool {
    match key {
        None => {
            &&& post.spec_state() == pre.spec_state()
            &&& post.spec_quit() == pre.spec_quit()
            &&& post.spec_pending() == spec_base(pre.spec_pending(), elapsed_ms)
        },
        Some(kc) => ({
            let nb = spec_base(pre.spec_pending(), elapsed_ms).push(kc);
            let hit = if visual {
                pre.spec_visual_get(nb)
            } else {
                pre.spec_normal_get(nb)
            };
            match hit {
                None => {
                    &&& post.spec_pending() == nb
                    &&& post.spec_state() == pre.spec_state()
                    &&& post.spec_quit() == pre.spec_quit()
                },
                Some(a) => post.spec_pending() == Seq::<KeyCode>::empty() && match a {
                    Action::Quit => post.spec_quit() && post.spec_state() == pre.spec_state(),
                    Action::Builtin(ba) => spec_on_action_effect(
                        &pre.spec_state(),
                        &post.spec_state(),
                        ba,
                    ) && post.spec_quit() == pre.spec_quit(),
                },
            }
        }),
    }
}

/// What one key does in command mode: the command machine steps as
/// `spec_command_effect` states (witnessed by the state it leaves), and
/// the action the line bound — if the key submitted one — is carried out
/// on that state.
pub open spec fn spec_command_step(
    pre: &EditorApplication,
    post: &EditorApplication,
    key: KeyCode,
) -> bool {
    exists|mid: EditorState|
        {
            &&& #[trigger] spec_command_effect(
                &pre.spec_state(),
                &mid,
                key,
                spec_command_emit(&pre.spec_state(), key),
            )
            &&& match spec_command_emit(&pre.spec_state(), key) {
                None => post.spec_state() == mid && post.spec_quit() == pre.spec_quit(),
                Some(a) => match a {
                    Action::Quit => post.spec_state() == mid && post.spec_quit(),
                    Action::Builtin(ba) => spec_on_action_effect(&mid, &post.spec_state(), ba)
                        && post.spec_quit() == pre.spec_quit(),
                },
            }
        }
}

/// The whole editor: state, input machine, builtin bridge, and the quit
/// flag.
#[derive(Debug)]
pub struct EditorApplication {
    state: EditorState,
    input_manager: InputManager,
    builtin: Builtin,
    is_quit: bool,
}

impl EditorApplication {
    /// Whether the application has been asked to quit.
    pub closed spec fn spec_quit(&self) -> bool {
        self.is_quit
    }

    /// The editor state.
    pub closed spec fn spec_state(&self) -> EditorState {
        self.state
    }

    /// The pending key sequence of the modal input machine.
    pub closed spec fn spec_pending(&self) -> Seq<KeyCode> {
        self.input_manager.pending()
    }

    /// The normal-mode binding of a key sequence.
    pub closed spec fn spec_normal_get(&self, k: Seq<KeyCode>) -> Option<Action> {
        self.input_manager.spec_normal_get(k)
    }

    /// The visual-mode binding of a key sequence.
    pub closed spec fn spec_visual_get(&self, k: Seq<KeyCode>) -> Option<Action> {
        self.input_manager.spec_visual_get(k)
    }

    /// The editor state is well formed.
    pub closed spec fn wf(&self) -> bool {
        self.state.wf()
    }

    /// A fresh application with no buffers open and the stock bindings.
    pub fn new() -> (r: EditorApplication)
        ensures
            !r.spec_quit(),
            r.wf(),
    {
        EditorApplication {
            state: EditorState::new(),
            input_manager: InputManager::default(),
            builtin: Builtin::new(),
            is_quit: false,
        }
    }

    /// Open one buffer holding the split of the given text (with its
    /// backing path, if it has one) and a window viewing it with the
    /// given viewport size, both under the next free handles. Only handle
    /// exhaustion leaves the state unchanged; in the ordinary flow, where
    /// the active handle is the next window handle, the active window is
    /// resolvable afterwards.
    pub fn open_initial(&mut self, path: Option<String>, text: &str, size: UVec2)
        requires
            old(self).wf(),
        ensures
            final(self).wf(),
            final(self).spec_quit() == old(self).spec_quit(),
            final(self).spec_pending() == old(self).spec_pending(),
            ({
                let st0 = old(self).spec_state();
                let st1 = final(self).spec_state();
                &&& st1.active() == st0.active()
                &&& st1.spec_mode() == st0.spec_mode()
                &&& st1.command() == st0.command()
                &&& if st0.buffer_next() < usize::MAX && st0.window_next() < usize::MAX {
                    let b = st0.buffer_next() as usize;
                    let w = st0.window_next() as usize;
                    &&& st1.buffers().dom() == st0.buffers().dom().insert(b)
                    &&& st1.windows().dom() == st0.windows().dom().insert(w)
                    &&& st1.buffers().contains_key(b)
                    &&& st1.buffers()[b].lines() == split_of(text@)
                    &&& st1.buffers()[b].backing() == match path {
                        Some(p) => Some(p@),
                        None => None::<Seq<char>>,
                    }
                    &&& !st1.buffers()[b].is_dirty()
                    &&& st1.windows().contains_key(w)
                    &&& st1.windows()[w].spec_buffer_id() == BufferId(b)
                    &&& st1.windows()[w].spec_cursor() == (UVec2 { x: 0usize, y: 0usize })
                    &&& st1.windows()[w].spec_anchor() is None
                    &&& st1.windows()[w].spec_scroll() == 0
                    &&& st1.windows()[w].spec_size() == size
                    &&& st1.buffer_next() == st0.buffer_next() + 1
                    &&& st1.window_next() == st0.window_next() + 1
                    &&& (st0.active() == w ==> st1.active_window_key() is Some)
                } else {
                    st0.spec_unchanged(&st1) && st1.buffer_next() == st0.buffer_next()
                        && st1.window_next() == st0.window_next()
                }
            }),
    {
        let buf = Buffer::from_text(path, text);
        let _opened = self.state.open_buffer_with_window(buf, size);
    }

    /// Read-only access to the editor state (the renderer's view).
    pub fn state(&self) -> (r: &EditorState)
        ensures
            *r == self.spec_state(),
    {
        &self.state
    }

    /// Set the active window's viewport size (done by the renderer);
    /// everything else about that window, and everything else entirely,
    /// stays as it was.
    pub fn set_viewport(&mut self, size: UVec2)
        requires
            old(self).wf(),
        ensures
            final(self).wf(),
            final(self).spec_quit() == old(self).spec_quit(),
            final(self).spec_pending() == old(self).spec_pending(),
            ({
                let st0 = old(self).spec_state();
                let st1 = final(self).spec_state();
                match st0.active_window_key() {
                    Some(w) => {
                        &&& st0.same_except_window(&st1, w)
                        &&& st1.windows()[w].spec_size() == size
                        &&& st1.windows()[w].spec_cursor() == st0.windows()[w].spec_cursor()
                        &&& st1.windows()[w].spec_anchor() == st0.windows()[w].spec_anchor()
                        &&& st1.windows()[w].spec_scroll() == st0.windows()[w].spec_scroll()
                        &&& st1.windows()[w].spec_position() == st0.windows()[w].spec_position()
                        &&& st1.windows()[w].spec_buffer_id() == st0.windows()[w].spec_buffer_id()
                    },
                    None => st0.spec_unchanged(&st1),
                }
            }),
    {
        self.state.set_active_window_size(size);
    }

    /// Ask the application to quit; nothing else changes.
    pub fn quit(&mut self)
        ensures
            final(self).spec_quit(),
            final(self).spec_state() == old(self).spec_state(),
            final(self).spec_pending() == old(self).spec_pending(),
            forall|k: Seq<KeyCode>|
                #![all_triggers]
                final(self).spec_normal_get(k) == old(self).spec_normal_get(k) && final(self).spec_visual_get(k) == old(self).spec_visual_get(k),
            final(self).wf() == old(self).wf(),
    {
        self.is_quit = true;
    }

    /// Whether the application has been asked to quit.
    pub fn get_quit(&self) -> (r: bool)
        ensures
            r == self.spec_quit(),
    {
        self.is_quit
    }

    /// Carry out one resolved action: quit sets the quit flag and leaves
    /// the editor state alone; a builtin action runs through the bridge
    /// with the effect `spec_on_action_effect` states.
    pub fn run_action<F: FileIo>(&mut self, fs: &mut F, action: Action) -> (r: Result<(), ()>)
        requires
            old(self).wf(),
        ensures
            final(self).wf(),
            r is Ok,
            old(self).spec_quit() ==> final(self).spec_quit(),
            final(self).spec_pending() == old(self).spec_pending(),
            action is Quit ==> final(self).spec_quit() && final(self).spec_state() == old(self).spec_state(),
            action matches Action::Builtin(a) ==> spec_on_action_effect(
                &old(self).spec_state(),
                &final(self).spec_state(),
                a,
            ) && final(self).spec_quit() == old(self).spec_quit(),
    {
        match action {
            Action::Quit => {
                self.quit();
                Ok(())
            },
            Action::Builtin(a) => self.builtin.on_action(&mut self.state, fs, a),
        }
    }

    /// Carry out one resolved action, as the event loop does.
    pub fn on_action<F: FileIo>(&mut self, fs: &mut F, action: Action) -> (r: Result<(), ()>)
        requires
            old(self).wf(),
        ensures
            final(self).wf(),
            r is Ok,
            old(self).spec_quit() ==> final(self).spec_quit(),
            final(self).spec_pending() == old(self).spec_pending(),
            action is Quit ==> final(self).spec_quit() && final(self).spec_state() == old(self).spec_state(),
            action matches Action::Builtin(a) ==> spec_on_action_effect(
                &old(self).spec_state(),
                &final(self).spec_state(),
                a,
            ) && final(self).spec_quit() == old(self).spec_quit(),
    {
        self.run_action(fs, action)
    }

    /// One key in normal mode: feed the sequence machine and run any
    /// action it emits.
    fn process_normal<F: FileIo>(&mut self, fs: &mut F, key: Option<KeyCode>, elapsed_ms: Option<
        u64,
    >) -> (r: Result<(), ()>)
        requires
            old(self).wf(),
        ensures
            final(self).wf(),
            r is Ok,
            old(self).spec_quit() ==> final(self).spec_quit(),
            spec_key_step(old(self), final(self), key, elapsed_ms, false),
    {
        match self.input_manager.read_event_normal(key, elapsed_ms) {
            Some(action) => self.run_action(fs, action),
            None => Ok(()),
        }
    }

    /// One key in visual mode: like normal mode, against the visual
    /// binding table.
    fn process_visual<F: FileIo>(&mut self, fs: &mut F, key: Option<KeyCode>, elapsed_ms: Option<
        u64,
    >) -> (r: Result<(), ()>)
        requires
            old(self).wf(),
        ensures
            final(self).wf(),
            r is Ok,
            old(self).spec_quit() ==> final(self).spec_quit(),
            spec_key_step(old(self), final(self), key, elapsed_ms, true),
    {
        match self.input_manager.read_event_visual(key, elapsed_ms) {
            Some(action) => self.run_action(fs, action),
            None => Ok(()),
        }
    }

    /// One key in command mode: extend or submit the command line and run
    /// any action the command table bound to it.
    fn process_command<F: FileIo>(&mut self, fs: &mut F, key: KeyCode) -> (r: Result<(), ()>)
        requires
            old(self).wf(),
        ensures
            final(self).wf(),
            r is Ok,
            old(self).spec_quit() ==> final(self).spec_quit(),
            final(self).spec_pending() == old(self).spec_pending(),
            spec_command_step(old(self), final(self), key),
    {
        let action = self.state.process_command(key);
        let ghost mid = self.state;
        let res = match action {
            Some(a) => self.run_action(fs, a),
            None => Ok(()),
        };
        proof {
            assert(spec_command_effect(
                &old(self).spec_state(),
                &mid,
                key,
                spec_command_emit(&old(self).spec_state(), key),
            ));
        }
        res
    }

    /// Dispatch a whole batch of plugin requests in arrival order; each
    /// response in the result answers the request at the same position,
    /// under that request's own sequence number, and a chain of
    /// intermediate states witnesses that each pair is one dispatched
    /// request, in order.
    pub fn process_plugin_batch<F: FileIo>(
        &mut self,
        fs: &mut F,
        batch: Vec<crate::api::CuprumApiRequest>,
    ) -> (r: Vec<crate::api::CuprumApiResponse>)
        requires
            old(self).wf(),
        ensures
            final(self).wf(),
            r@.len() == batch@.len(),
            forall|i: int| 0 <= i < batch@.len() ==> (#[trigger] r@[i]).id == batch@[i].id,
            final(self).spec_quit() == old(self).spec_quit(),
            final(self).spec_pending() == old(self).spec_pending(),
            exists|states: Seq<EditorState>|
                spec_batch_fold(
                    states,
                    old(self).spec_state(),
                    final(self).spec_state(),
                    batch@,
                    r@,
                ),
    {
        let ghost b = batch@;
        let r = self.state.process_batch(fs, batch);
        proof {
            let states0 = choose|states: Seq<EditorState>|
                spec_batch_fold(states, old(self).spec_state(), self.spec_state(), b, r@);
            assert(spec_batch_fold(states0, old(self).spec_state(), self.spec_state(), b, r@));
        }
        r
    }

    /// Process one decoded key event under the current mode, as one step
    /// of the corresponding mode machine: the sequence machine in normal
    /// and visual mode, the insert-mode editor, or the command line —
    /// each with the exact effect its own predicate states. `elapsed_ms`
    /// is the time since the previous key event, when there was one; only
    /// the sequence machines consult it.
    pub fn process<F: FileIo>(&mut self, fs: &mut F, key: Option<KeyCode>, elapsed_ms: Option<
        u64,
    >) -> (r: Result<(), ()>)
        requires
            old(self).wf(),
        ensures
            final(self).wf(),
            r is Ok,
            old(self).spec_quit() ==> final(self).spec_quit(),
            old(self).spec_state().spec_mode() == Mode::Normal ==> spec_key_step(
                old(self),
                final(self),
                key,
                elapsed_ms,
                false,
            ),
            old(self).spec_state().spec_mode() == Mode::Visual ==> spec_key_step(
                old(self),
                final(self),
                key,
                elapsed_ms,
                true,
            ),
            old(self).spec_state().spec_mode() matches Mode::Insert(a) ==> match key {
                Some(k) => spec_insert_effect(
                    &old(self).spec_state(),
                    &final(self).spec_state(),
                    k,
                    a,
                ) && final(self).spec_pending() == old(self).spec_pending() && final(self).spec_quit() == old(self).spec_quit(),
                None => final(self).spec_state() == old(self).spec_state() && final(self).spec_pending() == old(self).spec_pending() && final(self).spec_quit() == old(self).spec_quit(),
            },
            old(self).spec_state().spec_mode() == Mode::Command ==> match key {
                Some(k) => spec_command_step(old(self), final(self), k) && final(self).spec_pending() == old(self).spec_pending(),
                None => final(self).spec_state() == old(self).spec_state() && final(self).spec_pending() == old(self).spec_pending() && final(self).spec_quit() == old(self).spec_quit(),
            },
    {
        let mode = self.state.get_mode();
        match mode {
            Mode::Normal => self.process_normal(fs, key, elapsed_ms),
            Mode::Visual => self.process_visual(fs, key, elapsed_ms),
            Mode::Insert(is_append) => {
                match key {
                    Some(k) => {
                        self.state.process_insert(k, is_append);
                        Ok(())
                    },
                    None => Ok(()),
                }
            },
            Mode::Command => {
                match key {
                    Some(k) => self.process_command(fs, k),
                    None => Ok(()),
                }
            },
        }
    }
}

} // verus!

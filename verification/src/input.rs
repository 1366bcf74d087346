//! The modal input state machine over a decoded key alphabet.
//!
//! Normal and visual mode accumulate a key sequence; after each key the
//! sequence is looked up in a static binding table, emitting the bound
//! action on a match and waiting for more keys otherwise. A pause longer
//! than the timeout clears the pending sequence. Decoding terminal
//! escapes into this alphabet is an external collaborator's job.

use vstd::prelude::*;

use crate::action::Action;
use crate::api::{Mode, Position};
use crate::builtin::BuiltinAction;
use crate::vec2::IVec2;

verus! {

/// Milliseconds of silence after which a pending key sequence is dropped.
pub const KEY_TIMEOUT_MS: u64 = 500;

/// A decoded key event.
#[derive(Clone, Copy, Debug, Hash, PartialEq, Eq, Structural)]
pub enum KeyCode {
    Char(char),
    Ctrl(char),
    Backspace,
    Delete,
    Left,
    Right,
    Up,
    Down,
    Esc,
}

/// The binding found for a key sequence: the most recently registered
/// entry with that exact sequence.
pub closed spec fn spec_lookup(s: Seq<(Vec<KeyCode>, Action)>, k: Seq<KeyCode>) -> Option<Action>
    decreases s.len(),
{
    if s.len() == 0 {
        None
    } else if s.last().0@ == k {
        Some(s.last().1)
    } else {
        spec_lookup(s.drop_last(), k)
    }
}

/// A table binding key sequences to actions; registering a sequence again
/// replaces its binding.
#[derive(Debug)]
pub struct Keymap {
    map: Vec<(Vec<KeyCode>, Action)>,
}

impl Keymap {
    /// The action bound to a key sequence, if any.
    pub closed spec fn spec_get(&self, k: Seq<KeyCode>) -> Option<Action> {
        spec_lookup(self.map@, k)
    }

    /// An empty table.
    pub fn new() -> (r: Keymap)
        ensures
            forall|k: Seq<KeyCode>| r.spec_get(k) is None,
    {
        let r = Keymap { map: Vec::new() };
        proof {
            assert forall|k: Seq<KeyCode>| r.spec_get(k) is None by {}
        }
        r
    }

    /// Register a key sequence to an action, replacing any earlier
    /// binding of the same sequence.
    pub fn reg(&mut self, key: Vec<KeyCode>, action: Action)
        ensures
            final(self).spec_get(key@) == Some(action),
            forall|k: Seq<KeyCode>| k != key@ ==> final(self).spec_get(k) == old(self).spec_get(k),
    {
        let ghost ks = key@;
        self.map.push((key, action));
        proof {
            assert(self.map@.last().0@ == ks);
            assert(self.map@.drop_last() =~= old(self).map@);
        }
    }

    /// The action bound to a key sequence, if any.
    pub fn get(&self, key: &Vec<KeyCode>) -> (r: Option<&Action>)
        ensures
            match r {
                Some(a) => self.spec_get(key@) == Some(*a),
                None => self.spec_get(key@) is None,
            },
    {
        let mut i = self.map.len();
        proof {
            assert(self.map@.take(self.map@.len() as int) =~= self.map@);
        }
        while i > 0
            invariant
                i <= self.map@.len(),
                spec_lookup(self.map@.take(i as int), key@) == spec_lookup(self.map@, key@),
            decreases i,
        {
            i = i - 1;
            proof {
                assert(self.map@.take(i + 1).last() == self.map@[i as int]);
                assert(self.map@.take(i + 1).drop_last() =~= self.map@.take(i as int));
            }
            if key_seq_eq(&self.map[i].0, key) {
                return Some(&self.map[i].1);
            }
        }
        proof {
            assert(self.map@.take(0) =~= Seq::<(Vec<KeyCode>, Action)>::empty());
        }
        None
    }
}

/// Whether two key sequences are the same keys in the same order.
fn key_seq_eq(a: &Vec<KeyCode>, b: &Vec<KeyCode>) -> (r: bool)
    ensures
        r == (a@ == b@),
{
    if a.len() != b.len() {
        proof {
            assert(a@.len() != b@.len());
        }
        return false;
    }
    let mut i: usize = 0;
    while i < a.len()
        invariant
            i <= a@.len(),
            a@.len() == b@.len(),
            forall|j: int| 0 <= j < i ==> a@[j] == b@[j],
        decreases a@.len() - i,
    {
        if a[i] != b[i] {
            return false;
        }
        i += 1;
    }
    proof {
        assert(a@ =~= b@);
    }
    true
}

/// The modal input state machine: pending key sequence and the static
/// binding tables for normal and visual mode.
#[derive(Debug)]
pub struct InputManager {
    keymap: Keymap,
    visual_keymap: Keymap,
    key_buffer: Vec<KeyCode>,
}

impl InputManager {
    /// The pending key sequence.
    pub closed spec fn pending(&self) -> Seq<KeyCode> {
        self.key_buffer@
    }

    /// The normal-mode binding of a key sequence.
    pub closed spec fn spec_normal_get(&self, k: Seq<KeyCode>) -> Option<Action> {
        self.keymap.spec_get(k)
    }

    /// The visual-mode binding of a key sequence.
    pub closed spec fn spec_visual_get(&self, k: Seq<KeyCode>) -> Option<Action> {
        self.visual_keymap.spec_get(k)
    }

    /// An input manager with the given binding tables and no pending keys.
    pub fn with_keymaps(keymap: Keymap, visual_keymap: Keymap) -> (r: InputManager)
        ensures
            r.pending() == Seq::<KeyCode>::empty(),
            forall|k: Seq<KeyCode>| r.spec_normal_get(k) == keymap.spec_get(k),
            forall|k: Seq<KeyCode>| r.spec_visual_get(k) == visual_keymap.spec_get(k),
    {
        let r = InputManager { keymap, visual_keymap, key_buffer: Vec::new() };
        proof {
            assert(r.pending() =~= Seq::<KeyCode>::empty());
        }
        r
    }

    /// Feed one decoded key (or none) to the normal-mode machine.
    /// `elapsed_ms` is the time since the previous key, if there was one;
    /// a pause over the timeout clears the pending sequence first. The
    /// new key is appended and the sequence looked up: on a match the
    /// sequence is cleared and the bound action emitted; otherwise the
    /// sequence stays pending.
    pub fn read_event_normal(&mut self, key: Option<KeyCode>, elapsed_ms: Option<u64>) -> (r:
        Option<Action>)
        ensures
            key is None ==> r is None && final(self).pending() == spec_base(
                old(self).pending(),
                elapsed_ms,
            ),
            key matches Some(kc) ==> ({
                let nb = spec_base(old(self).pending(), elapsed_ms).push(kc);
                match old(self).spec_normal_get(nb) {
                    Some(a) => r == Some(a) && final(self).pending() == Seq::<KeyCode>::empty(),
                    None => r is None && final(self).pending() == nb,
                }
            }),
            forall|k: Seq<KeyCode>|
                #![all_triggers]
                final(self).spec_normal_get(k) == old(self).spec_normal_get(k) && final(self).spec_visual_get(k) == old(self).spec_visual_get(k),
    {
        let found = self.feed(key, elapsed_ms, false);
        found
    }

    /// Feed one decoded key (or none) to the visual-mode machine; the
    /// sequence logic is that of normal mode against the visual binding
    /// table.
    pub fn read_event_visual(&mut self, key: Option<KeyCode>, elapsed_ms: Option<u64>) -> (r:
        Option<Action>)
        ensures
            key is None ==> r is None && final(self).pending() == spec_base(
                old(self).pending(),
                elapsed_ms,
            ),
            key matches Some(kc) ==> ({
                let nb = spec_base(old(self).pending(), elapsed_ms).push(kc);
                match old(self).spec_visual_get(nb) {
                    Some(a) => r == Some(a) && final(self).pending() == Seq::<KeyCode>::empty(),
                    None => r is None && final(self).pending() == nb,
                }
            }),
            forall|k: Seq<KeyCode>|
                #![all_triggers]
                final(self).spec_normal_get(k) == old(self).spec_normal_get(k) && final(self).spec_visual_get(k) == old(self).spec_visual_get(k),
    {
        let found = self.feed(key, elapsed_ms, true);
        found
    }

    /// The shared sequence logic of both modal machines.
    fn feed(&mut self, key: Option<KeyCode>, elapsed_ms: Option<u64>, visual: bool) -> (r: Option<
        Action,
    >)
        ensures
            key is None ==> r is None && final(self).pending() == spec_base(
                old(self).pending(),
                elapsed_ms,
            ),
            key matches Some(kc) ==> ({
                let nb = spec_base(old(self).pending(), elapsed_ms).push(kc);
                let hit = if visual {
                    old(self).spec_visual_get(nb)
                } else {
                    old(self).spec_normal_get(nb)
                };
                match hit {
                    Some(a) => r == Some(a) && final(self).pending() == Seq::<KeyCode>::empty(),
                    None => r is None && final(self).pending() == nb,
                }
            }),
            final(self).keymap == old(self).keymap,
            final(self).visual_keymap == old(self).visual_keymap,
    {
        if let Some(e) = elapsed_ms {
            if e > KEY_TIMEOUT_MS {
                self.key_buffer = Vec::new();
                proof {
                    assert(self.key_buffer@ =~= Seq::<KeyCode>::empty());
                }
            }
        }
        match key {
            Some(k) => {
                self.key_buffer.push(k);
                let hit = if visual {
                    self.visual_keymap.get(&self.key_buffer)
                } else {
                    self.keymap.get(&self.key_buffer)
                };
                match hit {
                    Some(action) => {
                        let action = *action;
                        self.key_buffer = Vec::new();
                        proof {
                            assert(self.key_buffer@ =~= Seq::<KeyCode>::empty());
                        }
                        Some(action)
                    },
                    None => None,
                }
            },
            None => None,
        }
    }
}

/// The pending sequence after the timeout rule: cleared when the pause
/// since the previous key was longer than the timeout.
pub open spec fn spec_base(pending0: Seq<KeyCode>, elapsed_ms: Option<u64>) -> Seq<KeyCode> {
    if elapsed_ms matches Some(e) && e > KEY_TIMEOUT_MS {
        Seq::<KeyCode>::empty()
    } else {
        pending0
    }
}

/// The default normal-mode binding table.
impl Default for InputManager {
    /// The stock tables: vi-like movement, mode changes, and edits in
    /// normal mode; movement, abandonment and selection removal in
    /// visual mode.
    fn default() -> (r: InputManager)
        ensures
            r.pending() == Seq::<KeyCode>::empty(),
    {
        InputManager::with_keymaps(default_normal_keymap(), default_visual_keymap())
    }
}

/// The stock normal-mode bindings.
pub fn default_normal_keymap() -> (r: Keymap) {
    let mut s = Keymap::new();
    s.reg(vec![KeyCode::Char('h')], Action::Builtin(BuiltinAction::MoveBy(IVec2::left())));
    s.reg(vec![KeyCode::Char('j')], Action::Builtin(BuiltinAction::MoveBy(IVec2::down())));
    s.reg(vec![KeyCode::Char('k')], Action::Builtin(BuiltinAction::MoveBy(IVec2::up())));
    s.reg(vec![KeyCode::Char('l')], Action::Builtin(BuiltinAction::MoveBy(IVec2::right())));
    s.reg(vec![KeyCode::Char('0')], Action::Builtin(BuiltinAction::MoveToX(Position::Start)));
    s.reg(vec![KeyCode::Char('$')], Action::Builtin(BuiltinAction::MoveToX(Position::End)));
    s.reg(
        vec![KeyCode::Char('g'), KeyCode::Char('g')],
        Action::Builtin(BuiltinAction::MoveToY(Position::Start)),
    );
    s.reg(vec![KeyCode::Char('G')], Action::Builtin(BuiltinAction::MoveToY(Position::End)));
    s.reg(
        vec![KeyCode::Char('i')],
        Action::Builtin(BuiltinAction::ChangeMode(Mode::Insert(false))),
    );
    s.reg(vec![KeyCode::Char('a')], Action::Builtin(BuiltinAction::ChangeMode(Mode::Insert(true))));
    s.reg(vec![KeyCode::Char('I')], Action::Builtin(BuiltinAction::InsertLineStart));
    s.reg(vec![KeyCode::Char('A')], Action::Builtin(BuiltinAction::AppendLineEnd));
    s.reg(vec![KeyCode::Char(':')], Action::Builtin(BuiltinAction::ChangeMode(Mode::Command)));
    s.reg(vec![KeyCode::Char('v')], Action::Builtin(BuiltinAction::ChangeMode(Mode::Visual)));
    s.reg(vec![KeyCode::Char('o')], Action::Builtin(BuiltinAction::OpenLineBelow));
    s.reg(vec![KeyCode::Char('O')], Action::Builtin(BuiltinAction::OpenLineAbove));
    s.reg(vec![KeyCode::Char('x')], Action::Builtin(BuiltinAction::RemoveChar));
    s.reg(
        vec![KeyCode::Char('d'), KeyCode::Char('d')],
        Action::Builtin(BuiltinAction::RemoveLine),
    );
    s
}

/// The stock visual-mode bindings.
pub fn default_visual_keymap() -> (r: Keymap) {
    let mut s = Keymap::new();
    s.reg(vec![KeyCode::Char('h')], Action::Builtin(BuiltinAction::MoveBy(IVec2::left())));
    s.reg(vec![KeyCode::Char('j')], Action::Builtin(BuiltinAction::MoveBy(IVec2::down())));
    s.reg(vec![KeyCode::Char('k')], Action::Builtin(BuiltinAction::MoveBy(IVec2::up())));
    s.reg(vec![KeyCode::Char('l')], Action::Builtin(BuiltinAction::MoveBy(IVec2::right())));
    s.reg(vec![KeyCode::Char('0')], Action::Builtin(BuiltinAction::MoveToX(Position::Start)));
    s.reg(vec![KeyCode::Char('$')], Action::Builtin(BuiltinAction::MoveToX(Position::End)));
    s.reg(vec![KeyCode::Char('x')], Action::Builtin(BuiltinAction::RemoveSelection));
    s.reg(vec![KeyCode::Char('d')], Action::Builtin(BuiltinAction::RemoveSelection));
    s.reg(vec![KeyCode::Esc], Action::Builtin(BuiltinAction::ChangeMode(Mode::Normal)));
    s
}

} // verus!

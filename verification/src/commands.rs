//! The command-line table: command names bound to actions.

use vstd::prelude::*;
use vstd::string::*;

use crate::action::Action;
use crate::builtin::BuiltinAction;

verus! {

/// The binding found for a command name: the most recently registered
/// entry with that exact name.
pub closed spec fn spec_cmd_lookup(s: Seq<(String, Action)>, name: Seq<char>) -> Option<Action>
    decreases s.len(),
{
    if s.len() == 0 {
        None
    } else if s.last().0@ == name {
        Some(s.last().1)
    } else {
        spec_cmd_lookup(s.drop_last(), name)
    }
}

/// A table binding command names to actions; registering a name again
/// replaces its binding.
#[derive(Debug)]
pub struct CommandMap {
    map: Vec<(String, Action)>,
}

impl CommandMap {
    /// The action bound to a command name, if any.
    pub closed spec fn spec_get(&self, name: Seq<char>) -> Option<Action> {
        spec_cmd_lookup(self.map@, name)
    }

    /// An empty table.
    pub fn new() -> (r: CommandMap)
        ensures
            forall|n: Seq<char>| r.spec_get(n) is None,
    {
        let r = CommandMap { map: Vec::new() };
        proof {
            assert forall|n: Seq<char>| r.spec_get(n) is None by {}
        }
        r
    }

    /// Register a command name to an action, replacing any earlier
    /// binding of the same name.
    pub fn reg(&mut self, name: &str, action: Action)
        ensures
            final(self).spec_get(name@) == Some(action),
            forall|n: Seq<char>| n != name@ ==> final(self).spec_get(n) == old(self).spec_get(n),
    {
        let owned = name.to_owned();
        let ghost ns = owned@;
        self.map.push((owned, action));
        proof {
            assert(self.map@.last().0@ == name@);
            assert(self.map@.drop_last() =~= old(self).map@);
        }
    }

    /// The action bound to a command name, if any.
    pub fn get(&self, name: &String) -> (r: Option<&Action>)
        ensures
            match r {
                Some(a) => self.spec_get(name@) == Some(*a),
                None => self.spec_get(name@) is None,
            },
    {
        let mut i = self.map.len();
        proof {
            assert(self.map@.take(self.map@.len() as int) =~= self.map@);
        }
        while i > 0
            invariant
                i <= self.map@.len(),
                spec_cmd_lookup(self.map@.take(i as int), name@) == spec_cmd_lookup(
                    self.map@,
                    name@,
                ),
            decreases i,
        {
            i = i - 1;
            proof {
                assert(self.map@.take(i + 1).last() == self.map@[i as int]);
                assert(self.map@.take(i + 1).drop_last() =~= self.map@.take(i as int));
            }
            if self.map[i].0.eq(name) {
                return Some(&self.map[i].1);
            }
        }
        proof {
            assert(self.map@.take(0) =~= Seq::<(String, Action)>::empty());
        }
        None
    }
}

impl Default for CommandMap {
    /// The stock command table: `q` quits, `w` saves the active buffer,
    /// and no other name is bound.
    fn default() -> (r: CommandMap)
        ensures
            r.spec_get("q"@) == Some(Action::Quit),
            r.spec_get("w"@) == Some(Action::Builtin(BuiltinAction::Save)),
            forall|n: Seq<char>| n != "q"@ && n != "w"@ ==> r.spec_get(n) is None,
    {
        let mut s = CommandMap::new();
        s.reg("q", Action::Quit);
        s.reg("w", Action::Builtin(BuiltinAction::Save));
        proof {
            reveal_strlit("q");
            reveal_strlit("w");
            assert("q"@.len() == 1);
            assert("q"@[0] == 'q');
            assert("w"@[0] == 'w');
        }
        s
    }
}

} // verus!

//! Registries of buffers and windows: opaque, monotonically increasing
//! integer handles mapped to owned items. A handle is never reused, and
//! closing an item never disturbs the others.

use vstd::prelude::*;

use crate::api::{BufferId, WindowId};
use crate::buffer::Buffer;
use crate::window::Window;

verus! {

/// The map described by an association sequence: later entries win
/// (though a well-formed registry never repeats a key).
pub closed spec fn map_of<T>(s: Seq<(usize, T)>) -> Map<usize, T>
    decreases s.len(),
{
    if s.len() == 0 {
        Map::empty()
    } else {
        map_of(s.drop_last()).insert(s.last().0, s.last().1)
    }
}

proof fn lemma_map_of_not_contains<T>(s: Seq<(usize, T)>, k: usize)
    requires
        forall|i: int| 0 <= i < s.len() ==> (#[trigger] s[i]).0 != k,
    ensures
        !map_of(s).contains_key(k),
    decreases s.len(),
{
    if s.len() > 0 {
        lemma_map_of_not_contains(s.drop_last(), k);
    }
}

proof fn lemma_map_of_index<T>(s: Seq<(usize, T)>, i: int)
    requires
        0 <= i < s.len(),
        forall|a: int, b: int| 0 <= a < b < s.len() ==> (#[trigger] s[a]).0 != (#[trigger] s[b]).0,
    ensures
        map_of(s).contains_key(s[i].0),
        map_of(s)[s[i].0] == s[i].1,
    decreases s.len(),
{
    if i == s.len() - 1 {
    } else {
        lemma_map_of_index(s.drop_last(), i);
        assert(s.drop_last()[i] == s[i]);
        assert(s[i].0 != s.last().0);
    }
}

proof fn lemma_map_of_push<T>(s: Seq<(usize, T)>, k: usize, v: T)
    ensures
        map_of(s.push((k, v))) == map_of(s).insert(k, v),
{
    assert(s.push((k, v)).drop_last() =~= s);
    assert(s.push((k, v)).last() == (k, v));
}

proof fn lemma_map_of_update<T>(s: Seq<(usize, T)>, i: int, v: T)
    requires
        0 <= i < s.len(),
        forall|a: int, b: int| 0 <= a < b < s.len() ==> (#[trigger] s[a]).0 != (#[trigger] s[b]).0,
    ensures
        map_of(s.update(i, (s[i].0, v))) == map_of(s).insert(s[i].0, v),
    decreases s.len(),
{
    let t = s.update(i, (s[i].0, v));
    if i == s.len() - 1 {
        assert(t.drop_last() =~= s.drop_last());
        assert(t.last() == (s[i].0, v));
    } else {
        assert(t.drop_last() =~= s.drop_last().update(i, (s[i].0, v)));
        assert(s.drop_last()[i] == s[i]);
        lemma_map_of_update(s.drop_last(), i, v);
        assert(t.last() == s.last());
        assert(s[i].0 != s.last().0);
        assert(map_of(s.drop_last()).insert(s[i].0, v).insert(s.last().0, s.last().1) =~= map_of(
            s.drop_last(),
        ).insert(s.last().0, s.last().1).insert(s[i].0, v));
    }
}

proof fn lemma_map_of_remove<T>(s: Seq<(usize, T)>, i: int)
    requires
        0 <= i < s.len(),
        forall|a: int, b: int| 0 <= a < b < s.len() ==> (#[trigger] s[a]).0 != (#[trigger] s[b]).0,
    ensures
        map_of(s.remove(i)) == map_of(s).remove(s[i].0),
    decreases s.len(),
{
    let t = s.remove(i);
    if i == s.len() - 1 {
        assert(t =~= s.drop_last());
        lemma_map_of_not_contains_of_distinct(s.drop_last(), s[i].0, s.len() - 1, s);
        assert(map_of(s.drop_last()) =~= map_of(s.drop_last()).insert(s.last().0, s.last().1).remove(
            s[i].0,
        ));
    } else {
        assert(t.drop_last() =~= s.drop_last().remove(i));
        assert(s.drop_last()[i] == s[i]);
        lemma_map_of_remove(s.drop_last(), i);
        assert(t.last() == s.last());
        assert(s[i].0 != s.last().0);
        assert(map_of(s.drop_last()).remove(s[i].0).insert(s.last().0, s.last().1) =~= map_of(
            s.drop_last(),
        ).insert(s.last().0, s.last().1).remove(s[i].0));
    }
}

proof fn lemma_map_of_not_contains_of_distinct<T>(
    s: Seq<(usize, T)>,
    k: usize,
    j: int,
    full: Seq<(usize, T)>,
)
    requires
        0 <= j < full.len(),
        s == full.drop_last(),
        j == full.len() - 1,
        k == full[j].0,
        forall|a: int, b: int|
            0 <= a < b < full.len() ==> (#[trigger] full[a]).0 != (#[trigger] full[b]).0,
    ensures
        !map_of(s).contains_key(k),
{
    assert forall|i: int| 0 <= i < s.len() implies (#[trigger] s[i]).0 != k by {
        assert(s[i] == full[i]);
    }
    lemma_map_of_not_contains(s, k);
}

/// A registry of owned items under monotonically assigned handles.
#[derive(Debug)]
pub struct Registry<T> {
    pub(crate) items: Vec<(usize, T)>,
    pub(crate) next_index: usize,
}

impl<T> Registry<T> {
    /// The registered items, by handle.
    pub closed spec fn m(&self) -> Map<usize, T> {
        map_of(self.items@)
    }

    /// The next handle to assign.
    pub closed spec fn next(&self) -> int {
        self.next_index as int
    }

    /// Handles are pairwise distinct and lie below the next to assign.
    pub closed spec fn wf(&self) -> bool {
        &&& forall|i: int|
            0 <= i < self.items@.len() ==> (#[trigger] self.items@[i]).0 < self.next_index
        &&& forall|a: int, b: int|
            0 <= a < b < self.items@.len() ==> (#[trigger] self.items@[a]).0
                != (#[trigger] self.items@[b]).0
    }

    /// An empty registry.
    pub fn new() -> (r: Registry<T>)
        ensures
            r.m() == Map::<usize, T>::empty(),
            r.next() == 0,
            r.wf(),
    {
        Registry { items: Vec::new(), next_index: 0 }
    }

    /// Register an item under a fresh handle; absent only when the handle
    /// space is exhausted.
    pub fn register(&mut self, item: T) -> (r: Option<usize>)
        requires
            old(self).wf(),
        ensures
            final(self).wf(),
            match r {
                Some(id) => {
                    &&& id == old(self).next()
                    &&& !old(self).m().contains_key(id)
                    &&& final(self).m() == old(self).m().insert(id, item)
                    &&& final(self).next() == old(self).next() + 1
                },
                None => {
                    &&& old(self).next() == usize::MAX
                    &&& *final(self) == *old(self)
                },
            },
    {
        if self.next_index == usize::MAX {
            return None;
        }
        let id = self.next_index;
        proof {
            assert forall|i: int| 0 <= i < self.items@.len() implies (#[trigger] self.items@[i]).0
                != id by {}
            lemma_map_of_not_contains(self.items@, id);
            lemma_map_of_push(self.items@, id, item);
        }
        self.items.push((id, item));
        self.next_index = self.next_index + 1;
        Some(id)
    }

    /// The item under a handle, if one is registered.
    pub fn get(&self, id: usize) -> (r: Option<&T>)
        requires
            self.wf(),
        ensures
            match r {
                Some(t) => self.m().contains_key(id) && *t == self.m()[id],
                None => !self.m().contains_key(id),
            },
    {
        match self.index_of(id) {
            Some(i) => Some(&self.items[i].1),
            None => None,
        }
    }

    /// Whether a handle is registered.
    pub fn contains(&self, id: usize) -> (r: bool)
        requires
            self.wf(),
        ensures
            r == self.m().contains_key(id),
    {
        self.index_of(id).is_some()
    }

    /// Remove and return the item under a handle.
    pub fn remove(&mut self, id: usize) -> (r: Option<T>)
        requires
            old(self).wf(),
        ensures
            final(self).wf(),
            final(self).next() == old(self).next(),
            match r {
                Some(t) => {
                    &&& old(self).m().contains_key(id)
                    &&& t == old(self).m()[id]
                    &&& final(self).m() == old(self).m().remove(id)
                },
                None => !old(self).m().contains_key(id) && *final(self) == *old(self),
            },
    {
        match self.index_of(id) {
            Some(i) => {
                proof {
                    lemma_map_of_remove(self.items@, i as int);
                }
                let (_, t) = self.items.remove(i);
                Some(t)
            },
            None => None,
        }
    }

    /// The position of a handle's entry in the backing vector.
    pub(crate) fn index_of(&self, id: usize) -> (r: Option<usize>)
        requires
            self.wf(),
        ensures
            match r {
                Some(i) => {
                    &&& i < self.items@.len()
                    &&& self.items@[i as int].0 == id
                    &&& self.m().contains_key(id)
                    &&& self.items@[i as int].1 == self.m()[id]
                },
                None => !self.m().contains_key(id),
            },
    {
        let mut i: usize = 0;
        while i < self.items.len()
            invariant
                i <= self.items@.len(),
                self.wf(),
                forall|k: int| 0 <= k < i ==> (#[trigger] self.items@[k]).0 != id,
            decreases self.items@.len() - i,
        {
            if self.items[i].0 == id {
                proof {
                    lemma_map_of_index(self.items@, i as int);
                }
                return Some(i);
            }
            i += 1;
        }
        proof {
            lemma_map_of_not_contains(self.items@, id);
        }
        None
    }

    /// Mutable access to the entry at a backing position; the registry
    /// afterwards maps that entry's handle to whatever the caller leaves
    /// behind.
    pub(crate) fn at_mut(&mut self, i: usize) -> (b: &mut T)
        requires
            old(self).wf(),
            i < old(self).items@.len(),
        ensures
            *b == old(self).items@[i as int].1,
            final(self).items@ == old(self).items@.update(
                i as int,
                (old(self).items@[i as int].0, *final(b)),
            ),
            final(self).m() == old(self).m().insert(old(self).items@[i as int].0, *final(b)),
            final(self).next() == old(self).next(),
            final(self).wf(),
    {
        proof {
            let s = self.items@;
            assert forall|v: T| #[trigger] map_of(s.update(i as int, (s[i as int].0, v))) == map_of(
                s,
            ).insert(s[i as int].0, v) by {
                lemma_map_of_update(s, i as int, v);
            }
        }
        let entry = &mut self.items[i];
        &mut entry.1
    }

    /// The next handle to assign.
    pub(crate) fn next_value(&self) -> (r: usize)
        ensures
            r == self.next(),
    {
        self.next_index
    }

    /// How many items are registered.
    pub(crate) fn len(&self) -> (r: usize)
        ensures
            r == self.items@.len(),
    {
        self.items.len()
    }
}

/// The registry of open buffers.
#[derive(Debug)]
pub struct BufferManager {
    pub(crate) reg: Registry<Buffer>,
}

impl BufferManager {
    /// The open buffers, by handle.
    pub closed spec fn m(&self) -> Map<usize, Buffer> {
        self.reg.m()
    }

    /// Handles are distinct and below the next to assign.
    pub closed spec fn wf(&self) -> bool {
        self.reg.wf()
    }

    /// The next handle to assign.
    pub closed spec fn next_handle(&self) -> int {
        self.reg.next()
    }

    /// An empty registry of buffers.
    pub fn new() -> (r: BufferManager)
        ensures
            r.m() == Map::<usize, Buffer>::empty(),
            r.wf(),
            r.next_handle() == 0,
    {
        BufferManager { reg: Registry::new() }
    }

    /// Register an open buffer under a fresh handle; absent only when the
    /// handle space is exhausted.
    pub fn open_buffer(&mut self, buf: Buffer) -> (r: Option<BufferId>)
        requires
            old(self).wf(),
        ensures
            final(self).wf(),
            match r {
                Some(id) => {
                    &&& !old(self).m().contains_key(id.0)
                    &&& final(self).m() == old(self).m().insert(id.0, buf)
                    &&& id.0 == old(self).next_handle()
                    &&& final(self).next_handle() == old(self).next_handle() + 1
                },
                None => old(self).next_handle() == usize::MAX && *final(self) == *old(self),
            },
    {
        match self.reg.register(buf) {
            Some(id) => Some(BufferId(id)),
            None => None,
        }
    }

    /// Close a buffer, dropping it from the registry.
    pub fn close_buffer(&mut self, id: BufferId)
        requires
            old(self).wf(),
        ensures
            final(self).wf(),
            final(self).m() == old(self).m().remove(id.0),
    {
        let r = self.reg.remove(id.0);
        proof {
            if r is None {
                assert(old(self).m() =~= old(self).m().remove(id.0));
            }
        }
    }

    /// The buffer under a handle, if it is open.
    pub fn get_buffer(&self, id: BufferId) -> (r: Option<&Buffer>)
        requires
            self.wf(),
        ensures
            match r {
                Some(b) => self.m().contains_key(id.0) && *b == self.m()[id.0],
                None => !self.m().contains_key(id.0),
            },
    {
        self.reg.get(id.0)
    }
}

/// The buffer registry and its backing registry agree; this bridges the
/// wrapper's abstract view to the registry's for code inside the crate.
pub(crate) proof fn lemma_buffer_manager_reg(bm: &BufferManager)
    ensures
        bm.m() == bm.reg.m(),
        bm.wf() == bm.reg.wf(),
        bm.next_handle() == bm.reg.next(),
{
}

/// The registry of open windows.
#[derive(Debug)]
pub struct WindowManager {
    pub(crate) reg: Registry<Window>,
}

impl WindowManager {
    /// The open windows, by handle.
    pub closed spec fn m(&self) -> Map<usize, Window> {
        self.reg.m()
    }

    /// Handles are distinct and below the next to assign.
    pub closed spec fn wf(&self) -> bool {
        self.reg.wf()
    }

    /// The next handle to assign.
    pub closed spec fn next_handle(&self) -> int {
        self.reg.next()
    }

    /// An empty registry of windows.
    pub fn new() -> (r: WindowManager)
        ensures
            r.m() == Map::<usize, Window>::empty(),
            r.wf(),
            r.next_handle() == 0,
    {
        WindowManager { reg: Registry::new() }
    }

    /// Register a window under a fresh handle; absent only when the
    /// handle space is exhausted.
    pub fn open_window(&mut self, win: Window) -> (r: Option<WindowId>)
        requires
            old(self).wf(),
        ensures
            final(self).wf(),
            match r {
                Some(id) => {
                    &&& !old(self).m().contains_key(id.0)
                    &&& final(self).m() == old(self).m().insert(id.0, win)
                    &&& id.0 == old(self).next_handle()
                    &&& final(self).next_handle() == old(self).next_handle() + 1
                },
                None => old(self).next_handle() == usize::MAX && *final(self) == *old(self),
            },
    {
        match self.reg.register(win) {
            Some(id) => Some(WindowId(id)),
            None => None,
        }
    }

    /// Close a window, dropping it from the registry.
    pub fn close_buffer(&mut self, id: WindowId)
        requires
            old(self).wf(),
        ensures
            final(self).wf(),
            final(self).m() == old(self).m().remove(id.0),
    {
        let r = self.reg.remove(id.0);
        proof {
            if r is None {
                assert(old(self).m() =~= old(self).m().remove(id.0));
            }
        }
    }

    /// The window under a handle, if it is open.
    pub fn get_window(&self, id: WindowId) -> (r: Option<&Window>)
        requires
            self.wf(),
        ensures
            match r {
                Some(w) => self.m().contains_key(id.0) && *w == self.m()[id.0],
                None => !self.m().contains_key(id.0),
            },
    {
        self.reg.get(id.0)
    }
}

/// The window registry and its backing registry agree; this bridges the
/// wrapper's abstract view to the registry's for code inside the crate.
pub(crate) proof fn lemma_window_manager_reg(wm: &WindowManager)
    ensures
        wm.m() == wm.reg.m(),
        wm.wf() == wm.reg.wf(),
        wm.next_handle() == wm.reg.next(),
{
}

} // verus!


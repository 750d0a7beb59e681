//! Bounded undo / redo stack with optional coalescing.
//!
//! Callers snapshot the state *before* mutating it via `push`; `pop_undo`
//! hands back the most recent snapshot (and keeps the displaced state on the
//! redo side), `pop_redo` does the reverse.
//!
//! Coalescing: when the same logical edit fires many times in a row (e.g.
//! dragging a font-size spinner), `push_coalesced` records only the first push
//! of any contiguous run of the same key, so one undo reverts the whole run.
use vstd::prelude::*;

verus! {

/// Capacity of a stack made by `UndoStack::new`.
pub const DEFAULT_CAPACITY: usize = 200;

/// Identifies a logical edit so consecutive identical keys can collapse
/// into one undo step. Distinct keys (or `None`, set after non-coalescing
/// pushes) always force a fresh entry.
#[derive(Debug, Clone, Copy, PartialEq, Eq, Hash, Structural)]
pub enum CoalesceKey {
    FontFamily(usize),
    FontSize(usize),
    FontColor(usize),
    StrokeColor(usize),
    StrokeWidth(usize),
    StrokeStyle(usize),
    /// Default-side font edits (no text annotation selected).
    FontDefault,
}

/// The mathematical state of an undo stack: the undo side (`past`, oldest
/// first), the redo side (`future`, the next redo last), the key of the
/// coalescing run in progress, and the bound on the history's length.
pub struct UndoHistory<T> {
    pub past: Seq<T>,
    pub future: Seq<T>,
    pub last_key: Option<CoalesceKey>,
    pub capacity: nat,
}

impl<T> UndoHistory<T> {
    /// Well-formed: the capacity is positive and the undo and redo sides
    /// together never hold more snapshots than the capacity.
    pub open spec fn wf(self) -> bool {
        &&& self.capacity >= 1
        &&& self.past.len() + self.future.len() <= self.capacity
    }

    /// The undo side after recording `snapshot`: appended, and the oldest
    /// snapshot evicted when the capacity would be exceeded.
    pub open spec fn recorded(self, snapshot: T) -> Seq<T> {
        let p = self.past.push(snapshot);
        if p.len() > self.capacity {
            p.drop_first()
        } else {
            p
        }
    }

    /// State after a non-coalescing push.
    pub open spec fn pushed(self, snapshot: T) -> UndoHistory<T> {
        UndoHistory {
            past: self.recorded(snapshot),
            future: Seq::empty(),
            last_key: None,
            capacity: self.capacity,
        }
    }

    /// State after a coalescing push: unchanged while `key` continues the
    /// current run, otherwise a fresh entry that starts a run of `key`.
    pub open spec fn pushed_coalesced(self, key: CoalesceKey, snapshot: T) -> UndoHistory<T> {
        if self.last_key == Some(key) {
            self
        } else {
            UndoHistory {
                past: self.recorded(snapshot),
                future: Seq::empty(),
                last_key: Some(key),
                capacity: self.capacity,
            }
        }
    }

    /// State after an undo that displaced `current` (meaningful when the undo
    /// side is non-empty).
    pub open spec fn undone(self, current: T) -> UndoHistory<T> {
        UndoHistory {
            past: self.past.drop_last(),
            future: self.future.push(current),
            last_key: None,
            capacity: self.capacity,
        }
    }

    /// State after a redo that displaced `current` (meaningful when the redo
    /// side is non-empty).
    pub open spec fn redone(self, current: T) -> UndoHistory<T> {
        UndoHistory {
            past: self.past.push(current),
            future: self.future.drop_last(),
            last_key: None,
            capacity: self.capacity,
        }
    }

    /// State after `clear`: both sides empty, no run in progress.
    pub open spec fn cleared(self) -> UndoHistory<T> {
        UndoHistory {
            past: Seq::empty(),
            future: Seq::empty(),
            last_key: None,
            capacity: self.capacity,
        }
    }
}

/// Bounded undo / redo stack over snapshots of type `T`.
#[derive(Debug)]
pub struct UndoStack<T> {
    past: Vec<T>,
    future: Vec<T>,
    last_key: Option<CoalesceKey>,
    capacity: usize,
}

impl<T> View for UndoStack<T> {
    type V = UndoHistory<T>;

    closed spec fn view(&self) -> UndoHistory<T> {
        UndoHistory {
            past: self.past@,
            future: self.future@,
            last_key: self.last_key,
            capacity: self.capacity as nat,
        }
    }
}

impl<T> UndoStack<T> {
    #[verifier::type_invariant]
    closed spec fn inv(&self) -> bool {
        self@.wf()
    }
}

impl<T: Clone> UndoStack<T> {
    /// An empty stack holding at most `DEFAULT_CAPACITY` snapshots.
    pub fn new() -> (s: Self)
        ensures
            s@.past == Seq::<T>::empty(),
            s@.future == Seq::<T>::empty(),
            s@.last_key is None,
            s@.capacity == DEFAULT_CAPACITY,
            s@.wf(),
    {
        Self::with_capacity(DEFAULT_CAPACITY)
    }

    /// An empty stack holding at most `capacity` snapshots (at least one).
    pub fn with_capacity(capacity: usize) -> (s: Self)
        ensures
            s@.past == Seq::<T>::empty(),
            s@.future == Seq::<T>::empty(),
            s@.last_key is None,
            s@.capacity == (if capacity == 0 { 1 } else { capacity as nat }),
            s@.wf(),
    {
        let capacity = if capacity == 0 { 1 } else { capacity };
        UndoStack { past: Vec::new(), future: Vec::new(), last_key: None, capacity }
    }

    /// Record `snapshot` on the undo side (evicting the oldest snapshot when
    /// full) after the redo side has been emptied.
    fn record(&mut self, snapshot: T)
        requires
            old(self)@.future.len() == 0,
        ensures
            final(self)@.past == old(self)@.recorded(snapshot),
            final(self)@.future == Seq::<T>::empty(),
            final(self)@.last_key == old(self)@.last_key,
            final(self)@.capacity == old(self)@.capacity,
    {
        proof {
            use_type_invariant(&*self);
        }
        let mut past: Vec<T> = Vec::new();
        std::mem::swap(&mut past, &mut self.past);
        past.push(snapshot);
        if past.len() > self.capacity {
            past.remove(0);
        }
        self.past = past;
    }

    /// Snapshot a non-coalescing edit. Always records, clears the redo
    /// branch, and resets the coalesce key.
    pub fn push(&mut self, snapshot: T)
        ensures
            final(self)@ == old(self)@.pushed(snapshot),
            final(self)@.wf(),
    {
        proof {
            use_type_invariant(&*self);
        }
        self.future = Vec::new();
        self.record(snapshot);
        self.last_key = None;
        proof {
            use_type_invariant(&*self);
        }
    }

    /// Snapshot a coalescable edit. Records only when `key` differs from the
    /// key of the run in progress; otherwise the push is part of the same
    /// logical edit and is skipped.
    pub fn push_coalesced(&mut self, key: CoalesceKey, snapshot: T)
        ensures
            final(self)@ == old(self)@.pushed_coalesced(key, snapshot),
            final(self)@.wf(),
    {
        proof {
            use_type_invariant(&*self);
        }
        let same_run = match self.last_key {
            Some(k) => k == key,
            None => false,
        };
        if same_run {
            return;
        }
        self.future = Vec::new();
        self.record(snapshot);
        self.last_key = Some(key);
        proof {
            use_type_invariant(&*self);
        }
    }

    /// Pop the most recent snapshot. `current`, the state it displaces, goes
    /// to the redo side so that it can be re-applied.
    pub fn pop_undo(&mut self, current: T) -> (res: Option<T>)
        ensures
            old(self)@.past.len() == 0 ==> res is None && final(self)@ == old(self)@,
            old(self)@.past.len() > 0 ==> res == Some(old(self)@.past.last())
                && final(self)@ == old(self)@.undone(current),
            final(self)@.wf(),
    {
        proof {
            use_type_invariant(&*self);
        }
        let mut past: Vec<T> = Vec::new();
        std::mem::swap(&mut past, &mut self.past);
        let popped = past.pop();
        self.past = past;
        match popped {
            None => None,
            Some(prev) => {
                let mut future: Vec<T> = Vec::new();
                std::mem::swap(&mut future, &mut self.future);
                future.push(current);
                self.future = future;
                self.last_key = None;
                proof {
                    use_type_invariant(&*self);
                }
                Some(prev)
            },
        }
    }

    /// Pop the most recent redo snapshot, mirroring `pop_undo`.
    pub fn pop_redo(&mut self, current: T) -> (res: Option<T>)
        ensures
            old(self)@.future.len() == 0 ==> res is None && final(self)@ == old(self)@,
            old(self)@.future.len() > 0 ==> res == Some(old(self)@.future.last())
                && final(self)@ == old(self)@.redone(current),
            final(self)@.wf(),
    {
        proof {
            use_type_invariant(&*self);
        }
        let mut future: Vec<T> = Vec::new();
        std::mem::swap(&mut future, &mut self.future);
        let popped = future.pop();
        self.future = future;
        match popped {
            None => None,
            Some(next) => {
                let mut past: Vec<T> = Vec::new();
                std::mem::swap(&mut past, &mut self.past);
                past.push(current);
                self.past = past;
                self.last_key = None;
                proof {
                    use_type_invariant(&*self);
                }
                Some(next)
            },
        }
    }

    /// Whether there is a snapshot to undo to.
    pub fn can_undo(&self) -> (b: bool)
        ensures
            b == (self@.past.len() > 0),
    {
        !self.past.is_empty()
    }

    /// Whether there is a snapshot to redo to.
    pub fn can_redo(&self) -> (b: bool)
        ensures
            b == (self@.future.len() > 0),
    {
        !self.future.is_empty()
    }

    /// Forget the whole history.
    pub fn clear(&mut self)
        ensures
            final(self)@ == old(self)@.cleared(),
            final(self)@.past.len() == 0,
            final(self)@.future.len() == 0,
            final(self)@.last_key is None,
            final(self)@.capacity == old(self)@.capacity,
            final(self)@.wf(),
    {
        proof {
            use_type_invariant(&*self);
        }
        self.past = Vec::new();
        self.future = Vec::new();
        self.last_key = None;
        proof {
            use_type_invariant(&*self);
        }
    }
}

impl<T: Clone> Default for UndoStack<T> {
    fn default() -> (s: Self)
        ensures
            s@.past == Seq::<T>::empty(),
            s@.future == Seq::<T>::empty(),
            s@.last_key is None,
            s@.capacity == DEFAULT_CAPACITY,
            s@.wf(),
    {
        Self::new()
    }
}

/// Every operation keeps the history well-formed: at most `capacity`
/// snapshots on both sides together.
pub proof fn lemma_operations_keep_wf<T>(s: UndoHistory<T>, key: CoalesceKey, x: T)
    requires
        s.wf(),
    ensures
        s.pushed(x).wf(),
        s.pushed_coalesced(key, x).wf(),
        s.past.len() > 0 ==> s.undone(x).wf(),
        s.future.len() > 0 ==> s.redone(x).wf(),
        s.cleared().wf(),
{
}

/// Undo right after a push hands back the pushed snapshot.
pub proof fn lemma_undo_after_push_returns_snapshot<T>(s: UndoHistory<T>, x: T)
    requires
        s.wf(),
    ensures
        s.pushed(x).past.len() > 0,
        s.pushed(x).past.last() == x,
{
}

/// Redo inverts undo: after an undo that displaced `current`, a redo hands
/// `current` back and restores the history (with no coalescing run open).
pub proof fn lemma_redo_inverts_undo<T>(s: UndoHistory<T>, current: T)
    requires
        s.wf(),
        s.past.len() > 0,
    ensures
        s.undone(current).future.len() > 0,
        s.undone(current).future.last() == current,
        s.undone(current).redone(s.past.last()) == (UndoHistory { last_key: None, ..s }),
{
    assert(s.undone(current).redone(s.past.last()).past =~= s.past);
    assert(s.undone(current).redone(s.past.last()).future =~= s.future);
}

/// Undo inverts redo, symmetrically.
pub proof fn lemma_undo_inverts_redo<T>(s: UndoHistory<T>, current: T)
    requires
        s.wf(),
        s.future.len() > 0,
    ensures
        s.redone(current).past.len() > 0,
        s.redone(current).past.last() == current,
        s.redone(current).undone(s.future.last()) == (UndoHistory { last_key: None, ..s }),
{
    assert(s.redone(current).undone(s.future.last()).past =~= s.past);
    assert(s.redone(current).undone(s.future.last()).future =~= s.future);
}

/// A fresh edit invalidates the redo branch.
pub proof fn lemma_push_clears_redo<T>(s: UndoHistory<T>, key: CoalesceKey, x: T)
    requires
        s.wf(),
    ensures
        s.pushed(x).future.len() == 0,
        s.last_key != Some(key) ==> s.pushed_coalesced(key, x).future.len() == 0,
{
}

/// A run of coalescing pushes with one key records only its first snapshot.
pub proof fn lemma_coalesced_run_records_once<T>(s: UndoHistory<T>, key: CoalesceKey, x: T, y: T)
    requires
        s.wf(),
    ensures
        s.pushed_coalesced(key, x).pushed_coalesced(key, y) == s.pushed_coalesced(key, x),
{
}

/// A coalescing push whose key differs from the open run (or after a
/// non-coalescing push) records its snapshot as the newest undo step.
pub proof fn lemma_new_key_records<T>(s: UndoHistory<T>, key: CoalesceKey, x: T, y: T)
    requires
        s.wf(),
        s.last_key != Some(key),
    ensures
        s.pushed_coalesced(key, x).past.last() == x,
        s.pushed(y).pushed_coalesced(key, x).past.last() == x,
{
}

/// At capacity, a push evicts exactly the oldest snapshot.
pub proof fn lemma_full_push_evicts_oldest<T>(s: UndoHistory<T>, x: T)
    requires
        s.wf(),
        s.past.len() == s.capacity,
    ensures
        s.pushed(x).past == s.past.drop_first().push(x),
        s.pushed(x).past.len() == s.capacity,
{
    assert(s.pushed(x).past =~= s.past.drop_first().push(x));
}

/// Below capacity, a push evicts nothing.
pub proof fn lemma_push_below_capacity_keeps_all<T>(s: UndoHistory<T>, x: T)
    requires
        s.wf(),
        s.past.len() < s.capacity,
    ensures
        s.pushed(x).past == s.past.push(x),
{
}

/// After `clear` the history is that of a fresh stack with the same
/// capacity: nothing to undo or redo, no coalescing run open, so the next
/// push, coalescing with any key or not, records its snapshot as the only
/// thing to undo.
pub proof fn lemma_clear_starts_afresh<T>(s: UndoHistory<T>, key: CoalesceKey, x: T)
    requires
        s.wf(),
    ensures
        s.cleared().past.len() == 0,
        s.cleared().future.len() == 0,
        s.cleared().last_key is None,
        s.cleared().capacity == s.capacity,
        s.cleared().pushed_coalesced(key, x).past == seq![x],
        s.cleared().pushed_coalesced(key, x).last_key == Some(key),
        s.cleared().pushed(x).past == seq![x],
{
    assert(s.cleared().pushed_coalesced(key, x).past =~= seq![x]);
    assert(s.cleared().pushed(x).past =~= seq![x]);
}

} // verus!

//! Recursive kernel mutexes, and the fork synchronizer built from one mutex per resource.
//!
//! A kernel mutex records which thread holds it and how many times that thread has locked it:
//! the holder may lock it again, and it is free once every lock has been matched by an unlock.
//! `MutexState` is that bookkeeping; the blocking itself is the kernel's.

use vstd::prelude::*;

verus! {

/// Why an unlock was refused.
#[derive(PartialEq, Eq, Structural, Clone, Copy, Debug)]
pub enum UnlockError {
    /// The mutex was not locked.
    NotLocked,
    /// The mutex is held by another thread.
    NotOwner,
}

/// The holder of a kernel mutex and its hold count.
#[derive(PartialEq, Eq, Structural, Clone, Copy, Debug)]
pub struct MutexState {
    /// The thread holding the mutex, if any.
    pub owner: Option<u64>,
    /// How many locks the holder has not yet matched with an unlock.
    pub count: u64,
}

/// The state after `thread` locks a mutex in state `s`, or `None` where it must wait: a free
/// mutex is taken with a count of one, the holder's own lock raises the count, and a mutex held
/// by another thread cannot be taken.
pub open spec fn lock_step(s: MutexState, thread: u64) -> Option<MutexState> {
    match s.owner {
        None => Some(MutexState { owner: Some(thread), count: 1 }),
        Some(o) => if o == thread {
            Some(MutexState { owner: Some(thread), count: (s.count + 1) as u64 })
        } else {
            None
        },
    }
}

/// The state after `thread` unlocks a mutex in state `s`: only the holder may unlock, and the
/// mutex is free once the count reaches zero.
pub open spec fn unlock_step(s: MutexState, thread: u64) -> Result<MutexState, UnlockError> {
    match s.owner {
        None => Err(UnlockError::NotLocked),
        Some(o) => if o != thread {
            Err(UnlockError::NotOwner)
        } else if s.count <= 1 {
            Ok(MutexState { owner: None, count: 0 })
        } else {
            Ok(MutexState { owner: Some(thread), count: (s.count - 1) as u64 })
        },
    }
}

impl MutexState {
    /// A mutex is free exactly when its count is zero.
    pub open spec fn wf(&self) -> bool {
        self.owner is None <==> self.count == 0
    }

    /// A free mutex.
    pub fn new() -> (r: MutexState)
        ensures
            r.wf(),
            r.owner is None,
    {
        MutexState { owner: None, count: 0 }
    }

    /// Locks the mutex for `thread` if it can be had without waiting, and says whether it was.
    /// Where it was not, the state is unchanged and the caller must wait for an unlock.
    pub fn try_lock(&mut self, thread: u64) -> (r: bool)
        requires
            old(self).wf(),
            old(self).count < u64::MAX,
        ensures
            final(self).wf(),
            r == lock_step(*old(self), thread) is Some,
            r ==> *final(self) == lock_step(*old(self), thread)->Some_0,
            !r ==> *final(self) == *old(self),
    {
        match self.owner {
            None => {
                self.owner = Some(thread);
                self.count = 1;
                true
            },
            Some(o) => {
                if o == thread {
                    self.count = self.count + 1;
                    true
                } else {
                    false
                }
            },
        }
    }

    /// Unlocks the mutex on behalf of `thread`. A refused unlock leaves the state unchanged.
    pub fn unlock(&mut self, thread: u64) -> (r: Result<(), UnlockError>)
        requires
            old(self).wf(),
        ensures
            final(self).wf(),
            match unlock_step(*old(self), thread) {
                Ok(s) => r is Ok && *final(self) == s,
                Err(e) => r == Err::<(), UnlockError>(e) && *final(self) == *old(self),
            },
    {
        match self.owner {
            None => Err(UnlockError::NotLocked),
            Some(o) => {
                if o != thread {
                    Err(UnlockError::NotOwner)
                } else if self.count <= 1 {
                    self.owner = None;
                    self.count = 0;
                    Ok(())
                } else {
                    self.count = self.count - 1;
                    Ok(())
                }
            },
        }
    }
}

/// The fork synchronizer that gives each resource a mutex of its own: taking a resource locks its
/// mutex, releasing it unlocks the mutex.
pub struct SysMutexSync {
    locks: Vec<MutexState>,
}

impl SysMutexSync {
    /// The state of each resource's mutex, by index.
    pub closed spec fn view(&self) -> Seq<MutexState> {
        self.locks@
    }

    /// Every mutex keeps its count consistent with its holder.
    pub open spec fn wf(&self) -> bool {
        forall|i: int| 0 <= i < self@.len() ==> #[trigger] self@[i].wf()
    }

    /// `n` resources, all free.
    pub fn new(n: usize) -> (r: SysMutexSync)
        ensures
            r.wf(),
            r@.len() == n,
            forall|i: int| 0 <= i < n ==> (#[trigger] r@[i]).owner is None,
    {
        let mut locks: Vec<MutexState> = Vec::new();
        let mut k: usize = 0;
        while k < n
            invariant
                k <= n,
                locks@.len() == k,
                forall|i: int| 0 <= i < k ==> (#[trigger] locks@[i]).owner is None && locks@[i].count
                    == 0,
            decreases n - k,
        {
            locks.push(MutexState::new());
            k = k + 1;
        }
        SysMutexSync { locks }
    }

    /// Number of resources.
    pub fn len(&self) -> (r: usize)
        ensures
            r == self@.len(),
    {
        self.locks.len()
    }

    /// Takes resource `index` for `thread` if its mutex can be locked without waiting, and says
    /// whether it was; where it was not, nothing changes and the caller waits for a release.
    pub fn take(&mut self, index: usize, thread: u64) -> (r: bool)
        requires
            old(self).wf(),
            index < old(self)@.len(),
            old(self)@[index as int].count < u64::MAX,
        ensures
            final(self).wf(),
            r == lock_step(old(self)@[index as int], thread) is Some,
            r ==> final(self)@ == old(self)@.update(
                index as int,
                lock_step(old(self)@[index as int], thread)->Some_0,
            ),
            !r ==> final(self)@ == old(self)@,
    {
        let mut m = self.locks[index];
        let r = m.try_lock(thread);
        if r {
            self.locks.set(index, m);
        }
        r
    }

    /// Releases resource `index` on behalf of `thread` by unlocking its mutex. A refused unlock
    /// changes nothing.
    pub fn release(&mut self, index: usize, thread: u64) -> (r: Result<(), UnlockError>)
        requires
            old(self).wf(),
            index < old(self)@.len(),
        ensures
            final(self).wf(),
            match unlock_step(old(self)@[index as int], thread) {
                Ok(s) => r is Ok && final(self)@ == old(self)@.update(index as int, s),
                Err(e) => r == Err::<(), UnlockError>(e) && final(self)@ == old(self)@,
            },
    {
        let mut m = self.locks[index];
        let r = m.unlock(thread);
        if r.is_ok() {
            self.locks.set(index, m);
        }
        r
    }
}

/// After the holder unlocks the mutex it locked, another thread's lock succeeds.
pub proof fn lemma_release_frees(holder: u64, other: u64)
    ensures
        ({
            let held = lock_step(MutexState { owner: None, count: 0 }, holder)->Some_0;
            let freed = unlock_step(held, holder)->Ok_0;
            &&& unlock_step(held, holder) is Ok
            &&& freed.owner is None
            &&& lock_step(freed, other) == Some(MutexState { owner: Some(other), count: 1 })
        }),
{
}

/// While one thread holds a mutex, no other thread can take it.
pub proof fn lemma_mutex_exclusive(s: MutexState, thread: u64)
    requires
        s.wf(),
        s.owner is Some,
        s.owner != Some(thread),
    ensures
        lock_step(s, thread) is None,
{
}

/// A recursive lock is undone by as many unlocks: after the holder locks a free mutex twice, one
/// unlock keeps it held and the second frees it.
pub proof fn lemma_recursive_count(thread: u64)
    ensures
        ({
            let once = lock_step(MutexState { owner: None, count: 0 }, thread)->Some_0;
            let twice = lock_step(once, thread)->Some_0;
            let back = unlock_step(twice, thread)->Ok_0;
            &&& twice == MutexState { owner: Some(thread), count: 2 }
            &&& back == once
            &&& unlock_step(back, thread)->Ok_0.owner is None
        }),
{
}

} // verus!

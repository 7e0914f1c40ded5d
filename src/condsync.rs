//! The fork synchronizer built from one shared array of flags and a condition variable.
//!
//! `CondSync` is the data that the mutex protects: one "held" flag per resource. A taker that
//! finds its flag set waits on the condition variable and checks again when woken, whatever woke
//! it; a release clears the flag and wakes every waiter, as no one can tell which of them wanted
//! that resource.

use crate::NUM_PHIL;
use vstd::prelude::*;

verus! {

/// The flags after taking resource `i`, or `None` where it is held and the taker must wait.
pub open spec fn take_step(held: Seq<bool>, i: int) -> Option<Seq<bool>> {
    if held[i] {
        None
    } else {
        Some(held.update(i, true))
    }
}

/// The flags after releasing resource `i`.
pub open spec fn release_step(held: Seq<bool>, i: int) -> Seq<bool> {
    held.update(i, false)
}

/// One "held" flag per resource.
pub struct CondSync {
    held: Vec<bool>,
}

impl CondSync {
    /// The flags, by resource index.
    pub closed spec fn view(&self) -> Seq<bool> {
        self.held@
    }

    /// One flag for each of the `NUM_PHIL` resources, none held.
    pub fn new() -> (r: CondSync)
        ensures
            r@.len() == NUM_PHIL,
            forall|i: int| 0 <= i < NUM_PHIL ==> !(#[trigger] r@[i]),
    {
        let mut held: Vec<bool> = Vec::new();
        let mut k: usize = 0;
        while k < NUM_PHIL
            invariant
                k <= NUM_PHIL,
                held@.len() == k,
                forall|i: int| 0 <= i < k ==> !(#[trigger] held@[i]),
            decreases NUM_PHIL - k,
        {
            held.push(false);
            k = k + 1;
        }
        CondSync { held }
    }

    /// Whether resource `index` is held.
    pub fn is_held(&self, index: usize) -> (r: bool)
        requires
            index < self@.len(),
        ensures
            r == self@[index as int],
    {
        self.held[index]
    }

    /// Takes resource `index` if it is free, and says whether it was; where it is held nothing
    /// changes, and the caller waits on the condition variable and tries again.
    pub fn take(&mut self, index: usize) -> (r: bool)
        requires
            index < old(self)@.len(),
        ensures
            r == !old(self)@[index as int],
            final(self)@[index as int],
            final(self)@.len() == old(self)@.len(),
            r == take_step(old(self)@, index as int) is Some,
            r ==> final(self)@ == take_step(old(self)@, index as int)->Some_0,
            !r ==> final(self)@ == old(self)@,
    {
        if self.held[index] {
            false
        } else {
            self.held.set(index, true);
            true
        }
    }

    /// Releases resource `index`. The caller then wakes every waiter.
    pub fn release(&mut self, index: usize)
        requires
            index < old(self)@.len(),
        ensures
            final(self)@ == release_step(old(self)@, index as int),
    {
        self.held.set(index, false);
    }
}

/// While resource `i` is held, a taker is refused and nothing changes; a taker woken without a
/// release therefore checks, finds the resource still held, and waits again.
pub proof fn lemma_held_refuses(held: Seq<bool>, i: int)
    requires
        0 <= i < held.len(),
        held[i],
    ensures
        take_step(held, i) is None,
        forall|j: int| 0 <= j < held.len() && j != i ==> #[trigger] take_step(release_step(held, j), i) is None,
{
}

/// A taker that keeps checking after every wake-up proceeds once the resource is released: after
/// the release, its next check succeeds and leaves the resource held.
pub proof fn lemma_recheck_after_release(held: Seq<bool>, i: int)
    requires
        0 <= i < held.len(),
    ensures
        take_step(release_step(held, i), i) is Some,
        take_step(release_step(held, i), i)->Some_0 == held.update(i, true),
{
    assert(release_step(held, i).update(i, true) =~= held.update(i, true));
}

/// A successful take leaves the resource held, so no second taker gets it before a release;
/// the flags of other resources are untouched.
pub proof fn lemma_take_exclusive(held: Seq<bool>, i: int)
    requires
        0 <= i < held.len(),
        take_step(held, i) is Some,
    ensures
        take_step(take_step(held, i)->Some_0, i) is None,
        forall|j: int| 0 <= j < held.len() && j != i ==> take_step(held, i)->Some_0[j] == held[j],
{
}

/// A take by `op.0` of resource `op.1` where `op.2` holds, or its release where it does not:
/// the flags afterwards.
pub open spec fn flags_after(held: Seq<bool>, op: (u64, int, bool)) -> Seq<bool> {
    if op.2 {
        match take_step(held, op.1) {
            Some(h) => h,
            None => held,
        }
    } else {
        release_step(held, op.1)
    }
}

/// The holder of each resource after `op`: a granted take makes the taker the holder, a release
/// leaves the resource without one.
pub open spec fn holders_after(held: Seq<bool>, holders: Seq<Option<u64>>, op: (u64, int, bool)) -> Seq<Option<u64>> {
    if op.2 {
        if take_step(held, op.1) is Some {
            holders.update(op.1, Some(op.0))
        } else {
            holders
        }
    } else {
        holders.update(op.1, None)
    }
}

/// Each flag is set exactly when its resource has a holder.
pub open spec fn flags_match(held: Seq<bool>, holders: Seq<Option<u64>>) -> bool {
    &&& held.len() == holders.len()
    &&& forall|i: int| 0 <= i < held.len() ==> (#[trigger] held[i] <==> holders[i] is Some)
}

/// Every operation of `ops` names a resource, and every release comes from the resource's holder
/// at that moment.
pub open spec fn valid_run(held: Seq<bool>, holders: Seq<Option<u64>>, ops: Seq<(u64, int, bool)>) -> bool
    decreases ops.len(),
{
    if ops.len() == 0 {
        true
    } else {
        let op = ops[0];
        &&& 0 <= op.1 < held.len()
        &&& !op.2 ==> holders[op.1] == Some(op.0)
        &&& valid_run(flags_after(held, op), holders_after(held, holders, op), ops.drop_first())
    }
}

/// The flags and holders after the first `k` operations of `ops`.
pub open spec fn state_at(
    held: Seq<bool>,
    holders: Seq<Option<u64>>,
    ops: Seq<(u64, int, bool)>,
    k: nat,
) -> (Seq<bool>, Seq<Option<u64>>)
    decreases k,
{
    if k == 0 || ops.len() == 0 {
        (held, holders)
    } else {
        state_at(
            flags_after(held, ops[0]),
            holders_after(held, holders, ops[0]),
            ops.drop_first(),
            (k - 1) as nat,
        )
    }
}

/// Mutual exclusion over any run of takes and releases: at every point of the run each flag is
/// set exactly when its resource has one holder, and a take is granted only while nobody holds
/// the resource, so no resource ever has two holders.
pub proof fn lemma_exclusive_run(held: Seq<bool>, holders: Seq<Option<u64>>, ops: Seq<(u64, int, bool)>)
    requires
        flags_match(held, holders),
        valid_run(held, holders, ops),
    ensures
        forall|k: nat| k <= ops.len() ==> #[trigger] flags_match(
            state_at(held, holders, ops, k).0,
            state_at(held, holders, ops, k).1,
        ),
        forall|k: nat|
            k < ops.len() && ops[k as int].2 && #[trigger] take_step(
                state_at(held, holders, ops, k).0,
                ops[k as int].1,
            ) is Some ==> state_at(held, holders, ops, k).1[ops[k as int].1] is None,
    decreases ops.len(),
{
    if ops.len() > 0 {
        let op = ops[0];
        let h2 = flags_after(held, op);
        let o2 = holders_after(held, holders, op);
        let rest = ops.drop_first();
        assert forall|i: int| 0 <= i < h2.len() implies (#[trigger] h2[i] <==> o2[i] is Some) by {
            if i != op.1 {
                assert(h2[i] == held[i]);
                assert(o2[i] == holders[i]);
            }
        }
        lemma_exclusive_run(h2, o2, rest);
        assert forall|k: nat| k <= ops.len() implies #[trigger] flags_match(
            state_at(held, holders, ops, k).0,
            state_at(held, holders, ops, k).1,
        ) by {
            if k > 0 {
                assert(state_at(held, holders, ops, k) == state_at(h2, o2, rest, (k - 1) as nat));
            }
        }
        assert forall|k: nat|
            k < ops.len() && ops[k as int].2 && #[trigger] take_step(
                state_at(held, holders, ops, k).0,
                ops[k as int].1,
            ) is Some implies state_at(held, holders, ops, k).1[ops[k as int].1] is None by {
            if k > 0 {
                let k1 = (k - 1) as nat;
                assert(state_at(held, holders, ops, k) == state_at(h2, o2, rest, k1));
                assert(ops[k as int] == rest[k1 as int]);
                assert(take_step(state_at(h2, o2, rest, k1).0, rest[k1 as int].1) is Some);
            }
        }
    }
}

} // verus!

//! Statically placed kernel objects and their one-time initialization.
//!
//! A kernel object lives in storage that exists for the whole run of the program and starts out
//! zero-filled. Before first use it must be registered with the kernel exactly once; a second
//! registration of a handle that may already be in use is a programming error. The slot records
//! its progress in an atomic state word so that the check holds even when the slot is shared
//! between threads.

use portable_atomic::{AtomicUsize, Ordering};
use vstd::prelude::*;

verus! {

/// State word of a slot that has not been initialized. Zero, so that zero-filled storage starts
/// out uninitialized.
pub const KOBJ_UNINITIALIZED: usize = 0;

/// State word of a slot whose initializer is running.
pub const KOBJ_INITING: usize = 1;

/// State word of a slot that has completed initialization.
pub const KOBJ_INITIALIZED: usize = 2;

/// Where a slot stands in its lifecycle.
#[derive(PartialEq, Eq, Structural, Clone, Copy, Debug)]
pub enum InitState {
    Uninitialized,
    Initializing,
    Initialized,
}

/// Why an initialization was refused.
#[derive(PartialEq, Eq, Structural, Clone, Copy, Debug)]
pub enum InitError {
    /// The slot had already left the uninitialized state; it was found in the given state.
    Duplicate(InitState),
}

/// The lifecycle state that a state word stands for. Words other than the three named ones are
/// never written by this module.
pub open spec fn state_of(word: usize) -> InitState {
    if word == KOBJ_UNINITIALIZED {
        InitState::Uninitialized
    } else if word == KOBJ_INITING {
        InitState::Initializing
    } else {
        InitState::Initialized
    }
}

/// The state word that encodes a lifecycle state.
pub open spec fn word_of(s: InitState) -> usize {
    match s {
        InitState::Uninitialized => KOBJ_UNINITIALIZED,
        InitState::Initializing => KOBJ_INITING,
        InitState::Initialized => KOBJ_INITIALIZED,
    }
}

/// The state an initialization attempt moves a slot into: only an uninitialized slot may start,
/// every other state is a duplicate initialization and is left as it is.
pub open spec fn begin_init(s: InitState) -> Result<InitState, InitError> {
    match s {
        InitState::Uninitialized => Ok(InitState::Initializing),
        _ => Err(InitError::Duplicate(s)),
    }
}

/// The state a slot reaches when its initializer has finished.
pub open spec fn finish_init(s: InitState) -> InitState {
    match s {
        InitState::Initializing => InitState::Initialized,
        _ => s,
    }
}

/// The state after one complete initialization attempt, successful or not.
pub open spec fn after_init(s: InitState) -> InitState {
    match begin_init(s) {
        Ok(t) => finish_init(t),
        Err(_) => s,
    }
}

/// The lifecycle rule that `init_help` follows, applied twice: a first attempt takes an
/// uninitialized slot through `Initializing` to `Initialized`; a second is refused as a
/// duplicate and leaves `Initialized` as it is. No attempt on a state other than
/// `Uninitialized` changes it, and each state is read back from the word that encodes it.
/// (`init_help` claims the slot by swapping the word of `Uninitialized` for the word of
/// `begin_init`'s result, stores the word of `finish_init`'s result when the initializer is
/// done, and reports `begin_init`'s error for any other word found.)
pub proof fn lemma_no_double_init(s: InitState)
    ensures
        begin_init(InitState::Uninitialized) == Ok::<InitState, InitError>(InitState::Initializing),
        after_init(InitState::Uninitialized) == InitState::Initialized,
        begin_init(after_init(InitState::Uninitialized)) == Err::<InitState, InitError>(
            InitError::Duplicate(InitState::Initialized),
        ),
        after_init(after_init(InitState::Uninitialized)) == InitState::Initialized,
        s != InitState::Uninitialized ==> begin_init(s) is Err && after_init(s) == s,
        state_of(word_of(s)) == s,
{
}

/// The state word that encodes `s`.
pub fn state_word(s: InitState) -> (r: usize)
    ensures
        r == word_of(s),
        state_of(r) == s,
{
    match s {
        InitState::Uninitialized => KOBJ_UNINITIALIZED,
        InitState::Initializing => KOBJ_INITING,
        InitState::Initialized => KOBJ_INITIALIZED,
    }
}

/// The state an initialization attempt moves a slot in state `s` into, or the duplicate error.
pub fn begin_state(s: InitState) -> (r: Result<InitState, InitError>)
    ensures
        r == begin_init(s),
{
    match s {
        InitState::Uninitialized => Ok(InitState::Initializing),
        _ => Err(InitError::Duplicate(s)),
    }
}

/// The state a slot in state `s` reaches when its initializer has finished.
pub fn finish_state(s: InitState) -> (r: InitState)
    ensures
        r == finish_init(s),
{
    match s {
        InitState::Initializing => InitState::Initialized,
        _ => s,
    }
}

/// What an initialization attempt returns once the claim on the slot is decided: where the claim
/// was won, `f` runs on the kernel structure and its result is returned; otherwise `f` does not
/// run and the claim's error is returned.
pub fn finish_claim<T, R, F: FnOnce(&T) -> R>(claim: Result<(), InitError>, value: &T, f: F) -> (r:
    Result<R, InitError>)
    requires
        claim is Ok ==> f.requires((value,)),
    ensures
        match claim {
            Ok(()) => r is Ok && f.ensures((value,), r->Ok_0),
            Err(e) => r == Err::<R, InitError>(e),
        },
{
    match claim {
        Ok(()) => Ok(f(value)),
        Err(e) => Err(e),
    }
}

/// Why a handle was refused.
#[derive(PartialEq, Eq, Structural, Clone, Copy, Debug)]
pub enum GetError {
    /// The object has not completed its initialization; it was found in the given state.
    NotInitialized(InitState),
}

/// Whether an object found in state `s` may hand out its handle: only an initialized one may.
pub fn ready_for_use(s: InitState) -> (r: Result<(), GetError>)
    ensures
        s == InitState::Initialized ==> r is Ok,
        s != InitState::Initialized ==> r == Err::<(), GetError>(GetError::NotInitialized(s)),
{
    match s {
        InitState::Initialized => Ok(()),
        _ => Err(GetError::NotInitialized(s)),
    }
}

/// Decodes a state word read from a slot.
pub fn decode_state(word: usize) -> (r: InitState)
    ensures
        r == state_of(word),
{
    if word == KOBJ_UNINITIALIZED {
        InitState::Uninitialized
    } else if word == KOBJ_INITING {
        InitState::Initializing
    } else {
        InitState::Initialized
    }
}

/// Turns the outcome of the compare-and-swap that claims a slot into the answer of an
/// initialization attempt: `Ok` carries the word that was replaced, `Err` the word that was found
/// instead.
pub fn claim_outcome(cas: Result<usize, usize>) -> (r: Result<(), InitError>)
    ensures
        match cas {
            Ok(_) => r is Ok,
            Err(found) => r == Err::<(), InitError>(InitError::Duplicate(state_of(found))),
        },
{
    match cas {
        Ok(_) => Ok(()),
        Err(found) => Err(InitError::Duplicate(decode_state(found))),
    }
}

#[verifier::external_type_specification]
#[verifier::external_body]
pub struct ExAtomicUsize(AtomicUsize);

/// Relies on portable_atomic::AtomicUsize::new to make a state word holding `word`.
#[verifier::external_body]
fn new_state_word(word: usize) -> (r: AtomicUsize) {
    AtomicUsize::new(word)
}

/// Relies on portable_atomic::AtomicUsize::compare_exchange: the word is replaced by `new` only
/// where it held `current`; `Ok` then carries `current`, and `Err` carries the word found, which
/// differs from `current`. The failure ordering is `Acquire`, which the call accepts.
#[verifier::external_body]
fn swap_state_word(a: &AtomicUsize, current: usize, new: usize) -> (r: Result<usize, usize>)
    ensures
        r is Ok ==> r->Ok_0 == current,
        r is Err ==> r->Err_0 != current,
{
    a.compare_exchange(current, new, Ordering::AcqRel, Ordering::Acquire)
}

/// Relies on portable_atomic::AtomicUsize::store with `Release` ordering, which the call accepts.
#[verifier::external_body]
fn store_state_word(a: &AtomicUsize, word: usize) {
    a.store(word, Ordering::Release)
}

/// Relies on portable_atomic::AtomicUsize::load with `Acquire` ordering, which the call accepts.
#[verifier::external_body]
fn load_state_word(a: &AtomicUsize) -> (r: usize) {
    a.load(Ordering::Acquire)
}

/// A kernel object represented statically: the underlying kernel structure and the state of its
/// one-time initialization.
pub struct StaticKernelObject<T> {
    /// The underlying kernel object.
    value: T,
    /// Initialization status of this object, one of the three state words.
    init: AtomicUsize,
}

/// A kernel object that hands out its underlying storage, for the kernel calls that take it.
pub trait KobjGet<T> {
    /// The underlying storage of this object.
    fn get_ptr(&self) -> &T;

    /// The lifecycle state this object is in when read.
    fn init_state(&self) -> InitState;
}

impl<T> KobjGet<T> for StaticKernelObject<T> {
    fn get_ptr(&self) -> (r: &T)
        ensures
            *r == self.raw(),
    {
        &self.value
    }

    fn init_state(&self) -> (r: InitState) {
        decode_state(load_state_word(&self.init))
    }
}

/// Kernel object wrappers implement this trait to build their handle out of the underlying
/// storage.
pub trait KobjInit<T, W> where Self: KobjGet<T> + Sized {
    /// The handle for this object, built by `wrap` from its storage. An object that has not
    /// completed its initialization is refused, with the state it was found in.
    fn get(&self) -> (r: Result<W, GetError>)
        ensures
            r is Err ==> r->Err_0 != GetError::NotInitialized(InitState::Initialized),
    {
        self.get_in(self.init_state())
    }

    /// The handle for this object once it has been found in state `s`: built by `wrap` from the
    /// storage exactly when `s` is `Initialized`, refused with `s` otherwise.
    fn get_in(&self, s: InitState) -> (r: Result<W, GetError>)
        ensures
            (r is Ok) == (s == InitState::Initialized),
            s != InitState::Initialized ==> r == Err::<W, GetError>(GetError::NotInitialized(s)),
    {
        match ready_for_use(s) {
            Ok(()) => Ok(Self::wrap(self.get_ptr())),
            Err(e) => Err(e),
        }
    }

    /// Builds the handle from the underlying storage.
    fn wrap(ptr: &T) -> W;
}

impl<T> StaticKernelObject<T> {
    /// The kernel structure held by this slot.
    pub closed spec fn raw(&self) -> T {
        self.value
    }

    /// A slot holding `value` (the zero-filled kernel structure), not yet initialized.
    pub fn new(value: T) -> (r: StaticKernelObject<T>)
        ensures
            r.raw() == value,
    {
        StaticKernelObject { value, init: new_state_word(state_word(InitState::Uninitialized)) }
    }

    /// Runs `f` on the kernel structure if and only if this slot is still uninitialized, moving
    /// the slot through `Initializing` to `Initialized`, and returns what `f` returned. A slot
    /// that is initializing or initialized is left untouched, `f` is not run, and the duplicate
    /// is reported with the state that was found.
    pub fn init_help<R, F: FnOnce(&T) -> R>(&self, f: F) -> (r: Result<R, InitError>)
        requires
            f.requires((&self.raw(),)),
        ensures
            match r {
                Ok(v) => f.ensures((&self.raw(),), v),
                Err(InitError::Duplicate(s)) => s != InitState::Uninitialized && begin_init(s)
                    == Err::<InitState, InitError>(InitError::Duplicate(s)),
            },
    {
        let from = InitState::Uninitialized;
        let claimed = begin_state(from).unwrap();
        let claim = claim_outcome(swap_state_word(&self.init, state_word(from), state_word(claimed)));
        let r = finish_claim(claim, &self.value, f);
        if claim.is_ok() {
            store_state_word(&self.init, state_word(finish_state(claimed)));
        }
        r
    }
}

} // verus!

use kernel_sync::object::{
    begin_state, claim_outcome, decode_state, finish_claim, finish_state, ready_for_use, state_word, GetError,
    InitError, InitState, KobjGet, KobjInit, StaticKernelObject, KOBJ_INITIALIZED, KOBJ_INITING,
    KOBJ_UNINITIALIZED,
};

#[derive(Debug, PartialEq)]
struct Raw(u32);

#[derive(Debug, PartialEq)]
struct Handle(u32);

impl KobjInit<Raw, Handle> for StaticKernelObject<Raw> {
    fn wrap(ptr: &Raw) -> Handle {
        Handle(ptr.0)
    }
}

#[test]
fn get_refuses_uninitialized_object() {
    let slot = StaticKernelObject::new(Raw(5));
    assert_eq!(slot.get(), Err(GetError::NotInitialized(InitState::Uninitialized)));
    assert_eq!(slot.init_help(|_| ()), Ok(()));
    assert_eq!(slot.get(), Ok(Handle(5)));
}

#[test]
fn state_words_round_trip() {
    assert_eq!(state_word(InitState::Uninitialized), KOBJ_UNINITIALIZED);
    assert_eq!(state_word(InitState::Initializing), KOBJ_INITING);
    assert_eq!(state_word(InitState::Initialized), KOBJ_INITIALIZED);
    for s in [InitState::Uninitialized, InitState::Initializing, InitState::Initialized] {
        assert_eq!(decode_state(state_word(s)), s);
    }
}

#[test]
fn lifecycle_steps() {
    assert_eq!(begin_state(InitState::Uninitialized), Ok(InitState::Initializing));
    assert_eq!(
        begin_state(InitState::Initializing),
        Err(InitError::Duplicate(InitState::Initializing))
    );
    assert_eq!(
        begin_state(InitState::Initialized),
        Err(InitError::Duplicate(InitState::Initialized))
    );
    assert_eq!(finish_state(InitState::Initializing), InitState::Initialized);
    assert_eq!(finish_state(InitState::Initialized), InitState::Initialized);
    assert_eq!(ready_for_use(InitState::Initialized), Ok(()));
    assert_eq!(
        ready_for_use(InitState::Initializing),
        Err(GetError::NotInitialized(InitState::Initializing))
    );
}

#[test]
fn fresh_slot_is_uninitialized() {
    let slot = StaticKernelObject::new(0u32);
    assert_eq!(slot.init_state(), InitState::Uninitialized);
    assert_eq!(*slot.get_ptr(), 0);
}

#[test]
fn init_runs_initializer_once_and_returns_its_result() {
    let slot = StaticKernelObject::new(7u32);
    let r = slot.init_help(|raw| *raw + 1);
    assert_eq!(r, Ok(8));
    assert_eq!(slot.init_state(), InitState::Initialized);
}

#[test]
fn second_init_is_refused_and_slot_unchanged() {
    let slot = StaticKernelObject::new(3u64);
    assert_eq!(slot.init_help(|_| 1u8), Ok(1));
    let mut ran = false;
    let second = slot.init_help(|_| {
        ran = true;
        2u8
    });
    assert_eq!(second, Err(InitError::Duplicate(InitState::Initialized)));
    assert!(!ran);
    assert_eq!(slot.init_state(), InitState::Initialized);
    assert_eq!(*slot.get_ptr(), 3);
}

#[test]
fn state_words_decode() {
    assert_eq!(decode_state(KOBJ_UNINITIALIZED), InitState::Uninitialized);
    assert_eq!(decode_state(KOBJ_INITING), InitState::Initializing);
    assert_eq!(decode_state(KOBJ_INITIALIZED), InitState::Initialized);
}

#[test]
fn claim_outcome_reports_found_state() {
    assert_eq!(claim_outcome(Ok(0)), Ok(()));
    assert_eq!(
        claim_outcome(Err(KOBJ_INITING)),
        Err(InitError::Duplicate(InitState::Initializing))
    );
    assert_eq!(
        claim_outcome(Err(KOBJ_INITIALIZED)),
        Err(InitError::Duplicate(InitState::Initialized))
    );
}

#[test]
fn first_init_of_fresh_slot_returns_initializer_result() {
    let slot = StaticKernelObject::new(0u32);
    assert_eq!(slot.init_help(|_| 7u32), Ok(7));
    assert_eq!(slot.init_help(|_| 8u32), Err(InitError::Duplicate(InitState::Initialized)));
    assert_eq!(slot.init_state(), InitState::Initialized);
}

#[test]
fn finish_claim_runs_initializer_only_on_won_claim() {
    assert_eq!(finish_claim(Ok(()), &3u32, |v| *v + 4), Ok(7));
    assert_eq!(
        finish_claim(Err(InitError::Duplicate(InitState::Initializing)), &3u32, |v| *v + 4),
        Err(InitError::Duplicate(InitState::Initializing))
    );
}

#[test]
fn get_in_decides_by_state() {
    let slot = StaticKernelObject::new(Raw(9));
    assert_eq!(slot.get_in(InitState::Initialized), Ok(Handle(9)));
    assert_eq!(
        slot.get_in(InitState::Initializing),
        Err(GetError::NotInitialized(InitState::Initializing))
    );
}

use bffh::proc_state::initial_state;
use bffh::proc_state::decrement_destroys;
use bffh::proc_state::{
    awaiter_lock_acquired, awaiter_lock_flags, awaiter_release_mask,
    cancel_transition, handle_cancel_transition, poll_step, wake_step, PollStep, State, StateFlags,
    ALL_BITS, DONE_BITS,
};

#[test]
fn test_state_has_debug() {
    let state = StateFlags::scheduled() | StateFlags::awaiter();
    println!("{:?}", state);
}

#[test]
fn test_is_scheduled_returns_true() {
    let state = StateFlags::scheduled();
    assert!(state.contains(StateFlags::scheduled()));

    let mut state2 = StateFlags::default();
    state2 |= StateFlags::scheduled();
    assert_eq!(state, state2)
}

#[test]
fn flags_work() {
    let flags = StateFlags::scheduled();
    assert_eq!(flags, StateFlags::scheduled());

    let flags = StateFlags::scheduled() | StateFlags::running();
    assert_eq!(flags, StateFlags::scheduled() | StateFlags::running());

    let flags = StateFlags::running() | StateFlags::awaiter() | StateFlags::completed();
    assert_eq!(
        flags,
        StateFlags::running() | StateFlags::awaiter() | StateFlags::completed()
    );
}

#[test]
fn test_add_sub_refcount() {
    let state = State::new(StateFlags::default(), 0);
    assert_eq!(state.get_refcount(), 0);
    let state = state.set_refcount(5);
    assert_eq!(state.get_refcount(), 5);
    let state = state.set_refcount(3);
    assert_eq!(state.get_refcount(), 3);
    let state = state.set_refcount(1);
    assert_eq!(state.get_refcount(), 1);
}

#[test]
fn test_mixed_refcount() {
    let flags = StateFlags::scheduled() | StateFlags::running() | StateFlags::awaiter();
    let state = State::new(flags, 0);
    println!("{:?}", state);

    assert_eq!(state.get_refcount(), 0);

    let state = state.set_refcount(5);
    println!("{:?}", state);
    assert_eq!(state.get_refcount(), 5);

    let (mut flags, references) = state.parts();
    assert_eq!(references, 5);

    flags &= !StateFlags::awaiter();
    let state = State::new(flags, references);
    println!("{:?}", state);

    assert_eq!(state.get_refcount(), 5);

    let state = state.set_refcount(3);
    println!("{:?}", state);
    assert_eq!(state.get_refcount(), 3);

    let state = state.set_refcount(1);
    println!("{:?}", state);
    assert_eq!(state.get_refcount(), 1);

    assert_eq!(state.get_flags(), StateFlags::scheduled() | StateFlags::running());
}

#[test]
fn state_word_packs_flags_high_and_references_low() {
    let state = State::new(StateFlags::scheduled() | StateFlags::handle(), 7);
    assert_eq!(state.into_u64(), (17u64 << 32) | 7);
    let back = State::from_u64(state.into_u64());
    assert_eq!(back, state);
}

#[test]
fn flag_constants_have_their_bits() {
    assert_eq!(StateFlags::all().bits(), ALL_BITS);
    assert_eq!((StateFlags::completed() | StateFlags::closed()).bits(), DONE_BITS);
    assert_eq!(StateFlags::from_bits(128), None);
    assert_eq!(StateFlags::from_bits_truncate(0xff).bits(), 127);
}

#[test]
fn cancel_marks_open_process_closed() {
    let state = State::new(StateFlags::handle(), 1);
    let c = cancel_transition(state).expect("open process can be cancelled");
    assert_eq!(c.new.get_flags(), StateFlags::handle() | StateFlags::closed());
    assert_eq!(c.new.get_refcount(), 1);
    assert!(!c.notify);
    let c = cancel_transition(State::new(StateFlags::awaiter(), 0)).unwrap();
    assert!(c.notify);
}

#[test]
fn handle_cancel_of_running_process_only_closes_it() {
    let state = State::new(StateFlags::running() | StateFlags::handle(), 1);
    let c = handle_cancel_transition(state).expect("running process can be cancelled");
    assert_eq!(
        c.new.get_flags(),
        StateFlags::running() | StateFlags::handle() | StateFlags::closed()
    );
    assert_eq!(c.new.get_refcount(), 1);
    assert!(!c.schedule);
    assert!(!c.notify);
}

#[test]
fn handle_cancel_of_idle_process_schedules_it() {
    let state = State::new(StateFlags::handle() | StateFlags::awaiter(), 1);
    let c = handle_cancel_transition(state).expect("idle process can be cancelled");
    assert_eq!(
        c.new.get_flags(),
        StateFlags::handle() | StateFlags::awaiter() | StateFlags::closed() | StateFlags::scheduled()
    );
    assert_eq!(c.new.get_refcount(), 2);
    assert!(c.schedule);
    assert!(c.notify);
}

#[test]
fn last_reference_without_handle_destroys() {
    assert!(decrement_destroys(State::new(StateFlags::completed(), 1)));
    assert!(!decrement_destroys(State::new(StateFlags::completed() | StateFlags::handle(), 1)));
    assert!(!decrement_destroys(State::new(StateFlags::completed(), 2)));
}

#[test]
fn polling_a_completed_process_closes_it() {
    let state = State::new(StateFlags::completed() | StateFlags::handle(), 1);
    match poll_step(state) {
        PollStep::Complete(n) => {
            assert_eq!(n.get_flags(), StateFlags::completed() | StateFlags::handle() | StateFlags::closed());
            assert_eq!(n.get_refcount(), 1);
        }
        other => panic!("unexpected {:?}", other),
    }
    assert!(matches!(poll_step(State::new(StateFlags::closed(), 0)), PollStep::Closed));
    assert!(matches!(poll_step(State::new(StateFlags::running(), 0)), PollStep::NotCompleted));
}

#[test]
fn waking_is_decided_for_every_state() {
    let state = State::new(StateFlags::scheduled(), 1);
    println!("{:?}", wake_step(state));
}

#[test]
fn awaiter_lock_flags_and_masks() {
    assert_eq!(awaiter_lock_flags(true), StateFlags::locked() | StateFlags::awaiter());
    assert_eq!(awaiter_lock_flags(false), StateFlags::locked());
    assert_eq!(awaiter_release_mask(true), !StateFlags::locked());
    assert_eq!(awaiter_release_mask(false), !(StateFlags::locked() | StateFlags::awaiter()));
    assert!(awaiter_lock_acquired(State::new(StateFlags::handle(), 1)));
    assert!(!awaiter_lock_acquired(State::new(StateFlags::locked(), 1)));
}

#[test]
fn new_processes_start_scheduled_with_handle_and_one_reference() {
    let s = initial_state();
    assert_eq!(s.get_flags(), StateFlags::scheduled() | StateFlags::handle());
    assert_eq!(s.get_refcount(), 1);
}

//! The state word of a lightweight process: a set of flags and a reference
//! count packed into one 64-bit value, and the decisions taken on it when a
//! process is scheduled, run, woken, cancelled, awaited or dropped.
//!
//! The reference count lives in the low 32 bits, the flags in the high 32
//! bits.

use vstd::prelude::*;

verus! {

/// Set if the proc is scheduled for running.
pub const SCHEDULED_BITS: u32 = 1;
/// Set if the proc is running.
pub const RUNNING_BITS: u32 = 2;
/// Set if the proc has been completed.
pub const COMPLETED_BITS: u32 = 4;
/// Set if the proc is closed.
pub const CLOSED_BITS: u32 = 8;
/// Set if the `ProcHandle` still exists.
pub const HANDLE_BITS: u32 = 16;
/// Set if the `ProcHandle` is awaiting the output.
pub const AWAITER_BITS: u32 = 32;
/// Set if the awaiter is locked.
pub const LOCKED_BITS: u32 = 64;
/// All defined flags.
pub const ALL_BITS: u32 = 127;
/// `COMPLETED | CLOSED`.
pub const DONE_BITS: u32 = 12;
/// `SCHEDULED | RUNNING`.
pub const ACTIVE_BITS: u32 = 3;

/// A set of process state flags.
#[derive(Debug, Clone, Copy, PartialEq, Eq, Structural, Hash)]
pub struct StateFlags {
    bits: u32,
}

impl StateFlags {
    /// The flags as bits.
    pub closed spec fn spec_bits(&self) -> u32 {
        self.bits
    }

    /// The raw bits.
    pub fn bits(&self) -> (b: u32)
        ensures
            b == self.spec_bits(),
    {
        self.bits
    }

    /// No flag set.
    pub fn empty() -> (f: StateFlags)
        ensures
            f.spec_bits() == 0,
    {
        StateFlags { bits: 0 }
    }

    /// Every defined flag set.
    pub fn all() -> (f: StateFlags)
        ensures
            f.spec_bits() == ALL_BITS,
    {
        StateFlags { bits: ALL_BITS }
    }

    /// The flags with the given bits, if they are all defined.
    pub fn from_bits(bits: u32) -> (f: Option<StateFlags>)
        ensures
            (bits & !ALL_BITS) == 0 ==> (f matches Some(g) && g.spec_bits() == bits),
            (bits & !ALL_BITS) != 0 ==> f is None,
    {
        if bits & !ALL_BITS == 0 {
            Some(StateFlags { bits })
        } else {
            None
        }
    }

    /// The flags with the given bits, keeping undefined ones.
    pub fn from_bits_retain(bits: u32) -> (f: StateFlags)
        ensures
            f.spec_bits() == bits,
    {
        StateFlags { bits }
    }

    /// The flags with the given bits, dropping undefined ones.
    pub fn from_bits_truncate(bits: u32) -> (f: StateFlags)
        ensures
            f.spec_bits() == bits & ALL_BITS,
    {
        StateFlags { bits: bits & ALL_BITS }
    }

    /// The scheduled flag.
    pub fn scheduled() -> (f: StateFlags)
        ensures
            f.spec_bits() == SCHEDULED_BITS,
    {
        StateFlags { bits: SCHEDULED_BITS }
    }

    /// The running flag.
    pub fn running() -> (f: StateFlags)
        ensures
            f.spec_bits() == RUNNING_BITS,
    {
        StateFlags { bits: RUNNING_BITS }
    }

    /// The completed flag.
    pub fn completed() -> (f: StateFlags)
        ensures
            f.spec_bits() == COMPLETED_BITS,
    {
        StateFlags { bits: COMPLETED_BITS }
    }

    /// The closed flag.
    pub fn closed() -> (f: StateFlags)
        ensures
            f.spec_bits() == CLOSED_BITS,
    {
        StateFlags { bits: CLOSED_BITS }
    }

    /// The handle flag.
    pub fn handle() -> (f: StateFlags)
        ensures
            f.spec_bits() == HANDLE_BITS,
    {
        StateFlags { bits: HANDLE_BITS }
    }

    /// The awaiter flag.
    pub fn awaiter() -> (f: StateFlags)
        ensures
            f.spec_bits() == AWAITER_BITS,
    {
        StateFlags { bits: AWAITER_BITS }
    }

    /// The locked flag.
    pub fn locked() -> (f: StateFlags)
        ensures
            f.spec_bits() == LOCKED_BITS,
    {
        StateFlags { bits: LOCKED_BITS }
    }

    /// Whether every flag of `other` is set here.
    pub fn contains(&self, other: StateFlags) -> (r: bool)
        ensures
            r == (self.spec_bits() & other.spec_bits() == other.spec_bits()),
    {
        self.bits & other.bits == other.bits
    }

    /// Whether some flag of `other` is set here.
    pub fn intersects(&self, other: StateFlags) -> (r: bool)
        ensures
            r == (self.spec_bits() & other.spec_bits() != 0),
    {
        self.bits & other.bits != 0
    }

    /// Whether no flag is set.
    pub fn is_empty(&self) -> (r: bool)
        ensures
            r == (self.spec_bits() == 0),
    {
        self.bits == 0
    }

    /// The flags set here or in `other`.
    pub fn union(self, other: StateFlags) -> (f: StateFlags)
        ensures
            f.spec_bits() == self.spec_bits() | other.spec_bits(),
    {
        StateFlags { bits: self.bits | other.bits }
    }

    /// The flags set both here and in `other`.
    pub fn intersection(self, other: StateFlags) -> (f: StateFlags)
        ensures
            f.spec_bits() == self.spec_bits() & other.spec_bits(),
    {
        StateFlags { bits: self.bits & other.bits }
    }

    /// The flags set here but not in `other`.
    pub fn difference(self, other: StateFlags) -> (f: StateFlags)
        ensures
            f.spec_bits() == self.spec_bits() & !other.spec_bits(),
    {
        StateFlags { bits: self.bits & !other.bits }
    }

    /// The defined flags not set here.
    pub fn complement(self) -> (f: StateFlags)
        ensures
            f.spec_bits() == !self.spec_bits() & ALL_BITS,
    {
        StateFlags { bits: !self.bits & ALL_BITS }
    }

    /// Sets the flags of `other`.
    pub fn insert(&mut self, other: StateFlags)
        ensures
            final(self).spec_bits() == old(self).spec_bits() | other.spec_bits(),
    {
        self.bits = self.bits | other.bits;
    }

    /// Clears the flags of `other`.
    pub fn remove(&mut self, other: StateFlags)
        ensures
            final(self).spec_bits() == old(self).spec_bits() & !other.spec_bits(),
    {
        self.bits = self.bits & !other.bits;
    }
}

impl Default for StateFlags {
    fn default() -> (f: StateFlags)
        ensures
            f.spec_bits() == 0,
    {
        StateFlags { bits: 0 }
    }
}

} // verus!

verus! {

impl core::ops::BitOr for StateFlags {
    type Output = StateFlags;

    fn bitor(self, rhs: StateFlags) -> (f: StateFlags)
        ensures
            f.spec_bits() == self.spec_bits() | rhs.spec_bits(),
    {
        StateFlags { bits: self.bits | rhs.bits }
    }
}

impl core::ops::BitOrAssign for StateFlags {
    fn bitor_assign(&mut self, rhs: StateFlags)
        ensures
            final(self).spec_bits() == old(self).spec_bits() | rhs.spec_bits(),
    {
        self.bits = self.bits | rhs.bits;
    }
}

impl core::ops::BitAnd for StateFlags {
    type Output = StateFlags;

    fn bitand(self, rhs: StateFlags) -> (f: StateFlags)
        ensures
            f.spec_bits() == self.spec_bits() & rhs.spec_bits(),
    {
        StateFlags { bits: self.bits & rhs.bits }
    }
}

impl core::ops::BitAndAssign for StateFlags {
    fn bitand_assign(&mut self, rhs: StateFlags)
        ensures
            final(self).spec_bits() == old(self).spec_bits() & rhs.spec_bits(),
    {
        self.bits = self.bits & rhs.bits;
    }
}

impl core::ops::Not for StateFlags {
    type Output = StateFlags;

    fn not(self) -> (f: StateFlags)
        ensures
            f.spec_bits() == !self.spec_bits() & ALL_BITS,
    {
        StateFlags { bits: !self.bits & ALL_BITS }
    }
}

impl vstd::std_specs::ops::BitOrSpecImpl for StateFlags {
    open spec fn obeys_bitor_spec() -> bool {
        true
    }

    open spec fn bitor_req(self, rhs: StateFlags) -> bool {
        true
    }

    closed spec fn bitor_spec(self, rhs: StateFlags) -> StateFlags {
        StateFlags { bits: self.bits | rhs.bits }
    }
}

impl vstd::std_specs::ops::BitAndSpecImpl for StateFlags {
    open spec fn obeys_bitand_spec() -> bool {
        true
    }

    open spec fn bitand_req(self, rhs: StateFlags) -> bool {
        true
    }

    closed spec fn bitand_spec(self, rhs: StateFlags) -> StateFlags {
        StateFlags { bits: self.bits & rhs.bits }
    }
}

impl vstd::std_specs::ops::NotSpecImpl for StateFlags {
    open spec fn obeys_not_spec() -> bool {
        true
    }

    open spec fn not_req(self) -> bool {
        true
    }

    closed spec fn not_spec(self) -> StateFlags {
        StateFlags { bits: !self.bits & ALL_BITS }
    }
}

/// The abstract value of a process state: its flags and reference count.
pub struct StateView {
    pub flags: u32,
    pub refs: u32,
}

/// The packed state of a process: flags in the high 32 bits, the reference
/// count of `LightProc`s and `Waker`s in the low 32 bits.
#[derive(Debug, Clone, Copy, PartialEq, Eq, Structural, Hash)]
pub struct State {
    bits: u64,
}

proof fn lemma_pack(f: u32, r: u32)
    by (bit_vector)
    ensures
        (((((f as u64) << 32u64) | (r as u64)) >> 32u64) as u32) == f,
        (((((f as u64) << 32u64) | (r as u64)) & 0xffff_ffffu64) as u32) == r,
{
}

proof fn lemma_unpack(b: u64)
    by (bit_vector)
    ensures
        (((((b >> 32u64) as u32) as u64) << 32u64) | (((b & 0xffff_ffffu64) as u32) as u64)) == b,
{
}

impl View for State {
    type V = StateView;

    closed spec fn view(&self) -> StateView {
        StateView { flags: (self.bits >> 32u64) as u32, refs: (self.bits & 0xffff_ffffu64) as u32 }
    }
}

impl State {
    /// The state with the given flags and reference count.
    pub fn new(flags: StateFlags, references: u32) -> (s: State)
        ensures
            s@ == (StateView { flags: flags.spec_bits(), refs: references }),
    {
        proof {
            lemma_pack(flags.bits, references);
        }
        State { bits: ((flags.bits as u64) << 32u64) | (references as u64) }
    }

    /// The flags and the reference count.
    pub fn parts(self) -> (p: (StateFlags, u32))
        ensures
            p.0.spec_bits() == self@.flags,
            p.1 == self@.refs,
    {
        (self.get_flags(), self.get_refcount())
    }

    /// The reference count: the number of `LightProc`s and `Waker`s.
    pub fn get_refcount(self) -> (r: u32)
        ensures
            r == self@.refs,
    {
        (self.bits & 0xffff_ffffu64) as u32
    }

    /// The same flags with another reference count.
    pub fn set_refcount(self, refcount: u32) -> (s: State)
        ensures
            s@ == (StateView { flags: self@.flags, refs: refcount }),
    {
        State::new(self.get_flags(), refcount)
    }

    /// The flags.
    pub fn get_flags(self) -> (f: StateFlags)
        ensures
            f.spec_bits() == self@.flags,
    {
        StateFlags { bits: (self.bits >> 32u64) as u32 }
    }

    /// The state as one 64-bit word.
    pub fn into_u64(self) -> (b: u64)
        ensures
            State::from_u64_spec(b) == self,
    {
        self.bits
    }

    /// The state a 64-bit word holds.
    pub closed spec fn from_u64_spec(b: u64) -> State {
        State { bits: b }
    }

    /// The state a 64-bit word holds.
    pub fn from_u64(value: u64) -> (s: State)
        ensures
            s == State::from_u64_spec(value),
            s.into_u64_spec() == value,
    {
        State { bits: value }
    }

    /// The state as one 64-bit word.
    pub closed spec fn into_u64_spec(self) -> u64 {
        self.bits
    }

    /// The word holds the flags in its high half and the reference count in
    /// its low half, and nothing else: two states with the same flags and
    /// count are the same state.
    pub proof fn law_word_is_flags_and_count(a: State, b: State)
        ensures
            a.into_u64_spec() == (((a@.flags as u64) << 32u64) | (a@.refs as u64)),
            a@ == b@ ==> a == b,
    {
        lemma_unpack(a.bits);
        lemma_unpack(b.bits);
    }

    /// Whether some flag of `f` is set.
    pub fn intersects(self, f: StateFlags) -> (r: bool)
        ensures
            r == (self@.flags & f.spec_bits() != 0),
    {
        self.get_flags().intersects(f)
    }

    /// Whether the awaiter flag is set.
    pub fn is_awaiter(&self) -> (r: bool)
        ensures
            r == has_flag(self@.flags, AWAITER_BITS),
    {
        self.get_flags().contains(StateFlags::awaiter())
    }

    /// Whether the closed flag is set.
    pub fn is_closed(&self) -> (r: bool)
        ensures
            r == has_flag(self@.flags, CLOSED_BITS),
    {
        self.get_flags().contains(StateFlags::closed())
    }

    /// Whether the locked flag is set.
    pub fn is_locked(&self) -> (r: bool)
        ensures
            r == has_flag(self@.flags, LOCKED_BITS),
    {
        self.get_flags().contains(StateFlags::locked())
    }

    /// Whether the scheduled flag is set.
    pub fn is_scheduled(&self) -> (r: bool)
        ensures
            r == has_flag(self@.flags, SCHEDULED_BITS),
    {
        self.get_flags().contains(StateFlags::scheduled())
    }

    /// Whether the completed flag is set.
    pub fn is_completed(&self) -> (r: bool)
        ensures
            r == has_flag(self@.flags, COMPLETED_BITS),
    {
        self.get_flags().contains(StateFlags::completed())
    }

    /// Whether the handle flag is set.
    pub fn is_handle(&self) -> (r: bool)
        ensures
            r == has_flag(self@.flags, HANDLE_BITS),
    {
        self.get_flags().contains(StateFlags::handle())
    }

    /// Whether the running flag is set.
    pub fn is_running(&self) -> (r: bool)
        ensures
            r == has_flag(self@.flags, RUNNING_BITS),
    {
        self.get_flags().contains(StateFlags::running())
    }
}

/// The single flag `bit` is set in `flags`.
pub open spec fn has_flag(flags: u32, bit: u32) -> bool {
    flags & bit == bit
}

/// A state with the given flags and reference count.
pub open spec fn sv(flags: u32, refs: u32) -> StateView {
    StateView { flags, refs }
}

/// Some flag of `mask` is set in `flags`.
pub open spec fn any_flag(flags: u32, mask: u32) -> bool {
    flags & mask != 0
}

/// `COMPLETED | CLOSED`.
pub open spec fn done_mask() -> u32 {
    DONE_BITS
}

/// `SCHEDULED | RUNNING`.
pub open spec fn active_mask() -> u32 {
    ACTIVE_BITS
}

// ---------------------------------------------------------------------------
// Cancelling through the process data or the `LightProc`.

/// The state after marking a process closed, unless it is completed or
/// closed already, in which case it can't be cancelled.
pub open spec fn cancel_next(v: StateView) -> Option<StateView> {
    if any_flag(v.flags, done_mask()) {
        None
    } else {
        Some(sv(v.flags | CLOSED_BITS, v.refs))
    }
}

/// What cancelling does once the new state is installed.
#[derive(Debug, Clone, Copy)]
pub struct Cancel {
    /// The state to install.
    pub new: State,
    /// The awaiter must be notified (its waker taken out and woken).
    pub notify: bool,
}

/// Decides how cancelling changes the state: `None` when the process is
/// completed or closed, else the closed state to install, and whether the
/// awaiter is to be notified once it is installed: when the old state has
/// one. The process is not scheduled.
pub fn cancel_transition(s: State) -> (r: Option<Cancel>)
    ensures
        match r {
            Some(c) => cancel_next(s@) == Some(c.new@) && c.notify == has_flag(s@.flags, AWAITER_BITS),
            None => cancel_next(s@) is None,
        },
{
    let (flags, references) = s.parts();
    if flags.intersects(StateFlags { bits: DONE_BITS }) {
        None
    } else {
        Some(
            Cancel {
                new: State::new(StateFlags { bits: flags.bits | CLOSED_BITS }, references),
                notify: s.is_awaiter(),
            },
        )
    }
}

/// The state a newly built process starts in: scheduled, with its handle,
/// and one reference, held by the `LightProc` that runs it.
pub fn initial_state() -> (s: State)
    ensures
        s@ == sv(SCHEDULED_BITS | HANDLE_BITS, 1),
{
    State::new(StateFlags { bits: SCHEDULED_BITS | HANDLE_BITS }, 1)
}

// ---------------------------------------------------------------------------
// The lock that guards the awaiter's waker.

/// The flags set to take the awaiter lock: the lock flag, and the awaiter
/// flag as well when a waker is being stored.
pub fn awaiter_lock_flags(storing: bool) -> (f: StateFlags)
    ensures
        f.spec_bits() == if storing {
            LOCKED_BITS | AWAITER_BITS
        } else {
            LOCKED_BITS
        },
{
    if storing {
        StateFlags { bits: LOCKED_BITS | AWAITER_BITS }
    } else {
        StateFlags { bits: LOCKED_BITS }
    }
}

/// Whether setting the lock flag took the lock: the state it was set on
/// did not hold it.
pub fn awaiter_lock_acquired(prev: State) -> (r: bool)
    ensures
        r == !has_flag(prev@.flags, LOCKED_BITS),
{
    !prev.is_locked()
}

/// The flags kept when the awaiter lock is released: all but the lock
/// flag, and all but the awaiter flag as well when the waker was removed.
pub fn awaiter_release_mask(storing: bool) -> (f: StateFlags)
    ensures
        f.spec_bits() == if storing {
            !LOCKED_BITS & ALL_BITS
        } else {
            !LOCKED_BITS & !AWAITER_BITS & ALL_BITS
        },
{
    if storing {
        StateFlags { bits: !LOCKED_BITS & ALL_BITS }
    } else {
        StateFlags { bits: !LOCKED_BITS & !AWAITER_BITS & ALL_BITS }
    }
}

// ---------------------------------------------------------------------------
// Cancelling through the `ProcHandle`.

/// What cancelling through the handle does once the new state is installed.
#[derive(Debug, Clone, Copy)]
pub struct HandleCancel {
    /// The state to install.
    pub new: State,
    /// The process must be scheduled so that its future gets dropped.
    pub schedule: bool,
    /// The awaiter must be notified.
    pub notify: bool,
}

/// The state after cancelling through the handle.
pub open spec fn handle_cancel_next(v: StateView) -> Option<StateView> {
    if any_flag(v.flags, done_mask()) {
        None
    } else if any_flag(v.flags, active_mask()) {
        Some(sv(v.flags | CLOSED_BITS, v.refs))
    } else {
        Some(sv(v.flags | SCHEDULED_BITS | CLOSED_BITS, (v.refs + 1) as u32))
    }
}

/// Scheduling an idle process on cancelling takes one more reference.
pub open spec fn handle_cancel_fits(v: StateView) -> bool {
    !any_flag(v.flags, done_mask()) && !any_flag(v.flags, active_mask()) ==> v.refs < u32::MAX
}

/// Decides how cancelling through the handle changes the state: nothing for
/// a completed or closed process; else the process is closed, and one that
/// is neither scheduled nor running is also scheduled, with one more
/// reference, so that the executor drops its future.
pub fn handle_cancel_transition(s: State) -> (r: Option<HandleCancel>)
    requires
        handle_cancel_fits(s@),
    ensures
        match r {
            Some(c) => {
                &&& handle_cancel_next(s@) == Some(c.new@)
                &&& c.schedule == !any_flag(s@.flags, active_mask())
                &&& c.notify == has_flag(s@.flags, AWAITER_BITS)
            },
            None => handle_cancel_next(s@) is None,
        },
{
    let (flags, references) = s.parts();
    if flags.intersects(StateFlags { bits: DONE_BITS }) {
        return None;
    }
    let active = flags.intersects(StateFlags { bits: ACTIVE_BITS });
    let new = if active {
        State::new(StateFlags { bits: flags.bits | CLOSED_BITS }, references)
    } else {
        State::new(StateFlags { bits: flags.bits | SCHEDULED_BITS | CLOSED_BITS }, references + 1)
    };
    Some(HandleCancel { new, schedule: !active, notify: s.is_awaiter() })
}

// ---------------------------------------------------------------------------
// Awaiting the output through the `ProcHandle`.

/// What polling the handle does in a given state.
#[derive(Debug, Clone, Copy)]
pub enum PollStep {
    /// The process is closed: notify other awaiters, the output is gone.
    Closed,
    /// The process is not completed yet: register as awaiter (or, having
    /// registered, wait).
    NotCompleted,
    /// The process is completed: install this closed state and take the
    /// output, notifying another awaiter if the old state has one.
    Complete(State),
}

/// Decides what polling the handle does in state `s`.
pub fn poll_step(s: State) -> (r: PollStep)
    ensures
        has_flag(s@.flags, CLOSED_BITS) ==> r is Closed,
        !has_flag(s@.flags, CLOSED_BITS) && !has_flag(s@.flags, COMPLETED_BITS) ==> r is NotCompleted,
        !has_flag(s@.flags, CLOSED_BITS) && has_flag(s@.flags, COMPLETED_BITS) ==> (r matches PollStep::Complete(n)
            && n@ == sv(s@.flags | CLOSED_BITS, s@.refs)),
{
    if s.is_closed() {
        PollStep::Closed
    } else if !s.is_completed() {
        PollStep::NotCompleted
    } else {
        let (flags, references) = s.parts();
        PollStep::Complete(State::new(StateFlags { bits: flags.bits | CLOSED_BITS }, references))
    }
}

// ---------------------------------------------------------------------------
// Dropping the `ProcHandle`.

/// What dropping the handle does in a given state.
#[derive(Debug, Clone, Copy)]
pub enum HandleDropStep {
    /// The output was never taken: install this closed state, take the
    /// output to drop it, and look again.
    TakeOutput(State),
    /// Install `new`; after that, for the last reference, schedule the process one
    /// more time so its future gets dropped, or destroy it.
    Release { new: State, schedule: bool, destroy: bool },
}

/// The state the handle is first hoped to be dropped in, and the one it
/// it leaves after that: scheduled with one reference, with and without the handle.
pub fn handle_drop_fast_path() -> (r: (State, State))
    ensures
        r.0@ == sv(SCHEDULED_BITS | HANDLE_BITS, 1),
        r.1@ == sv(SCHEDULED_BITS, 1),
{
    (
        State::new(StateFlags { bits: SCHEDULED_BITS | HANDLE_BITS }, 1),
        State::new(StateFlags { bits: SCHEDULED_BITS }, 1),
    )
}

/// The state dropping the handle installs.
pub open spec fn handle_drop_next(v: StateView) -> StateView {
    if has_flag(v.flags, COMPLETED_BITS) && !has_flag(v.flags, CLOSED_BITS) {
        sv(v.flags | CLOSED_BITS, v.refs)
    } else if v.refs == 0 && !has_flag(v.flags, CLOSED_BITS) {
        sv(SCHEDULED_BITS | CLOSED_BITS, 1)
    } else {
        sv(v.flags & !HANDLE_BITS, v.refs)
    }
}

/// Decides what dropping the handle does in state `s`.
pub fn handle_drop_step(s: State) -> (r: HandleDropStep)
    ensures
        has_flag(s@.flags, COMPLETED_BITS) && !has_flag(s@.flags, CLOSED_BITS) ==> (r matches HandleDropStep::TakeOutput(n)
            && n@ == handle_drop_next(s@)),
        !(has_flag(s@.flags, COMPLETED_BITS) && !has_flag(s@.flags, CLOSED_BITS)) ==> (r matches HandleDropStep::Release {
            new,
            schedule,
            destroy,
        } && new@ == handle_drop_next(s@) && schedule == (s@.refs == 0 && !has_flag(s@.flags, CLOSED_BITS))
            && destroy == (s@.refs == 0 && has_flag(s@.flags, CLOSED_BITS))),
{
    let (flags, references) = s.parts();
    if s.is_completed() && !s.is_closed() {
        return HandleDropStep::TakeOutput(State::new(StateFlags { bits: flags.bits | CLOSED_BITS }, references));
    }
    let closed = s.is_closed();
    let new = if references == 0 && !closed {
        State::new(StateFlags { bits: SCHEDULED_BITS | CLOSED_BITS }, 1)
    } else {
        State::new(StateFlags { bits: flags.bits & !HANDLE_BITS }, references)
    };
    HandleDropStep::Release { new, schedule: references == 0 && !closed, destroy: references == 0 && closed }
}

// ---------------------------------------------------------------------------
// Waking.

/// What waking a process through a waker does in a given state.
#[derive(Debug, Clone, Copy)]
pub enum WakeStep {
    /// Completed or closed: just drop the waker's reference.
    Release,
    /// Already scheduled: publish the unchanged state, after that drop the
    /// waker's reference.
    Publish,
    /// Install `new`; after that schedule the process if `run`, handing it the
    /// waker's reference, else drop that reference.
    Schedule { new: State, run: bool },
}

/// Decides what waking by value does in state `s`.
pub fn wake_step(s: State) -> (r: WakeStep)
    ensures
        any_flag(s@.flags, done_mask()) ==> r is Release,
        !any_flag(s@.flags, done_mask()) && has_flag(s@.flags, SCHEDULED_BITS) ==> r is Publish,
        !any_flag(s@.flags, done_mask()) && !has_flag(s@.flags, SCHEDULED_BITS) ==> (r matches WakeStep::Schedule {
            new,
            run,
        } && new@ == sv(s@.flags | SCHEDULED_BITS, s@.refs) && run == !has_flag(s@.flags, RUNNING_BITS)),
{
    let (flags, references) = s.parts();
    if flags.intersects(StateFlags { bits: DONE_BITS }) {
        WakeStep::Release
    } else if s.is_scheduled() {
        WakeStep::Publish
    } else {
        WakeStep::Schedule {
            new: State::new(StateFlags { bits: flags.bits | SCHEDULED_BITS }, references),
            run: !s.is_running(),
        }
    }
}

/// Waking by reference takes a reference when it schedules an idle process.
pub open spec fn wake_by_ref_fits(v: StateView) -> bool {
    !any_flag(v.flags, done_mask()) && !any_flag(v.flags, active_mask()) ==> v.refs < u32::MAX
}

/// The state waking by reference installs, if any.
pub open spec fn wake_by_ref_next(v: StateView) -> Option<StateView> {
    if any_flag(v.flags, done_mask()) || has_flag(v.flags, SCHEDULED_BITS) {
        None
    } else if !any_flag(v.flags, active_mask()) {
        Some(sv(v.flags | SCHEDULED_BITS, (v.refs + 1) as u32))
    } else {
        Some(sv(v.flags | SCHEDULED_BITS, v.refs))
    }
}

/// What waking a process by reference does in a given state.
#[derive(Debug, Clone, Copy)]
pub enum WakeByRefStep {
    /// Completed or closed: nothing to do.
    Done,
    /// Already scheduled: publish the unchanged state.
    Publish,
    /// Install `new`; after that schedule the process if `run`.
    Schedule { new: State, run: bool },
}

/// Decides what waking by reference does in state `s`: an idle process is
/// scheduled with a reference of its own, a running one only marked.
pub fn wake_by_ref_step(s: State) -> (r: WakeByRefStep)
    requires
        wake_by_ref_fits(s@),
    ensures
        any_flag(s@.flags, done_mask()) ==> r is Done,
        !any_flag(s@.flags, done_mask()) && has_flag(s@.flags, SCHEDULED_BITS) ==> r is Publish,
        !any_flag(s@.flags, done_mask()) && !has_flag(s@.flags, SCHEDULED_BITS) ==> (r matches WakeByRefStep::Schedule {
            new,
            run,
        } && Some(new@) == wake_by_ref_next(s@) && run == !any_flag(s@.flags, active_mask())),
{
    let (flags, references) = s.parts();
    if flags.intersects(StateFlags { bits: DONE_BITS }) {
        WakeByRefStep::Done
    } else if s.is_scheduled() {
        WakeByRefStep::Publish
    } else {
        let idle = !flags.intersects(StateFlags { bits: ACTIVE_BITS });
        let new = if idle {
            State::new(StateFlags { bits: flags.bits | SCHEDULED_BITS }, references + 1)
        } else {
            State::new(StateFlags { bits: flags.bits | SCHEDULED_BITS }, references)
        };
        WakeByRefStep::Schedule { new, run: idle }
    }
}

// ---------------------------------------------------------------------------
// Running.

/// What ticking a process does before polling its future.
#[derive(Debug, Clone, Copy)]
pub enum TickStart {
    /// Closed: notify the awaiter if `notify`, drop the future and the
    /// reference.
    Closed { notify: bool },
    /// Install this unscheduled, running state and poll the future.
    Run(State),
}

/// Decides what ticking does before polling, in state `s`.
pub fn tick_start_step(s: State) -> (r: TickStart)
    ensures
        has_flag(s@.flags, CLOSED_BITS) ==> r == (TickStart::Closed { notify: has_flag(s@.flags, AWAITER_BITS) }),
        !has_flag(s@.flags, CLOSED_BITS) ==> (r matches TickStart::Run(n) && n@ == sv(
            (s@.flags & !SCHEDULED_BITS) | RUNNING_BITS,
            s@.refs,
        )),
{
    if s.is_closed() {
        TickStart::Closed { notify: s.is_awaiter() }
    } else {
        let (flags, references) = s.parts();
        TickStart::Run(State::new(StateFlags { bits: (flags.bits & !SCHEDULED_BITS) | RUNNING_BITS }, references))
    }
}

/// What ticking does once the future has completed.
#[derive(Debug, Clone, Copy)]
pub struct TickReady {
    /// The completed state to install.
    pub new: State,
    /// The output must be dropped: nobody can take it.
    pub drop_output: bool,
    /// The awaiter must be notified.
    pub notify: bool,
}

/// The state a completed poll installs: no longer running nor scheduled,
/// completed, and closed too if the handle is gone.
pub open spec fn tick_ready_next(v: StateView) -> StateView {
    if !has_flag(v.flags, HANDLE_BITS) {
        sv((v.flags & !RUNNING_BITS & !SCHEDULED_BITS) | COMPLETED_BITS | CLOSED_BITS, v.refs)
    } else {
        sv((v.flags & !RUNNING_BITS & !SCHEDULED_BITS) | COMPLETED_BITS, v.refs)
    }
}

/// Decides what ticking does after the future completed, in state `s`.
pub fn tick_ready_step(s: State) -> (r: TickReady)
    ensures
        r.new@ == tick_ready_next(s@),
        r.drop_output == (!has_flag(s@.flags, HANDLE_BITS) || has_flag(s@.flags, CLOSED_BITS)),
        r.notify == has_flag(s@.flags, AWAITER_BITS),
{
    let (flags, references) = s.parts();
    let base = flags.bits & !RUNNING_BITS & !SCHEDULED_BITS;
    let new = if !s.is_handle() {
        State::new(StateFlags { bits: base | COMPLETED_BITS | CLOSED_BITS }, references)
    } else {
        State::new(StateFlags { bits: base | COMPLETED_BITS }, references)
    };
    TickReady { new, drop_output: !s.is_handle() || s.is_closed(), notify: s.is_awaiter() }
}

/// What ticking does after a poll that did not complete.
#[derive(Debug, Clone, Copy, PartialEq, Eq, Structural)]
pub enum PendingAction {
    /// Closed while running: drop the future and the reference.
    DropFuture,
    /// Woken while running: schedule again.
    Reschedule,
    /// Otherwise drop the reference.
    Release,
}

/// What ticking does after a poll that did not complete.
#[derive(Debug, Clone, Copy)]
pub struct TickPending {
    /// The state to install.
    pub new: State,
    /// What to do once it is installed.
    pub next_action: PendingAction,
}

/// The state a pending poll installs: no longer running, and no longer
/// scheduled either if closed meanwhile.
pub open spec fn tick_pending_next(v: StateView) -> StateView {
    if has_flag(v.flags, CLOSED_BITS) {
        sv(v.flags & !(RUNNING_BITS | SCHEDULED_BITS), v.refs)
    } else {
        sv(v.flags & !RUNNING_BITS, v.refs)
    }
}

/// Decides what ticking does after a pending poll, in state `s`.
pub fn tick_pending_step(s: State) -> (r: TickPending)
    ensures
        r.new@ == tick_pending_next(s@),
        has_flag(s@.flags, CLOSED_BITS) ==> r.next_action == PendingAction::DropFuture,
        !has_flag(s@.flags, CLOSED_BITS) && has_flag(s@.flags, SCHEDULED_BITS) ==> r.next_action == PendingAction::Reschedule,
        !has_flag(s@.flags, CLOSED_BITS) && !has_flag(s@.flags, SCHEDULED_BITS) ==> r.next_action == PendingAction::Release,
{
    let (flags, references) = s.parts();
    if s.is_closed() {
        TickPending {
            new: State::new(StateFlags { bits: flags.bits & !(RUNNING_BITS | SCHEDULED_BITS) }, references),
            next_action: PendingAction::DropFuture,
        }
    } else {
        let next_action = if s.is_scheduled() {
            PendingAction::Reschedule
        } else {
            PendingAction::Release
        };
        TickPending { new: State::new(StateFlags { bits: flags.bits & !RUNNING_BITS }, references), next_action }
    }
}

/// What the guard does when polling the future panicked.
#[derive(Debug, Clone, Copy)]
pub enum GuardDrop {
    /// Closed while running: unschedule, drop the future and the reference.
    Closed,
    /// Install this closed state, drop the future, notify the awaiter if
    /// `notify`, and drop the reference.
    Close { new: State, notify: bool },
}

/// Decides what the guard does after a panic, in state `s`.
pub fn guard_drop_step(s: State) -> (r: GuardDrop)
    ensures
        has_flag(s@.flags, CLOSED_BITS) ==> r is Closed,
        !has_flag(s@.flags, CLOSED_BITS) ==> (r matches GuardDrop::Close { new, notify } && new@ == sv(
            (s@.flags & !RUNNING_BITS & !SCHEDULED_BITS) | CLOSED_BITS,
            s@.refs,
        ) && notify == has_flag(s@.flags, AWAITER_BITS)),
{
    if s.is_closed() {
        GuardDrop::Closed
    } else {
        let (flags, references) = s.parts();
        GuardDrop::Close {
            new: State::new(StateFlags { bits: (flags.bits & !RUNNING_BITS & !SCHEDULED_BITS) | CLOSED_BITS }, references),
            notify: s.is_awaiter(),
        }
    }
}

/// After dropping a reference, given the state read before the drop: the
/// process is destroyed when the drop took its last reference and its
/// handle is gone.
pub fn decrement_destroys(prev: State) -> (r: bool)
    ensures
        r == (prev@.refs == 1 && !has_flag(prev@.flags, HANDLE_BITS)),
{
    prev.get_refcount() == 1 && !prev.is_handle()
}

// ---------------------------------------------------------------------------
// What every step keeps.

/// A completed process is neither scheduled nor running.
pub open spec fn consistent_flags(f: u32) -> bool {
    has_flag(f, COMPLETED_BITS) ==> !any_flag(f, ACTIVE_BITS)
}

/// Every one of the completed and closed flags set in `f` is set in `g`.
pub open spec fn keeps_done(f: u32, g: u32) -> bool {
    (f & DONE_BITS) & g == f & DONE_BITS
}

proof fn lemma_flag_steps(f: u32)
    by (bit_vector)
    ensures
        consistent_flags(f) ==> consistent_flags(f | CLOSED_BITS) && keeps_done(f, f | CLOSED_BITS),
        f & DONE_BITS == 0 ==> consistent_flags(f | SCHEDULED_BITS | CLOSED_BITS) && keeps_done(
            f,
            f | SCHEDULED_BITS | CLOSED_BITS,
        ),
        f & DONE_BITS == 0 ==> consistent_flags(f | SCHEDULED_BITS) && keeps_done(f, f | SCHEDULED_BITS),
        consistent_flags(f) ==> consistent_flags(f & !HANDLE_BITS) && keeps_done(f, f & !HANDLE_BITS),
        f & COMPLETED_BITS != COMPLETED_BITS ==> consistent_flags(SCHEDULED_BITS | CLOSED_BITS) && keeps_done(
            f,
            SCHEDULED_BITS | CLOSED_BITS,
        ),
        f & SCHEDULED_BITS == SCHEDULED_BITS && consistent_flags(f) ==> consistent_flags(
            (f & !SCHEDULED_BITS) | RUNNING_BITS,
        ) && keeps_done(f, (f & !SCHEDULED_BITS) | RUNNING_BITS),
        consistent_flags((f & !RUNNING_BITS & !SCHEDULED_BITS) | COMPLETED_BITS | CLOSED_BITS),
        keeps_done(f, (f & !RUNNING_BITS & !SCHEDULED_BITS) | COMPLETED_BITS | CLOSED_BITS),
        consistent_flags((f & !RUNNING_BITS & !SCHEDULED_BITS) | COMPLETED_BITS),
        keeps_done(f, (f & !RUNNING_BITS & !SCHEDULED_BITS) | COMPLETED_BITS),
        consistent_flags(f) ==> consistent_flags(f & !(RUNNING_BITS | SCHEDULED_BITS)) && keeps_done(
            f,
            f & !(RUNNING_BITS | SCHEDULED_BITS),
        ),
        consistent_flags(f) ==> consistent_flags(f & !RUNNING_BITS) && keeps_done(f, f & !RUNNING_BITS),
        consistent_flags((f & !RUNNING_BITS & !SCHEDULED_BITS) | CLOSED_BITS),
        keeps_done(f, (f & !RUNNING_BITS & !SCHEDULED_BITS) | CLOSED_BITS),
        f & DONE_BITS == 0 ==> f & COMPLETED_BITS != COMPLETED_BITS,
{
}

/// Every step keeps a process consistent (a completed process is neither
/// scheduled nor running), and no step clears the completed or closed flag:
/// a process that is completed or closed stays so. Ticking starts only on a
/// scheduled process, since only a scheduled process has a `LightProc` to
/// run.
pub proof fn law_steps_keep_consistency(v: StateView)
    requires
        consistent_flags(v.flags),
    ensures
        cancel_next(v) matches Some(w) ==> consistent_flags(w.flags) && keeps_done(v.flags, w.flags),
        handle_cancel_next(v) matches Some(w) ==> consistent_flags(w.flags) && keeps_done(v.flags, w.flags),
        consistent_flags(v.flags | CLOSED_BITS) && keeps_done(v.flags, v.flags | CLOSED_BITS),
        consistent_flags(handle_drop_next(v).flags) && keeps_done(v.flags, handle_drop_next(v).flags),
        !any_flag(v.flags, done_mask()) ==> consistent_flags(v.flags | SCHEDULED_BITS) && keeps_done(
            v.flags,
            v.flags | SCHEDULED_BITS,
        ),
        wake_by_ref_next(v) matches Some(w) ==> consistent_flags(w.flags) && keeps_done(v.flags, w.flags),
        has_flag(v.flags, SCHEDULED_BITS) ==> consistent_flags((v.flags & !SCHEDULED_BITS) | RUNNING_BITS)
            && keeps_done(v.flags, (v.flags & !SCHEDULED_BITS) | RUNNING_BITS),
        consistent_flags(tick_ready_next(v).flags) && keeps_done(v.flags, tick_ready_next(v).flags),
        consistent_flags(tick_pending_next(v).flags) && keeps_done(v.flags, tick_pending_next(v).flags),
        consistent_flags((v.flags & !RUNNING_BITS & !SCHEDULED_BITS) | CLOSED_BITS) && keeps_done(
            v.flags,
            (v.flags & !RUNNING_BITS & !SCHEDULED_BITS) | CLOSED_BITS,
        ),
{
    lemma_flag_steps(v.flags);
}

/// A completed or closed process can't be cancelled, woken or scheduled
/// again.
pub proof fn law_done_processes_stay_put(v: StateView)
    requires
        any_flag(v.flags, done_mask()),
    ensures
        cancel_next(v) is None,
        handle_cancel_next(v) is None,
        wake_by_ref_next(v) is None,
{
}

proof fn lemma_flag_bits(f: u32)
    by (bit_vector)
    ensures
        (f & 12u32 != 0) == (f & 4u32 == 4u32 || f & 8u32 == 8u32),
        (f & 3u32 != 0) == (f & 1u32 == 1u32 || f & 2u32 == 2u32),
        (f | 1u32) & 1u32 == 1u32,
        (f | 8u32) & 8u32 == 8u32,
        (f | 1u32 | 8u32) & 1u32 == 1u32,
        (f | 1u32 | 8u32) & 8u32 == 8u32,
{
}

/// Waking by reference a process that is neither completed, closed nor
/// scheduled marks it scheduled and keeps its other flags. When it was not
/// running either, the `LightProc` that now gets scheduled holds a
/// reference of its own, so the count grows by exactly one; a running
/// process keeps its count. A completed, closed or already scheduled
/// process is left as it is.
pub proof fn law_wake_by_ref_takes_a_reference_when_idle(v: StateView)
    requires
        wake_by_ref_fits(v),
    ensures
        !has_flag(v.flags, COMPLETED_BITS) && !has_flag(v.flags, CLOSED_BITS) && !has_flag(
            v.flags,
            SCHEDULED_BITS,
        ) ==> (wake_by_ref_next(v) matches Some(w) && w.flags == v.flags | SCHEDULED_BITS
            && has_flag(w.flags, SCHEDULED_BITS) && w.refs == if has_flag(v.flags, RUNNING_BITS) {
            v.refs as int
        } else {
            v.refs + 1
        }),
        has_flag(v.flags, COMPLETED_BITS) || has_flag(v.flags, CLOSED_BITS) || has_flag(
            v.flags,
            SCHEDULED_BITS,
        ) ==> wake_by_ref_next(v) is None,
{
    lemma_flag_bits(v.flags);
}

/// Cancelling through the handle a process that is neither completed nor
/// closed closes it and keeps its other flags. When it was neither
/// scheduled nor running it is also scheduled, so that its future gets
/// dropped, and that `LightProc` holds one more reference; otherwise the
/// count stays. A completed or closed process can't be cancelled.
pub proof fn law_handle_cancel_schedules_idle_processes(v: StateView)
    requires
        handle_cancel_fits(v),
    ensures
        !has_flag(v.flags, COMPLETED_BITS) && !has_flag(v.flags, CLOSED_BITS) ==> {
            let idle = !has_flag(v.flags, SCHEDULED_BITS) && !has_flag(v.flags, RUNNING_BITS);
            &&& handle_cancel_next(v) matches Some(w)
            &&& has_flag(w.flags, CLOSED_BITS)
            &&& w.flags == if idle {
                v.flags | SCHEDULED_BITS | CLOSED_BITS
            } else {
                v.flags | CLOSED_BITS
            }
            &&& w.refs == if idle {
                v.refs + 1
            } else {
                v.refs as int
            }
        },
        has_flag(v.flags, COMPLETED_BITS) || has_flag(v.flags, CLOSED_BITS) ==> handle_cancel_next(v) is None,
{
    lemma_flag_bits(v.flags);
}

/// Cancelling through the process a process that is neither completed nor
/// closed closes it, keeping its other flags and its reference count; a
/// completed or closed process can't be cancelled.
pub proof fn law_cancel_closes_keeping_references(v: StateView)
    ensures
        !has_flag(v.flags, COMPLETED_BITS) && !has_flag(v.flags, CLOSED_BITS) ==> (cancel_next(v) matches Some(w)
            && w.flags == v.flags | CLOSED_BITS && has_flag(w.flags, CLOSED_BITS) && w.refs == v.refs),
        has_flag(v.flags, COMPLETED_BITS) || has_flag(v.flags, CLOSED_BITS) ==> cancel_next(v) is None,
{
    lemma_flag_bits(v.flags);
}

proof fn lemma_tick_bits(f: u32)
    by (bit_vector)
    ensures
        ({
            let g = (f & !2u32 & !1u32) | 4u32 | 8u32;
            &&& g & 4u32 == 4u32 && g & 8u32 == 8u32 && g & 2u32 == 0 && g & 1u32 == 0
            &&& (g & 16u32 == 16u32) == (f & 16u32 == 16u32)
            &&& (g & 32u32 == 32u32) == (f & 32u32 == 32u32)
        }),
        ({
            let g = (f & !2u32 & !1u32) | 4u32;
            &&& g & 4u32 == 4u32 && g & 2u32 == 0 && g & 1u32 == 0
            &&& (g & 8u32 == 8u32) == (f & 8u32 == 8u32)
            &&& (g & 16u32 == 16u32) == (f & 16u32 == 16u32)
            &&& (g & 32u32 == 32u32) == (f & 32u32 == 32u32)
        }),
        ({
            let g = f & !(2u32 | 1u32);
            &&& g & 2u32 == 0 && g & 1u32 == 0
            &&& (g & 4u32 == 4u32) == (f & 4u32 == 4u32)
            &&& (g & 8u32 == 8u32) == (f & 8u32 == 8u32)
            &&& (g & 16u32 == 16u32) == (f & 16u32 == 16u32)
            &&& (g & 32u32 == 32u32) == (f & 32u32 == 32u32)
        }),
        ({
            let g = f & !2u32;
            &&& g & 2u32 == 0
            &&& (g & 1u32 == 1u32) == (f & 1u32 == 1u32)
            &&& (g & 4u32 == 4u32) == (f & 4u32 == 4u32)
            &&& (g & 8u32 == 8u32) == (f & 8u32 == 8u32)
            &&& (g & 16u32 == 16u32) == (f & 16u32 == 16u32)
            &&& (g & 32u32 == 32u32) == (f & 32u32 == 32u32)
        }),
        ({
            let g = f & !16u32;
            &&& g & 16u32 == 0
            &&& (g & 1u32 == 1u32) == (f & 1u32 == 1u32)
            &&& (g & 2u32 == 2u32) == (f & 2u32 == 2u32)
            &&& (g & 4u32 == 4u32) == (f & 4u32 == 4u32)
            &&& (g & 8u32 == 8u32) == (f & 8u32 == 8u32)
            &&& (g & 32u32 == 32u32) == (f & 32u32 == 32u32)
        }),
        ({
            let g = (f & !1u32) | 2u32;
            &&& g & 2u32 == 2u32 && g & 1u32 == 0
            &&& (g & 4u32 == 4u32) == (f & 4u32 == 4u32)
            &&& (g & 8u32 == 8u32) == (f & 8u32 == 8u32)
            &&& (g & 16u32 == 16u32) == (f & 16u32 == 16u32)
            &&& (g & 32u32 == 32u32) == (f & 32u32 == 32u32)
        }),
        ({
            let g = f | 8u32;
            &&& g & 8u32 == 8u32
            &&& (g & 4u32 == 4u32) == (f & 4u32 == 4u32)
            &&& (g & 16u32 == 16u32) == (f & 16u32 == 16u32)
            &&& (g & 32u32 == 32u32) == (f & 32u32 == 32u32)
        }),
        (1u32 | 8u32) & 1u32 == 1u32 && (1u32 | 8u32) & 8u32 == 8u32 && (1u32 | 8u32) & 16u32 == 0,
{
}

/// Polling a process that completed leaves it completed, neither running nor
/// scheduled, with its handle and awaiter flags and its references as they
/// were; it is closed as well when it was closed or its handle is gone, so
/// that nobody waits for an output. A poll that did not complete leaves the
/// process not running, scheduled again only when it was woken meanwhile
/// and is not closed, with its other flags and references unchanged.
/// Starting a tick unschedules the process and marks it running.
pub proof fn law_tick_updates_run_flags(v: StateView)
    ensures
        ({
            let w = tick_ready_next(v);
            &&& has_flag(w.flags, COMPLETED_BITS)
            &&& !has_flag(w.flags, RUNNING_BITS) && !has_flag(w.flags, SCHEDULED_BITS)
            &&& has_flag(w.flags, CLOSED_BITS) == (has_flag(v.flags, CLOSED_BITS) || !has_flag(v.flags, HANDLE_BITS))
            &&& has_flag(w.flags, HANDLE_BITS) == has_flag(v.flags, HANDLE_BITS)
            &&& has_flag(w.flags, AWAITER_BITS) == has_flag(v.flags, AWAITER_BITS)
            &&& w.refs == v.refs
        }),
        ({
            let w = tick_pending_next(v);
            &&& !has_flag(w.flags, RUNNING_BITS)
            &&& has_flag(w.flags, SCHEDULED_BITS) == (has_flag(v.flags, SCHEDULED_BITS) && !has_flag(
                v.flags,
                CLOSED_BITS,
            ))
            &&& has_flag(w.flags, CLOSED_BITS) == has_flag(v.flags, CLOSED_BITS)
            &&& has_flag(w.flags, COMPLETED_BITS) == has_flag(v.flags, COMPLETED_BITS)
            &&& has_flag(w.flags, HANDLE_BITS) == has_flag(v.flags, HANDLE_BITS)
            &&& has_flag(w.flags, AWAITER_BITS) == has_flag(v.flags, AWAITER_BITS)
            &&& w.refs == v.refs
        }),
        ({
            let g = (v.flags & !SCHEDULED_BITS) | RUNNING_BITS;
            &&& has_flag(g, RUNNING_BITS) && !has_flag(g, SCHEDULED_BITS)
            &&& has_flag(g, CLOSED_BITS) == has_flag(v.flags, CLOSED_BITS)
            &&& has_flag(g, COMPLETED_BITS) == has_flag(v.flags, COMPLETED_BITS)
            &&& has_flag(g, HANDLE_BITS) == has_flag(v.flags, HANDLE_BITS)
            &&& has_flag(g, AWAITER_BITS) == has_flag(v.flags, AWAITER_BITS)
        }),
{
    lemma_tick_bits(v.flags);
}

/// Dropping the handle of a process that completed but is not closed closes
/// it, so that its output can be dropped, and keeps the rest. Otherwise the
/// handle flag is cleared and the rest kept, except that a process with no
/// reference left that is not closed is scheduled and closed with one
/// reference, so that its future gets dropped.
pub proof fn law_handle_drop_releases_the_handle(v: StateView)
    ensures
        has_flag(v.flags, COMPLETED_BITS) && !has_flag(v.flags, CLOSED_BITS) ==> ({
            let w = handle_drop_next(v);
            &&& has_flag(w.flags, CLOSED_BITS) && has_flag(w.flags, COMPLETED_BITS)
            &&& has_flag(w.flags, HANDLE_BITS) == has_flag(v.flags, HANDLE_BITS)
            &&& has_flag(w.flags, AWAITER_BITS) == has_flag(v.flags, AWAITER_BITS)
            &&& w.refs == v.refs
        }),
        !has_flag(v.flags, COMPLETED_BITS) && !has_flag(v.flags, CLOSED_BITS) && v.refs == 0 ==> ({
            let w = handle_drop_next(v);
            &&& has_flag(w.flags, SCHEDULED_BITS) && has_flag(w.flags, CLOSED_BITS)
            &&& !has_flag(w.flags, HANDLE_BITS)
            &&& w.refs == 1
        }),
        has_flag(v.flags, CLOSED_BITS) || (!has_flag(v.flags, COMPLETED_BITS) && v.refs != 0) ==> ({
            let w = handle_drop_next(v);
            &&& !has_flag(w.flags, HANDLE_BITS)
            &&& has_flag(w.flags, SCHEDULED_BITS) == has_flag(v.flags, SCHEDULED_BITS)
            &&& has_flag(w.flags, RUNNING_BITS) == has_flag(v.flags, RUNNING_BITS)
            &&& has_flag(w.flags, COMPLETED_BITS) == has_flag(v.flags, COMPLETED_BITS)
            &&& has_flag(w.flags, CLOSED_BITS) == has_flag(v.flags, CLOSED_BITS)
            &&& has_flag(w.flags, AWAITER_BITS) == has_flag(v.flags, AWAITER_BITS)
            &&& w.refs == v.refs
        }),
{
    lemma_tick_bits(v.flags);
}

impl State {
    /// The 64-bit word with `f` in the flag half and nothing in the
    /// reference half: or-ing it in sets those flags.
    pub fn flags_word(f: StateFlags) -> (w: u64)
        ensures
            w == (f.spec_bits() as u64) << 32u64,
    {
        (f.bits as u64) << 32u64
    }

    /// The 64-bit word with `f` in the flag half and all ones in the
    /// reference half: and-ing it keeps only those flags.
    pub fn flags_mask_word(f: StateFlags) -> (w: u64)
        ensures
            w == ((f.spec_bits() as u64) << 32u64) | 0xffff_ffffu64,
    {
        ((f.bits as u64) << 32u64) | 0xffff_ffffu64
    }

    /// The 64-bit word with `n` in the reference half: adding it adds `n`
    /// references.
    pub fn refs_word(n: u32) -> (w: u64)
        ensures
            w == n as u64,
    {
        n as u64
    }
}

} // verus!

//! Machines: their state, the rules by which users take and return them, and
//! what the API shows of them to a user.

use vstd::prelude::*;
use crate::user::{UserId, UserIdView, opt_user_view, opt_user_eq, clone_opt_user};
use crate::permission::{PermRule, Permission, PrivilegesBuf, Perms, any_rule_grants, rules_grant};
use crate::text::{split_by, split_on, split_terminated};

verus! {

/// The abstract value of a machine's status.
pub enum StatusView {
    Free,
    InUse(Option<UserIdView>),
    ToCheck(UserIdView),
    Blocked(UserIdView),
    Disabled,
    Reserved(UserIdView),
}

/// Status of a machine.
#[derive(Debug)]
pub enum Status {
    /// Not currently used by anybody.
    Free,
    /// Used by somebody.
    InUse(Option<UserId>),
    /// Was used by somebody and now needs to be checked for cleanliness.
    ToCheck(UserId),
    /// Not used by anybody but also can not be used, e.g. down for maintenance.
    Blocked(UserId),
    /// Disabled for some other reason.
    Disabled,
    /// Reserved.
    Reserved(UserId),
}

impl View for Status {
    type V = StatusView;

    open spec fn view(&self) -> StatusView {
        match self {
            Status::Free => StatusView::Free,
            Status::InUse(u) => StatusView::InUse(opt_user_view(*u)),
            Status::ToCheck(u) => StatusView::ToCheck(u@),
            Status::Blocked(u) => StatusView::Blocked(u@),
            Status::Disabled => StatusView::Disabled,
            Status::Reserved(u) => StatusView::Reserved(u@),
        }
    }
}

impl Clone for Status {
    fn clone(&self) -> (r: Status)
        ensures
            r@ == self@,
    {
        match self {
            Status::Free => Status::Free,
            Status::InUse(u) => Status::InUse(clone_opt_user(u)),
            Status::ToCheck(u) => Status::ToCheck(u.clone()),
            Status::Blocked(u) => Status::Blocked(u.clone()),
            Status::Disabled => Status::Disabled,
            Status::Reserved(u) => Status::Reserved(u.clone()),
        }
    }
}

impl PartialEq for Status {
    fn eq(&self, other: &Status) -> (r: bool) {
        match (self, other) {
            (Status::Free, Status::Free) => true,
            (Status::InUse(a), Status::InUse(b)) => opt_user_eq(a, b),
            (Status::ToCheck(a), Status::ToCheck(b)) => *a == *b,
            (Status::Blocked(a), Status::Blocked(b)) => *a == *b,
            (Status::Disabled, Status::Disabled) => true,
            (Status::Reserved(a), Status::Reserved(b)) => *a == *b,
            _ => false,
        }
    }
}

impl vstd::std_specs::cmp::PartialEqSpecImpl for Status {
    open spec fn obeys_eq_spec() -> bool {
        true
    }

    open spec fn eq_spec(&self, other: &Status) -> bool {
        self@ == other@
    }
}

impl Eq for Status {
}

/// The status of a machine.
#[derive(Debug)]
pub struct MachineState {
    pub state: Status,
}

impl View for MachineState {
    type V = StatusView;

    open spec fn view(&self) -> StatusView {
        self.state@
    }
}

impl MachineState {
    /// A free machine.
    pub fn new() -> (s: MachineState)
        ensures
            s@ == StatusView::Free,
    {
        MachineState { state: Status::Free }
    }

    /// A machine in the given status.
    pub fn from(state: Status) -> (s: MachineState)
        ensures
            s@ == state@,
    {
        MachineState { state }
    }

    /// A free machine.
    pub fn free() -> (s: MachineState)
        ensures
            s@ == StatusView::Free,
    {
        MachineState { state: Status::Free }
    }

    /// A machine in use, by the given user if known.
    pub fn used(uid: Option<UserId>) -> (s: MachineState)
        ensures
            s@ == StatusView::InUse(opt_user_view(uid)),
    {
        MachineState { state: Status::InUse(uid) }
    }

    /// A machine blocked by the given user.
    pub fn blocked(uid: UserId) -> (s: MachineState)
        ensures
            s@ == StatusView::Blocked(uid@),
    {
        MachineState { state: Status::Blocked(uid) }
    }

    /// A disabled machine.
    pub fn disabled() -> (s: MachineState)
        ensures
            s@ == StatusView::Disabled,
    {
        MachineState { state: Status::Disabled }
    }

    /// A machine reserved for the given user.
    pub fn reserved(uid: UserId) -> (s: MachineState)
        ensures
            s@ == StatusView::Reserved(uid@),
    {
        MachineState { state: Status::Reserved(uid) }
    }

    /// A machine to be checked after the given user used it.
    pub fn check(uid: UserId) -> (s: MachineState)
        ensures
            s@ == StatusView::ToCheck(uid@),
    {
        MachineState { state: Status::ToCheck(uid) }
    }
}

impl Clone for MachineState {
    fn clone(&self) -> (r: MachineState)
        ensures
            r@ == self@,
    {
        MachineState { state: self.state.clone() }
    }
}

impl PartialEq for MachineState {
    fn eq(&self, other: &MachineState) -> (r: bool) {
        self.state == other.state
    }
}

impl vstd::std_specs::cmp::PartialEqSpecImpl for MachineState {
    open spec fn obeys_eq_spec() -> bool {
        true
    }

    open spec fn eq_spec(&self, other: &MachineState) -> bool {
        self@ == other@
    }
}

impl Eq for MachineState {
}

/// The user a status names as the one to remember as previous user, if the
/// status is one of use or checking.
pub open spec fn previous_user_of(s: StatusView, previous: Option<UserIdView>) -> Option<UserIdView> {
    match s {
        StatusView::InUse(u) => u,
        StatusView::ToCheck(u) => Some(u),
        _ => previous,
    }
}

/// The abstract value of a machine's internal record.
pub struct InnerView {
    pub id: Seq<char>,
    pub state: StatusView,
    pub reset: Option<StatusView>,
    pub previous: Option<UserIdView>,
    /// The states set since the machine database was last written, oldest
    /// first: each is to be stored under the machine's id.
    pub unsaved: Seq<StatusView>,
}

/// Internal machine representation: the state the machine should be in, the
/// state to return to, the user who had it before, and the states set that
/// the machine database has yet to store.
#[derive(Debug)]
pub struct Inner {
    /// Globally unique machine readable identifier.
    pub id: String,
    state: MachineState,
    reset: Option<MachineState>,
    previous: Option<UserId>,
    unsaved: Vec<MachineState>,
}

pub open spec fn state_views(v: Seq<MachineState>) -> Seq<StatusView> {
    v.map_values(|s: MachineState| s@)
}

/// The view of an optional machine state.
pub open spec fn opt_state_view(s: Option<MachineState>) -> Option<StatusView> {
    match s {
        Some(v) => Some(v@),
        None => None,
    }
}

impl View for Inner {
    type V = InnerView;

    closed spec fn view(&self) -> InnerView {
        InnerView {
            id: self.id@,
            state: self.state@,
            reset: opt_state_view(self.reset),
            previous: opt_user_view(self.previous),
            unsaved: state_views(self.unsaved@),
        }
    }
}

impl Inner {
    /// A machine in the given state, with nothing to return to and no
    /// previous user.
    pub fn new(id: String, state: MachineState) -> (m: Inner)
        ensures
            m@ == (InnerView { id: id@, state: state@, reset: None, previous: None, unsaved: Seq::empty() }),
    {
        let m = Inner { id, state, reset: None, previous: None, unsaved: Vec::new() };
        assert(state_views(m.unsaved@) =~= Seq::<StatusView>::empty());
        m
    }

    /// Hands out the states set since the last call, oldest first, for the
    /// machine database to store under the machine's id.
    pub fn take_unsaved(&mut self) -> (states: Vec<MachineState>)
        ensures
            state_views(states@) == old(self)@.unsaved,
            final(self)@ == (InnerView { unsaved: Seq::empty(), ..old(self)@ }),
    {
        let mut states: Vec<MachineState> = Vec::new();
        std::mem::swap(&mut self.unsaved, &mut states);
        assert(state_views(self.unsaved@) =~= Seq::<StatusView>::empty());
        states
    }

    /// The current state.
    pub fn read_state(&self) -> (s: &MachineState)
        ensures
            s@ == self@.state,
    {
        &self.state
    }

    /// The user who had the machine before.
    pub fn get_previous(&self) -> (p: &Option<UserId>)
        ensures
            opt_user_view(*p) == self@.previous,
    {
        &self.previous
    }

    fn replace_state(&mut self, new_state: MachineState) -> (old_state: MachineState)
        ensures
            old_state@ == old(self)@.state,
            final(self)@ == (InnerView {
                state: new_state@,
                unsaved: old(self)@.unsaved.push(new_state@),
                ..old(self)@
            }),
    {
        let stored = new_state.clone();
        let ghost before = self.unsaved@;
        self.unsaved.push(stored);
        assert(state_views(self.unsaved@) =~= state_views(before).push(new_state@));
        let mut old_state = new_state;
        std::mem::swap(&mut self.state, &mut old_state);
        old_state
    }

    /// Sets a new state, remembering the old one to return to and, if the
    /// machine was in use or to be checked, its user as the previous user.
    /// The new state is queued for the machine database.
    pub fn do_state_change(&mut self, new_state: MachineState)
        ensures
            final(self)@ == after_state_change(old(self)@, new_state@),
    {
        let old_state = self.replace_state(new_state);
        match &old_state.state {
            Status::InUse(user) => {
                self.previous = clone_opt_user(user);
            },
            Status::ToCheck(user) => {
                self.previous = Some(user.clone());
            },
            _ => {},
        }
        self.reset = Some(old_state);
    }

    /// Returns to the state remembered by the last state change, or to free
    /// if there is none, remembering the current user as previous user. The
    /// state returned to is queued for the machine database.
    pub fn reset_state(&mut self)
        ensures
            final(self)@ == after_reset(old(self)@),
    {
        match &self.state.state {
            Status::InUse(user) => {
                self.previous = clone_opt_user(user);
            },
            Status::ToCheck(user) => {
                self.previous = Some(user.clone());
            },
            _ => {},
        }
        let reset = self.reset.take();
        match reset {
            Some(state) => {
                self.replace_state(state);
            },
            None => {
                self.replace_state(MachineState::free());
            },
        }
    }

    /// A user takes the machine: allowed when it is free or reserved for
    /// them.
    pub fn use_(&mut self, userid: UserId)
        ensures
            final(self)@ == after_use(old(self)@, userid@),
    {
        let ok = match &self.state.state {
            Status::Free => true,
            Status::Reserved(whom) => userid == *whom,
            _ => false,
        };
        if ok {
            self.do_state_change(MachineState::used(Some(userid)));
        }
    }

    /// A user gives the machine back: allowed when they are the one using
    /// it; the machine returns to the state it was in before.
    pub fn give_back(&mut self, userid: UserId)
        ensures
            final(self)@ == after_give_back(old(self)@, userid@),
    {
        let whom = Some(userid);
        let ok = match &self.state.state {
            Status::InUse(user) => opt_user_eq(&whom, user),
            _ => false,
        };
        if ok {
            self.reset_state();
        }
    }

    /// Frees the machine regardless of its state.
    pub fn force_free(&mut self)
        ensures
            final(self)@.state == StatusView::Free,
            final(self)@.reset == Some(old(self)@.state),
            final(self)@.previous == previous_user_of(old(self)@.state, old(self)@.previous),
            final(self)@.id == old(self)@.id,
            final(self)@.unsaved == old(self)@.unsaved.push(final(self)@.state),
    {
        self.do_state_change(MachineState::free());
    }

    /// Marks the machine as used by nobody in particular.
    pub fn force_use(&mut self)
        ensures
            final(self)@.state == StatusView::InUse(None),
            final(self)@.reset == Some(old(self)@.state),
            final(self)@.previous == previous_user_of(old(self)@.state, old(self)@.previous),
            final(self)@.id == old(self)@.id,
            final(self)@.unsaved == old(self)@.unsaved.push(final(self)@.state),
    {
        self.do_state_change(MachineState::used(None));
    }

    /// Blocks the machine in the name of the given user.
    pub fn block(&mut self, uid: UserId)
        ensures
            final(self)@.state == StatusView::Blocked(uid@),
            final(self)@.reset == Some(old(self)@.state),
            final(self)@.previous == previous_user_of(old(self)@.state, old(self)@.previous),
            final(self)@.id == old(self)@.id,
            final(self)@.unsaved == old(self)@.unsaved.push(final(self)@.state),
    {
        self.do_state_change(MachineState::blocked(uid));
    }

    /// Disables the machine.
    pub fn disabled(&mut self)
        ensures
            final(self)@.state == StatusView::Disabled,
            final(self)@.reset == Some(old(self)@.state),
            final(self)@.previous == previous_user_of(old(self)@.state, old(self)@.previous),
            final(self)@.id == old(self)@.id,
            final(self)@.unsaved == old(self)@.unsaved.push(final(self)@.state),
    {
        self.do_state_change(MachineState::disabled());
    }

    /// Sets the state an administrator asked for, attributing it to `uid`.
    pub fn force_set_state(&mut self, state: ApiMachineState, uid: UserId)
        ensures
            final(self)@.state == state_from_api(state, uid@),
            final(self)@.reset == Some(old(self)@.state),
            final(self)@.previous == previous_user_of(old(self)@.state, old(self)@.previous),
            final(self)@.id == old(self)@.id,
            final(self)@.unsaved == old(self)@.unsaved.push(final(self)@.state),
    {
        let s = MachineState::from_api(state, uid);
        self.do_state_change(s);
    }
}

/// The machine after a change to `new_state`, which is also to be stored.
pub open spec fn after_state_change(m: InnerView, new_state: StatusView) -> InnerView {
    InnerView {
        id: m.id,
        state: new_state,
        reset: Some(m.state),
        previous: previous_user_of(m.state, m.previous),
        unsaved: m.unsaved.push(new_state),
    }
}

/// The machine after returning to its remembered state.
pub open spec fn after_reset(m: InnerView) -> InnerView {
    InnerView {
        id: m.id,
        state: match m.reset {
            Some(s) => s,
            None => StatusView::Free,
        },
        reset: None,
        previous: previous_user_of(m.state, m.previous),
        unsaved: m.unsaved.push(
            match m.reset {
                Some(s) => s,
                None => StatusView::Free,
            },
        ),
    }
}

/// The machine after `user` asked to use it.
pub open spec fn after_use(m: InnerView, user: UserIdView) -> InnerView {
    if may_use(m.state, user) {
        after_state_change(m, StatusView::InUse(Some(user)))
    } else {
        m
    }
}

/// The machine after `user` asked to give it back.
pub open spec fn after_give_back(m: InnerView, user: UserIdView) -> InnerView {
    if used_by(m.state, user) {
        after_reset(m)
    } else {
        m
    }
}

/// Resetting after a state change returns the machine to the state it was in
/// before, with nothing left to return to.
pub proof fn law_reset_undoes_state_change(m: InnerView, s: StatusView)
    ensures
        after_reset(after_state_change(m, s)).state == m.state,
        after_reset(after_state_change(m, s)).reset is None,
        after_reset(after_state_change(m, s)).id == m.id,
        after_reset(after_state_change(m, s)).unsaved == m.unsaved.push(s).push(m.state),
{
}

/// A user who takes a machine and gives it back leaves it in the state it was
/// in before, and is remembered as its previous user.
pub proof fn law_give_back_undoes_use(m: InnerView, user: UserIdView)
    requires
        may_use(m.state, user),
    ensures
        after_give_back(after_use(m, user), user).state == m.state,
        after_give_back(after_use(m, user), user).previous == Some(user),
{
}

/// A user who may not take the machine leaves it unchanged; only the user
/// who uses a machine can give it back.
pub proof fn law_refused_requests_change_nothing(m: InnerView, user: UserIdView)
    ensures
        !may_use(m.state, user) ==> after_use(m, user) == m,
        !used_by(m.state, user) ==> after_give_back(m, user) == m,
{
}

/// A use request is granted exactly when the machine is free, or reserved
/// for the user asking: the machine is then in use by that user, remembers
/// the state it left, keeps its previous user, and queues its new state for
/// storage. In every other state (in use, to be checked, blocked, disabled,
/// reserved for someone else) the request leaves the machine as it was.
pub proof fn law_use_granted_only_when_free_or_reserved_for_user(m: InnerView, user: UserIdView)
    ensures
        (m.state == StatusView::Free || m.state == StatusView::Reserved(user)) ==> {
            let n = after_use(m, user);
            &&& n.state == StatusView::InUse(Some(user))
            &&& n.reset == Some(m.state)
            &&& n.previous == m.previous
            &&& n.id == m.id
            &&& n.unsaved == m.unsaved.push(StatusView::InUse(Some(user)))
        },
        !(m.state == StatusView::Free || m.state == StatusView::Reserved(user)) ==> after_use(m, user)
            == m,
{
}

/// A give-back is granted exactly to the user the machine is in use by: the
/// machine returns to the state it was in before (free when there is none),
/// forgets that state, records the user as its previous user and queues the
/// state it returned to for storage. Anyone else's request changes nothing.
pub proof fn law_give_back_only_by_current_user(m: InnerView, user: UserIdView)
    ensures
        m.state == StatusView::InUse(Some(user)) ==> {
            let n = after_give_back(m, user);
            let back = match m.reset {
                Some(r) => r,
                None => StatusView::Free,
            };
            &&& n.state == back
            &&& n.reset is None
            &&& n.previous == Some(user)
            &&& n.id == m.id
            &&& n.unsaved == m.unsaved.push(back)
        },
        m.state != StatusView::InUse(Some(user)) ==> after_give_back(m, user) == m,
{
}

/// A state change installs the new state, remembers the old one to return
/// to, and queues the new one for storage. The previous user becomes the
/// user the machine was in use by or to be checked by; otherwise it stays.
pub proof fn law_state_change_records_old_state(m: InnerView, s: StatusView)
    ensures
        after_state_change(m, s).state == s,
        after_state_change(m, s).reset == Some(m.state),
        after_state_change(m, s).id == m.id,
        after_state_change(m, s).unsaved == m.unsaved.push(s),
        m.state matches StatusView::InUse(u) ==> after_state_change(m, s).previous == u,
        m.state matches StatusView::ToCheck(u) ==> after_state_change(m, s).previous == Some(u),
        !(m.state is InUse || m.state is ToCheck) ==> after_state_change(m, s).previous == m.previous,
        m.state matches StatusView::InUse(u) ==> after_reset(m).previous == u,
        m.state matches StatusView::ToCheck(u) ==> after_reset(m).previous == Some(u),
        !(m.state is InUse || m.state is ToCheck) ==> after_reset(m).previous == m.previous,
        m.reset matches Some(r) ==> after_reset(m).state == r && after_reset(m).unsaved == m.unsaved.push(r),
        m.reset is None ==> after_reset(m).state == StatusView::Free && after_reset(m).unsaved
            == m.unsaved.push(StatusView::Free),
        after_reset(m).reset is None,
        after_reset(m).id == m.id,
{
}

/// A user may take a machine in this status: it is free or reserved for them.
pub open spec fn may_use(s: StatusView, user: UserIdView) -> bool {
    match s {
        StatusView::Free => true,
        StatusView::Reserved(whom) => whom == user,
        _ => false,
    }
}

/// The machine states the API knows.
#[derive(Debug, Clone, Copy, PartialEq, Eq, Structural)]
pub enum ApiMachineState {
    Free,
    InUse,
    ToCheck,
    Blocked,
    Disabled,
    Reserved,
}

/// The state the API reports for a status.
pub open spec fn api_state_of(s: StatusView) -> ApiMachineState {
    match s {
        StatusView::Free => ApiMachineState::Free,
        StatusView::InUse(_) => ApiMachineState::InUse,
        StatusView::ToCheck(_) => ApiMachineState::ToCheck,
        StatusView::Blocked(_) => ApiMachineState::Blocked,
        StatusView::Disabled => ApiMachineState::Disabled,
        StatusView::Reserved(_) => ApiMachineState::Reserved,
    }
}

/// The status an API state stands for when set in the name of `uid`.
pub open spec fn state_from_api(s: ApiMachineState, uid: UserIdView) -> StatusView {
    match s {
        ApiMachineState::Free => StatusView::Free,
        ApiMachineState::Blocked => StatusView::Blocked(uid),
        ApiMachineState::Disabled => StatusView::Disabled,
        ApiMachineState::InUse => StatusView::InUse(Some(uid)),
        ApiMachineState::Reserved => StatusView::Reserved(uid),
        ApiMachineState::ToCheck => StatusView::ToCheck(uid),
    }
}

impl Status {
    /// The state the API reports for this status.
    pub fn api_state(&self) -> (a: ApiMachineState)
        ensures
            a == api_state_of(self@),
    {
        match self {
            Status::Free => ApiMachineState::Free,
            Status::InUse(_) => ApiMachineState::InUse,
            Status::ToCheck(_) => ApiMachineState::ToCheck,
            Status::Blocked(_) => ApiMachineState::Blocked,
            Status::Disabled => ApiMachineState::Disabled,
            Status::Reserved(_) => ApiMachineState::Reserved,
        }
    }

    /// The user the status currently concerns, if any: who uses, checks,
    /// blocks or reserved the machine.
    pub fn current_user(&self) -> (u: Option<&UserId>)
        ensures
            match u {
                Some(v) => current_user_of(self@) == Some(v@),
                None => current_user_of(self@) is None,
            },
    {
        match self {
            Status::Free => None,
            Status::InUse(user) => match user {
                Some(v) => Some(v),
                None => None,
            },
            Status::ToCheck(user) => Some(user),
            Status::Blocked(user) => Some(user),
            Status::Disabled => None,
            Status::Reserved(user) => Some(user),
        }
    }
}

/// The user a status concerns.
pub open spec fn current_user_of(s: StatusView) -> Option<UserIdView> {
    match s {
        StatusView::Free => None,
        StatusView::InUse(u) => u,
        StatusView::ToCheck(u) => Some(u),
        StatusView::Blocked(u) => Some(u),
        StatusView::Disabled => None,
        StatusView::Reserved(u) => Some(u),
    }
}

/// Setting a state through the API and reading it back gives the API state
/// that was set; the state set names the requesting user, except for a free
/// or disabled machine, which names nobody. The user a state concerns is the
/// one it names: who uses (if anyone), checks, blocks or reserved the
/// machine.
pub proof fn law_api_state_round_trip(a: ApiMachineState, uid: UserIdView, s: StatusView)
    ensures
        api_state_of(state_from_api(a, uid)) == a,
        (a == ApiMachineState::Free || a == ApiMachineState::Disabled) ==> current_user_of(state_from_api(a, uid))
            is None,
        !(a == ApiMachineState::Free || a == ApiMachineState::Disabled) ==> current_user_of(
            state_from_api(a, uid),
        ) == Some(uid),
        s matches StatusView::InUse(u) ==> current_user_of(s) == u,
        forall|u: UserIdView|
            s == StatusView::ToCheck(u) || s == StatusView::Blocked(u) || s == StatusView::Reserved(u)
                ==> current_user_of(s) == Some(u),
        s == StatusView::Free || s == StatusView::Disabled ==> current_user_of(s) is None,
{
}

impl MachineState {
    /// The state an API request stands for when made by `uid`.
    pub fn from_api(state: ApiMachineState, uid: UserId) -> (s: MachineState)
        ensures
            s@ == state_from_api(state, uid@),
    {
        match state {
            ApiMachineState::Free => MachineState::free(),
            ApiMachineState::Blocked => MachineState::blocked(uid),
            ApiMachineState::Disabled => MachineState::disabled(),
            ApiMachineState::InUse => MachineState::used(Some(uid)),
            ApiMachineState::Reserved => MachineState::reserved(uid),
            ApiMachineState::ToCheck => MachineState::check(uid),
        }
    }
}

/// A description of a machine.
#[derive(Debug)]
pub struct MachineDescription {
    /// The name of the machine, as presented to humans.
    pub name: String,
    /// An optional description of the machine.
    pub description: Option<String>,
    /// An optional link to further documentation.
    pub wiki: Option<String>,
    /// The permissions required.
    pub privs: PrivilegesBuf,
}

/// What the API offers a user of one machine.
#[derive(Debug, Clone, Copy, PartialEq, Eq, Structural)]
pub struct MachineCaps {
    /// The state shown.
    pub state: ApiMachineState,
    /// The user may take the machine.
    pub use_: bool,
    /// The user is the one using the machine and may give it back.
    pub inuse: bool,
    /// The user may manage the machine.
    pub manage: bool,
    /// The user may set any state.
    pub admin: bool,
}

/// The user of a status in use, if it is `user`.
pub open spec fn used_by(s: StatusView, user: UserIdView) -> bool {
    s == StatusView::InUse(Some(user))
}

/// A machine is shown to a user holding `rules` when one of them grants its
/// disclose permission.
pub fn machine_visible(privs: &PrivilegesBuf, rules: &Vec<PermRule>) -> (r: bool)
    ensures
        r == any_rule_grants(rules@, privs.disclose@),
{
    rules_grant(rules, privs.disclose.as_permission())
}

/// What the API offers `user`, who holds `rules`, of a machine with the
/// given privileges and status; `admin` is the permission that allows
/// setting any state.
pub fn machine_caps(
    privs: &PrivilegesBuf,
    rules: &Vec<PermRule>,
    status: &Status,
    user: &UserId,
    admin: &Permission,
) -> (c: MachineCaps)
    ensures
        c.state == api_state_of(status@),
        c.use_ == (any_rule_grants(rules@, privs.write@) && status@ == StatusView::Free),
        c.inuse == used_by(status@, user@),
        c.manage == any_rule_grants(rules@, privs.manage@),
        c.admin == any_rule_grants(rules@, admin@),
{
    let perms = Perms::get_for(privs, rules);
    let free = match status {
        Status::Free => true,
        _ => false,
    };
    let inuse = match status {
        Status::InUse(owner) => match owner {
            Some(o) => *o == *user,
            None => false,
        },
        _ => false,
    };
    MachineCaps {
        state: status.api_state(),
        use_: perms.write && free,
        inuse,
        manage: perms.manage,
        admin: rules_grant(rules, admin),
    }
}

/// The names of the machines, in order, that a user holding `rules` is
/// shown: those whose disclose permission one of the rules grants.
pub open spec fn visible_names(machines: Seq<(String, PrivilegesBuf)>, rules: Seq<PermRule>) -> Seq<Seq<char>>
    decreases machines.len(),
{
    if machines.len() == 0 {
        Seq::<Seq<char>>::empty()
    } else {
        let prev = visible_names(machines.drop_last(), rules);
        if any_rule_grants(rules, machines.last().1.disclose@) {
            prev.push(machines.last().0@)
        } else {
            prev
        }
    }
}

/// Whether one of `rules`, at whatever position, grants the disclose
/// permission of the machine `m`.
pub open spec fn disclosed_to(rules: Seq<PermRule>) -> spec_fn((String, PrivilegesBuf)) -> bool {
    |m: (String, PrivilegesBuf)| exists|i: int| 0 <= i < rules.len() && crate::permission::rule_grants(#[trigger] rules[i], m.1.disclose@)
}

/// The names of the machines, in order.
pub open spec fn machine_names(machines: Seq<(String, PrivilegesBuf)>) -> Seq<Seq<char>> {
    machines.map_values(|m: (String, PrivilegesBuf)| m.0@)
}

/// The machine list holds, in their order, the names of exactly those
/// machines whose disclose permission some rule of the user grants.
pub proof fn law_visible_machines_are_the_disclosed_ones(
    machines: Seq<(String, PrivilegesBuf)>,
    rules: Seq<PermRule>,
)
    ensures
        visible_names(machines, rules) == machine_names(machines.filter(disclosed_to(rules))),
    decreases machines.len(),
{
    if machines.len() > 0 {
        law_visible_machines_are_the_disclosed_ones(machines.drop_last(), rules);
        let prev = machines.drop_last().filter(disclosed_to(rules));
        assert(machines.drop_last().push(machines.last()) =~= machines);
        machines.drop_last().lemma_filter_push(machines.last(), disclosed_to(rules));
        assert(machine_names(prev.push(machines.last())) =~= machine_names(prev).push(machines.last().0@));
        assert(disclosed_to(rules)(machines.last()) == any_rule_grants(rules, machines.last().1.disclose@));
    } else {
        reveal(Seq::filter);
        assert(machine_names(machines.filter(disclosed_to(rules))) =~= Seq::<Seq<char>>::empty());
    }
}

/// The machine list of a user holding `rules`: the names of the machines,
/// given with their privileges, that the user is shown.
pub fn visible_machine_names(machines: &Vec<(String, PrivilegesBuf)>, rules: &Vec<PermRule>) -> (names: Vec<String>)
    ensures
        names@.map_values(|n: String| n@) == visible_names(machines@, rules@),
{
    let mut names: Vec<String> = Vec::new();
    let mut i: usize = 0;
    while i < machines.len()
        invariant
            i <= machines@.len(),
            names@.map_values(|n: String| n@) == visible_names(machines@.take(i as int), rules@),
        decreases machines@.len() - i,
    {
        assert(machines@.take(i as int + 1).drop_last() =~= machines@.take(i as int));
        let ghost before = names@;
        if machine_visible(&machines[i].1, rules) {
            names.push(machines[i].0.clone());
            assert(names@.map_values(|n: String| n@) =~= before.map_values(|n: String| n@).push(machines@[i as int].0@));
        }
        i = i + 1;
    }
    assert(machines@.take(i as int) =~= machines@);
    names
}

/// The position of the first machine called `name`, if there is one.
pub fn machine_by_name(machines: &Vec<(String, PrivilegesBuf)>, name: &str) -> (r: Option<usize>)
    ensures
        match r {
            Some(i) => i < machines@.len() && machines@[i as int].0@ == name@ && forall|j: int|
                0 <= j < i ==> (#[trigger] machines@[j]).0@ != name@,
            None => forall|j: int| 0 <= j < machines@.len() ==> (#[trigger] machines@[j]).0@ != name@,
        },
{
    let mut i: usize = 0;
    while i < machines.len()
        invariant
            i <= machines@.len(),
            forall|j: int| 0 <= j < i ==> (#[trigger] machines@[j]).0@ != name@,
        decreases machines@.len() - i,
    {
        if crate::text::str_eq(machines[i].0.as_str(), name) {
            return Some(i);
        }
        i = i + 1;
    }
    None
}

/// The name a machine URN names: the fourth part of
/// `urn:fabaccess:resource:NAME`, parts split at `:` with an empty last part
/// left out.
pub open spec fn urn_machine_name(urn: Seq<char>) -> Option<Seq<char>> {
    let parts = split_terminated(urn, ':');
    if parts.len() >= 4 && parts[0] == seq!['u', 'r', 'n'] && parts[1] == seq![
        'f',
        'a',
        'b',
        'a',
        'c',
        'c',
        'e',
        's',
        's',
    ] && parts[2] == seq!['r', 'e', 's', 'o', 'u', 'r', 'c', 'e'] {
        Some(parts[3])
    } else {
        None
    }
}

/// The name of the machine a URN of the form `urn:fabaccess:resource:NAME`
/// names.
pub fn parse_machine_urn(urn: &str) -> (r: Option<String>)
    ensures
        match r {
            Some(name) => urn_machine_name(urn@) == Some(name@),
            None => urn_machine_name(urn@) is None,
        },
{
    let parts = split_by(urn, ':');
    let ghost all = split_on(urn@, ':');
    let n = parts.len();
    proof {
        crate::text::lemma_split_on_nonempty(urn@, ':');
    }
    let last_empty = parts[n - 1].as_str().unicode_len() == 0;
    let count = if last_empty { n - 1 } else { n };
    assert(count == split_terminated(urn@, ':').len());
    assert(forall|i: int| 0 <= i < count ==> #[trigger] parts@[i]@ == split_terminated(urn@, ':')[i]);
    if count < 4 {
        return None;
    }
    let urn_lit = "urn";
    let fab_lit = "fabaccess";
    let res_lit = "resource";
    proof {
        reveal_strlit("urn");
        reveal_strlit("fabaccess");
        reveal_strlit("resource");
        assert(urn_lit@ =~= seq!['u', 'r', 'n']);
        assert(fab_lit@ =~= seq!['f', 'a', 'b', 'a', 'c', 'c', 'e', 's', 's']);
        assert(res_lit@ =~= seq!['r', 'e', 's', 'o', 'u', 'r', 'c', 'e']);
    }
    let ok = crate::text::str_eq(parts[0].as_str(), urn_lit) && crate::text::str_eq(parts[1].as_str(), fab_lit)
        && crate::text::str_eq(parts[2].as_str(), res_lit);
    if ok {
        Some(parts[3].clone())
    } else {
        None
    }
}

/// The URN of the machine with the given name.
pub fn machine_urn(name: &str) -> (s: String)
    ensures
        s@ == "urn:fabaccess:resource:"@ + name@,
{
    String::from_str("urn:fabaccess:resource:").concat(name)
}

/// The URN of a machine names that machine: reading the name back out of
/// `urn:fabaccess:resource:NAME` gives `NAME`, for every non-empty name
/// without a colon.
pub proof fn law_machine_urn_round_trip(name: Seq<char>)
    requires
        name.len() > 0,
        !name.contains(':'),
    ensures
        urn_machine_name("urn:fabaccess:resource:"@ + name) == Some(name),
{
    reveal_strlit("urn:fabaccess:resource:");
    let u = seq!['u', 'r', 'n'];
    let f = seq!['f', 'a', 'b', 'a', 'c', 'c', 'e', 's', 's'];
    let r = seq!['r', 'e', 's', 'o', 'u', 'r', 'c', 'e'];
    let urn = "urn:fabaccess:resource:"@ + name;
    let ab = u + seq![':'] + f;
    let abc = ab + seq![':'] + r;
    assert(urn =~= abc + seq![':'] + name);
    crate::text::law_split_at_separator(abc, ':', name);
    crate::text::law_split_at_separator(ab, ':', r);
    crate::text::law_split_at_separator(u, ':', f);
    assert(!u.contains(':')) by {
        assert(forall|i: int| 0 <= i < u.len() ==> u[i] != ':');
    }
    assert(!f.contains(':')) by {
        assert(forall|i: int| 0 <= i < f.len() ==> f[i] != ':');
    }
    assert(!r.contains(':')) by {
        assert(forall|i: int| 0 <= i < r.len() ==> r[i] != ':');
    }
    crate::text::law_split_at_separator(u, ':', Seq::<char>::empty());
    crate::text::law_split_at_separator(f, ':', Seq::<char>::empty());
    crate::text::law_split_at_separator(r, ':', Seq::<char>::empty());
    crate::text::law_split_at_separator(name, ':', Seq::<char>::empty());
    let parts = split_on(urn, ':');
    assert(parts =~= seq![u, f, r, name]);
    assert(split_terminated(urn, ':') == parts);
}

/// What the extended machine information shows a manager: the user name of
/// the previous user (to whom the machine may be transferred back) and of
/// the user the current state concerns.
#[derive(Debug)]
pub struct MachineInfoExtended {
    pub transfer_user: Option<String>,
    pub current_user: Option<String>,
}

pub open spec fn uid_of(u: Option<UserIdView>) -> Option<Seq<char>> {
    match u {
        Some(v) => Some(v.uid),
        None => None,
    }
}

/// The extended information on a machine with previous user `previous` and
/// status `status`; only managers (`manage`) get it.
pub fn machine_info_extended(manage: bool, previous: &Option<UserId>, status: &Status) -> (r: Option<
    MachineInfoExtended,
>)
    ensures
        !manage ==> r is None,
        manage ==> (r matches Some(i) && crate::user::opt_view(i.transfer_user) == uid_of(opt_user_view(*previous))
            && crate::user::opt_view(i.current_user) == uid_of(current_user_of(status@))),
{
    if !manage {
        return None;
    }
    let transfer_user = match previous {
        Some(u) => Some(u.uid.clone()),
        None => None,
    };
    let current_user = match status.current_user() {
        Some(u) => Some(u.uid.clone()),
        None => None,
    };
    Some(MachineInfoExtended { transfer_user, current_user })
}

/// The message an actor is given about a machine's new state.
#[derive(Debug)]
pub struct StateChangeObj {
    pub name: String,
    pub state: MachineState,
}

impl StateChangeObj {
    /// The message for the machine `name` entering `state`.
    pub fn new(name: String, state: MachineState) -> (o: StateChangeObj)
        ensures
            o.name@ == name@,
            o.state@ == state@,
    {
        StateChangeObj { name, state }
    }
}

} // verus!

//! Which actor and initiator modules exist, and the dummy initiator that
//! alternately takes and frees its machine.

use vstd::prelude::*;
use crate::machine::{MachineState, StatusView};
use crate::user::{UserId, UserIdView, opt_user_view, clone_opt_user};

verus! {

/// The actor modules a configuration can name.
#[derive(Clone, Copy, Debug, PartialEq, Eq, Structural)]
pub enum ActorModule {
    Dummy,
    Process,
    Shelly,
}

/// The initiator modules a configuration can name.
#[derive(Clone, Copy, Debug, PartialEq, Eq, Structural)]
pub enum InitiatorModule {
    Dummy,
}

/// The actor module called `name`, if there is one.
pub open spec fn actor_module_of(name: Seq<char>) -> Option<ActorModule> {
    if name == "Dummy"@ {
        Some(ActorModule::Dummy)
    } else if name == "Process"@ {
        Some(ActorModule::Process)
    } else if name == "Shelly"@ {
        Some(ActorModule::Shelly)
    } else {
        None
    }
}

/// The initiator module called `name`, if there is one.
pub open spec fn initiator_module_of(name: Seq<char>) -> Option<InitiatorModule> {
    if name == "Dummy"@ {
        Some(InitiatorModule::Dummy)
    } else {
        None
    }
}

/// Looks up the actor module a configuration names.
pub fn actor_module(name: &str) -> (r: Option<ActorModule>)
    ensures
        r == actor_module_of(name@),
{
    if crate::text::str_eq(name, "Dummy") {
        Some(ActorModule::Dummy)
    } else if crate::text::str_eq(name, "Process") {
        Some(ActorModule::Process)
    } else if crate::text::str_eq(name, "Shelly") {
        Some(ActorModule::Shelly)
    } else {
        None
    }
}

/// Looks up the initiator module a configuration names.
pub fn initiator_module(name: &str) -> (r: Option<InitiatorModule>)
    ensures
        r == initiator_module_of(name@),
{
    if crate::text::str_eq(name, "Dummy") {
        Some(InitiatorModule::Dummy)
    } else {
        None
    }
}

/// An initiator that, each time it runs, frees its machine if it used it
/// the time before and uses it otherwise, in the name of its user.
#[derive(Debug)]
pub struct DummyInitiator {
    step: bool,
    userid: Option<UserId>,
}

/// The state change a dummy initiator reports in phase `step` for `user`.
pub open spec fn dummy_change(step: bool, user: Option<UserIdView>) -> StatusView {
    if step {
        StatusView::Free
    } else {
        StatusView::InUse(user)
    }
}

impl DummyInitiator {
    pub closed spec fn phase(&self) -> bool {
        self.step
    }

    pub closed spec fn user(&self) -> Option<UserIdView> {
        opt_user_view(self.userid)
    }

    /// A dummy initiator for the user given by the module parameters `uid`,
    /// `subuid` and `realm`; without `uid` it acts for nobody.
    pub fn new(uid: Option<String>, subuid: Option<String>, realm: Option<String>) -> (d: DummyInitiator)
        ensures
            !d.phase(),
            d.user() == match uid {
                Some(u) => Some(UserId { uid: u, subuid, realm }@),
                None => None,
            },
    {
        let userid = match uid {
            Some(u) => Some(UserId::new(u, subuid, realm)),
            None => None,
        };
        DummyInitiator { step: false, userid }
    }

    /// The next state change: the user, and the state it asks for.
    pub fn run_sensor(&mut self) -> (r: (Option<UserId>, MachineState))
        ensures
            final(self).phase() == !old(self).phase(),
            final(self).user() == old(self).user(),
            opt_user_view(r.0) == old(self).user(),
            r.1@ == dummy_change(old(self).phase(), old(self).user()),
    {
        let step = self.step;
        self.step = !step;
        let user = clone_opt_user(&self.userid);
        if step {
            (user, MachineState::free())
        } else {
            (user, MachineState::used(clone_opt_user(&self.userid)))
        }
    }
}

/// Two runs of a dummy initiator in a row use and free its machine, in
/// some order, and leave it in the phase it started in.
pub proof fn law_dummy_initiator_alternates(step: bool, user: Option<UserIdView>)
    ensures
        dummy_change(step, user) != dummy_change(!step, user),
        dummy_change(step, user) == StatusView::Free || dummy_change(!step, user) == StatusView::Free,
{
}

/// A new dummy initiator first takes its machine, in the name of its user
/// (or of nobody), and then frees it.
pub proof fn law_dummy_initiator_uses_first(user: Option<UserIdView>)
    ensures
        dummy_change(false, user) == StatusView::InUse(user),
        dummy_change(true, user) == StatusView::Free,
{
}

/// Each module name names one module: the actor modules `Dummy`, `Process`
/// and `Shelly` are told apart, and any other name names no actor; the only
/// initiator is `Dummy`.
pub proof fn law_module_names(name: Seq<char>)
    ensures
        actor_module_of(name) == Some(ActorModule::Dummy) ==> name == "Dummy"@,
        actor_module_of(name) == Some(ActorModule::Process) ==> name == "Process"@,
        actor_module_of(name) == Some(ActorModule::Shelly) ==> name == "Shelly"@,
        actor_module_of("Dummy"@) == Some(ActorModule::Dummy),
        actor_module_of("Process"@) == Some(ActorModule::Process),
        actor_module_of("Shelly"@) == Some(ActorModule::Shelly),
        initiator_module_of(name) is Some ==> name == "Dummy"@,
        initiator_module_of("Dummy"@) == Some(InitiatorModule::Dummy),
{
    reveal_strlit("Dummy");
    reveal_strlit("Process");
    reveal_strlit("Shelly");
    assert("Process"@.len() != "Dummy"@.len());
    assert("Shelly"@.len() != "Dummy"@.len());
    assert("Shelly"@.len() != "Process"@.len());
}

} // verus!

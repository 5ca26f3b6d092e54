//! The Shelly actor: a relay switched over MQTT, on while its machine is in
//! use. This module decides the topic and the message; publishing them is
//! left to the caller.

use vstd::prelude::*;
use crate::machine::{MachineState, Status, StatusView};

verus! {

/// The command topic of the relay of the Shelly `id`.
pub open spec fn relay_topic_of(id: Seq<char>) -> Seq<char> {
    "shellies/"@ + id + "/relay/0/command"@
}

/// The command topic for the actor `name`: the `topic` parameter names the
/// Shelly where it is given, else the actor's name does.
pub fn relay_topic(name: &str, topic: Option<&str>) -> (t: String)
    ensures
        t@ == relay_topic_of(
            match topic {
                Some(id) => id@,
                None => name@,
            },
        ),
{
    let id = match topic {
        Some(id) => id,
        None => name,
    };
    let mut t = String::from_str("shellies/");
    t.append(id);
    t.append("/relay/0/command");
    t
}

/// The message that switches the relay for a machine state: on while the
/// machine is in use, off otherwise.
pub open spec fn relay_payload_of(s: StatusView) -> Seq<char> {
    match s {
        StatusView::InUse(_) => "on"@,
        _ => "off"@,
    }
}

/// The relay is switched on for every state in which the machine is in use,
/// whoever (or nobody) is named as its user, and off for every other state.
pub proof fn law_relay_on_exactly_while_in_use(s: StatusView)
    ensures
        s is InUse ==> relay_payload_of(s) == "on"@,
        !(s is InUse) ==> relay_payload_of(s) == "off"@,
        forall|u: Option<crate::user::UserIdView>| #[trigger] relay_payload_of(StatusView::InUse(u)) == "on"@,
{
}

/// Different Shellies get different command topics, each of which starts
/// with `shellies/` and ends with `/relay/0/command`; a `topic` parameter
/// picks the Shelly whatever the actor is called, and without one the
/// actor's name does.
pub proof fn law_topics_name_their_shelly(a: Seq<char>, b: Seq<char>, name: Seq<char>, other: Seq<char>, t: Seq<char>)
    ensures
        relay_topic_of(a) == relay_topic_of(b) ==> a == b,
        relay_topic_of(a).subrange(0, 9) == "shellies/"@,
        relay_topic_of(a).subrange(9, 9 + a.len() as int) == a,
        shelly_id(name, Some(t)) == shelly_id(other, Some(t)),
        shelly_id(name, Some(t)) == t,
        shelly_id(name, None) == name,
{
    reveal_strlit("shellies/");
    reveal_strlit("/relay/0/command");
    let ta = relay_topic_of(a);
    assert(ta.subrange(0, 9) =~= "shellies/"@);
    assert(ta.subrange(9, 9 + a.len() as int) =~= a);
    if relay_topic_of(a) == relay_topic_of(b) {
        let tb = relay_topic_of(b);
        assert(ta.len() == 9 + a.len() + 16);
        assert(tb.len() == 9 + b.len() + 16);
        assert(a.len() == b.len());
        assert(tb.subrange(9, 9 + b.len() as int) =~= b);
    }
}

pub fn relay_payload(state: &MachineState) -> (p: &'static str)
    ensures
        p@ == relay_payload_of(state@),
{
    match &state.state {
        Status::InUse(_) => "on",
        _ => "off",
    }
}

/// A Shelly actor: the relay it switches is named by the `topic` parameter
/// it was configured with, or else by its own name.
pub struct Shelly {
    name: String,
    topic_param: Option<String>,
    topic: String,
}

/// The Shelly that the actor `name`, configured with `topic_param`, switches.
pub open spec fn shelly_id(name: Seq<char>, topic_param: Option<Seq<char>>) -> Seq<char> {
    match topic_param {
        Some(id) => id,
        None => name,
    }
}

pub open spec fn opt_string_view(s: Option<String>) -> Option<Seq<char>> {
    match s {
        Some(t) => Some(t@),
        None => None,
    }
}

impl Shelly {
    /// The actor publishes to the command topic of the Shelly it switches.
    pub closed spec fn wf(&self) -> bool {
        self.topic@ == relay_topic_of(shelly_id(self.name@, opt_string_view(self.topic_param)))
    }

    pub closed spec fn spec_name(&self) -> Seq<char> {
        self.name@
    }

    pub closed spec fn spec_topic_param(&self) -> Option<Seq<char>> {
        opt_string_view(self.topic_param)
    }

    pub closed spec fn spec_topic(&self) -> Seq<char> {
        self.topic@
    }

    /// The actor `name`, with the `topic` parameter of its configuration
    /// where one is given.
    pub fn new(name: String, topic: Option<String>) -> (s: Shelly)
        ensures
            s.wf(),
            s.spec_name() == name@,
            s.spec_topic_param() == opt_string_view(topic),
            s.spec_topic() == relay_topic_of(shelly_id(name@, opt_string_view(topic))),
    {
        let t = match &topic {
            Some(id) => relay_topic(name.as_str(), Some(id.as_str())),
            None => relay_topic(name.as_str(), None),
        };
        Shelly { name, topic_param: topic, topic: t }
    }

    /// Renames the actor, which changes the Shelly it switches where no
    /// `topic` parameter names one.
    pub fn set_name(&mut self, new_name: String)
        requires
            old(self).wf(),
        ensures
            final(self).wf(),
            final(self).spec_name() == new_name@,
            final(self).spec_topic_param() == old(self).spec_topic_param(),
            final(self).spec_topic() == relay_topic_of(
                shelly_id(new_name@, old(self).spec_topic_param()),
            ),
    {
        let t = match &self.topic_param {
            Some(id) => relay_topic(new_name.as_str(), Some(id.as_str())),
            None => relay_topic(new_name.as_str(), None),
        };
        self.name = new_name;
        self.topic = t;
    }

    pub fn name(&self) -> (n: &str)
        ensures
            n@ == self.spec_name(),
    {
        self.name.as_str()
    }

    pub fn topic(&self) -> (t: &str)
        ensures
            t@ == self.spec_topic(),
    {
        self.topic.as_str()
    }

    /// What the actor publishes when its machine enters `state`: the
    /// message for the state, to the actor's command topic.
    pub fn apply(&self, state: &MachineState) -> (msg: (&str, &'static str))
        ensures
            msg.0@ == self.spec_topic(),
            msg.1@ == relay_payload_of(state@),
    {
        (self.topic.as_str(), relay_payload(state))
    }
}

} // verus!

use bffh::machine::Status;
use bffh::modules::{actor_module, initiator_module, ActorModule, DummyInitiator, InitiatorModule};
use bffh::machine::MachineState;
use bffh::password::{check_password, encode_password, new_password_hash, PassDB};
use bffh::process::{split_whitespace, Process};
use bffh::registry::{ImplEntry, ImplId, ImplRegistry, RegisteredImpl, TypeOid};
use bffh::shelly::{relay_payload, relay_topic, Shelly};
use bffh::user::UserId;

#[test]
fn password_check_against_known_hash() {
    let enc = "$argon2i$v=19$m=4096,t=3,p=1$c29tZXNhbHQ$iWh06vD8Fy27wf9npn6FXWiCX4K6pW6Ue1Bnzz07Z8A";
    assert_eq!(check_password(Some(enc), b"password"), Some(true));
    assert_eq!(check_password(Some(enc), b"wrong"), Some(false));
    assert_eq!(check_password(Some("not a hash"), b"password"), None);
    assert_eq!(check_password(None, b"password"), None);
}

#[test]
fn stored_password_is_accepted() {
    let h = encode_password(b"secret", b"somesalt");
    assert!(h.starts_with("$argon2id$"));
    assert_eq!(check_password(Some(&h), b"secret"), Some(true));
    assert_eq!(check_password(Some(&h), b"Secret"), Some(false));
    let h2 = new_password_hash(b"secret");
    assert_eq!(check_password(Some(&h2), b"secret"), Some(true));
}

#[test]
fn whitespace_splitting() {
    assert_eq!(split_whitespace("  a  b\tc\n"), vec!["a", "b", "c"]);
    assert!(split_whitespace("   ").is_empty());
    assert_eq!(split_whitespace("one\u{3000}two"), vec!["one", "two"]);
}

#[test]
fn process_arguments() {
    assert!(Process::new("p".to_string(), None, Some("x")).is_none());
    let p = Process::new("drill".to_string(), Some("/bin/act"), Some("-v  --x")).unwrap();
    assert_eq!(p.cmd(), "/bin/act");
    assert_eq!(p.command_args(&MachineState::free()), vec!["-v", "--x", "drill", "free"]);
    let alice = UserId::new("alice".to_string(), None, None);
    assert_eq!(
        p.command_args(&MachineState::used(Some(alice.clone()))),
        vec!["-v", "--x", "drill", "inuse", "alice"]
    );
    assert_eq!(
        p.command_args(&MachineState::used(None)),
        vec!["-v", "--x", "drill", "inuse"]
    );
    assert_eq!(
        p.command_args(&MachineState::reserved(alice)),
        vec!["-v", "--x", "drill", "reserved", "alice"]
    );
    let q = Process::new("lamp".to_string(), Some("act"), None).unwrap();
    assert_eq!(q.command_args(&MachineState::disabled()), vec!["lamp", "disabled"]);
}

#[test]
fn shelly_topics_and_payloads() {
    assert_eq!(relay_topic("drill", None), "shellies/drill/relay/0/command");
    assert_eq!(relay_topic("drill", Some("abc")), "shellies/abc/relay/0/command");
    assert_eq!(relay_payload(&MachineState::used(None)), "on");
    assert_eq!(relay_payload(&MachineState::free()), "off");
}

struct Marker;
impl TypeOid for Marker {
    fn get_type_oid() -> Vec<u8> {
        vec![1, 3, 6, 1]
    }
}
impl RegisteredImpl for Marker {
    fn vtable() -> usize {
        42
    }
}

#[test]
fn registry_finds_registered_implementations() {
    let mut reg = ImplRegistry::new();
    assert!(reg.get(&[1, 3, 6, 1]).is_none());
    let entry = ImplEntry::new::<Marker>();
    reg.add_entry(&entry);
    assert_eq!(reg.get(&[1, 3, 6, 1]).map(|d| d.vtable), Some(42));
    assert!(reg.get(&[1, 3, 6]).is_none());
    assert_eq!(ImplId::new::<Marker>().type_oid(), &[1, 3, 6, 1]);
    assert_eq!(ImplId::from_type_oid(&[9]).type_oid(), &[9]);
}

#[test]
fn module_names() {
    assert_eq!(actor_module("Shelly"), Some(ActorModule::Shelly));
    assert_eq!(actor_module("Process"), Some(ActorModule::Process));
    assert_eq!(actor_module("Dummy"), Some(ActorModule::Dummy));
    assert_eq!(actor_module("shelly"), None);
    assert_eq!(initiator_module("Dummy"), Some(InitiatorModule::Dummy));
    assert_eq!(initiator_module("TCP-Listen"), None);
}

#[test]
fn dummy_initiator_alternates() {
    let mut d = DummyInitiator::new(Some("alice".to_string()), None, None);
    let (u, s) = d.run_sensor();
    assert_eq!(u, Some(UserId::new("alice".to_string(), None, None)));
    assert!(matches!(&s.state, Status::InUse(Some(x)) if x.uid == "alice"));
    let (_, s) = d.run_sensor();
    assert!(matches!(s.state, Status::Free));
    let (_, s) = d.run_sensor();
    assert!(matches!(s.state, Status::InUse(_)));
    let mut nobody = DummyInitiator::new(None, Some("x".to_string()), None);
    assert_eq!(nobody.run_sensor().0, None);
}

#[test]
fn password_database_round_trip() {
    let mut db = PassDB::new();
    assert_eq!(db.check_pw("alice", b"secret"), None);
    db.set_password("alice", b"secret");
    assert_eq!(db.check_pw("alice", b"secret"), Some(true));
    assert_eq!(db.check_pw("alice", b"other"), Some(false));
    assert_eq!(db.check_pw("bob", b"secret"), None);
    db.set_password("bob", b"hunter2");
    db.set_password("alice", b"changed");
    assert_eq!(db.check_pw("alice", b"secret"), Some(false));
    assert_eq!(db.check_pw("alice", b"changed"), Some(true));
    assert_eq!(db.check_pw("bob", b"hunter2"), Some(true));
    let all = db.get_all();
    assert_eq!(all.len(), 2);
    for (uid, hash) in &all {
        assert!(uid == "alice" || uid == "bob");
        assert!(hash.starts_with("$argon2"));
        assert_ne!(hash, "changed");
        assert_ne!(hash, "hunter2");
    }
}

#[test]
fn shelly_actor_follows_its_name() {
    let mut s = Shelly::new("drill".to_string(), None);
    assert_eq!(s.topic(), "shellies/drill/relay/0/command");
    s.set_name("saw".to_string());
    assert_eq!(s.name(), "saw");
    assert_eq!(s.topic(), "shellies/saw/relay/0/command");
    assert_eq!(s.apply(&MachineState::used(None)), ("shellies/saw/relay/0/command", "on"));
    assert_eq!(s.apply(&MachineState::free()), ("shellies/saw/relay/0/command", "off"));
    let mut t = Shelly::new("drill".to_string(), Some("abc".to_string()));
    t.set_name("saw".to_string());
    assert_eq!(t.name(), "saw");
    assert_eq!(t.topic(), "shellies/abc/relay/0/command");
}

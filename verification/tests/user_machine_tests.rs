use bffh::user::may_manage_users;
use bffh::machine::{
    machine_by_name, visible_machine_names, machine_info_extended, machine_caps, machine_urn, machine_visible, parse_machine_urn, ApiMachineState, Inner,
    MachineState, Status, StateChangeObj,
};
use bffh::permission::{Permission, PermissionBuf, PermRule, PrivilegesBuf};
use bffh::role::{Role, RoleDB, RoleIdentifier};
use bffh::user::{default_priority, is_zero, User, UserData, UserId};

#[test]
fn format_uid_test() {
    let uid = "testuser".to_string();
    let suid = "testsuid".to_string();
    let realm = "testloc".to_string();

    assert_eq!("testuser", UserId::new(uid.clone(), None, None).to_string());
    assert_eq!(
        "testuser+testsuid",
        UserId::new(uid.clone(), Some(suid.clone()), None).to_string()
    );
    assert_eq!(
        "testuser+testsuid",
        UserId::new(uid.clone(), Some(suid.clone()), None).to_string()
    );
    assert_eq!(
        "testuser+testsuid@testloc",
        UserId::new(uid, Some(suid), Some(realm)).to_string()
    );
}

#[test]
fn user_data_defaults() {
    let d = UserData::new(vec![], 0);
    assert!(d.kv().is_empty());
    assert!(is_zero(&default_priority()));
    assert!(!is_zero(&3));
    let u = User::new(UserId::new("a".to_string(), None, None), UserData::new(vec![], 2));
    assert_eq!(u.data.priority, 2);
}

#[test]
fn user_roles_decide_permissions() {
    let admin = RoleIdentifier::local_from_str("lmdb".to_string(), "admin".to_string());
    let mut db = RoleDB::new();
    db.insert(
        admin.clone(),
        Role::new(
            "Admin".to_string(),
            vec![],
            vec![PermRule::try_from("bffh.*".to_string()).unwrap()],
        ),
    );
    let data = UserData::new(vec![admin], 0);
    assert!(db.check(&data, &Permission::new("bffh.users.manage")));
    assert!(!db.check(&UserData::new(vec![], 0), &Permission::new("bffh.users.manage")));
}

fn alice() -> UserId {
    UserId::new("alice".to_string(), None, None)
}

fn bob() -> UserId {
    UserId::new("bob".to_string(), None, None)
}

#[test]
fn use_then_give_back_returns_to_free() {
    let mut m = Inner::new("m1".to_string(), MachineState::free());
    m.use_(alice());
    assert!(matches!(&m.read_state().state, Status::InUse(Some(u)) if *u == alice()));
    m.give_back(alice());
    assert!(matches!(m.read_state().state, Status::Free));
    assert_eq!(m.get_previous(), &Some(alice()));
}

#[test]
fn refused_requests_change_nothing() {
    let mut m = Inner::new("m1".to_string(), MachineState::free());
    m.use_(alice());
    m.use_(bob());
    assert!(matches!(&m.read_state().state, Status::InUse(Some(u)) if *u == alice()));
    m.give_back(bob());
    assert!(matches!(&m.read_state().state, Status::InUse(Some(u)) if *u == alice()));
}

#[test]
fn reserved_machine_only_for_its_user() {
    let mut m = Inner::new("m1".to_string(), MachineState::reserved(alice()));
    m.use_(bob());
    assert!(matches!(&m.read_state().state, Status::Reserved(u) if *u == alice()));
    m.use_(alice());
    assert!(matches!(&m.read_state().state, Status::InUse(Some(u)) if *u == alice()));
}

#[test]
fn reset_undoes_a_state_change() {
    let mut m = Inner::new("m1".to_string(), MachineState::blocked(bob()));
    m.do_state_change(MachineState::disabled());
    m.reset_state();
    assert!(matches!(&m.read_state().state, Status::Blocked(u) if *u == bob()));
    m.reset_state();
    assert!(matches!(m.read_state().state, Status::Free));
}

#[test]
fn forced_states() {
    let mut m = Inner::new("m1".to_string(), MachineState::new());
    m.force_use();
    assert!(matches!(m.read_state().state, Status::InUse(None)));
    m.block(bob());
    assert!(matches!(&m.read_state().state, Status::Blocked(u) if *u == bob()));
    m.disabled();
    assert!(matches!(m.read_state().state, Status::Disabled));
    m.force_free();
    assert!(matches!(m.read_state().state, Status::Free));
    m.force_set_state(ApiMachineState::ToCheck, alice());
    assert!(matches!(&m.read_state().state, Status::ToCheck(u) if *u == alice()));
}

#[test]
fn api_states_and_current_users() {
    assert_eq!(MachineState::check(alice()).state.api_state(), ApiMachineState::ToCheck);
    assert_eq!(MachineState::used(None).state.api_state(), ApiMachineState::InUse);
    assert_eq!(MachineState::from(Status::Disabled).state.api_state(), ApiMachineState::Disabled);
    assert_eq!(MachineState::check(alice()).state.current_user(), Some(&alice()));
    assert_eq!(MachineState::free().state.current_user(), None);
    let s = MachineState::from_api(ApiMachineState::Reserved, bob());
    assert!(matches!(&s.state, Status::Reserved(u) if *u == bob()));
}

fn privs() -> PrivilegesBuf {
    PrivilegesBuf {
        disclose: PermissionBuf::from_string("lab.m.disclose".to_string()),
        read: PermissionBuf::from_string("lab.m.read".to_string()),
        write: PermissionBuf::from_string("lab.m.write".to_string()),
        manage: PermissionBuf::from_string("lab.m.manage".to_string()),
    }
}

#[test]
fn machine_capabilities_follow_rules_and_state() {
    let rules = vec![PermRule::try_from("lab.m.*".to_string()).unwrap()];
    assert!(machine_visible(&privs(), &rules));
    assert!(!machine_visible(&privs(), &vec![]));
    let admin = Permission::new("bffh.admin");
    let caps = machine_caps(&privs(), &rules, &Status::Free, &alice(), &admin);
    assert_eq!(caps.state, ApiMachineState::Free);
    assert!(caps.use_ && !caps.inuse && caps.manage && !caps.admin);
    let caps = machine_caps(&privs(), &rules, &Status::InUse(Some(alice())), &alice(), &admin);
    assert!(!caps.use_ && caps.inuse);
    let caps = machine_caps(&privs(), &rules, &Status::InUse(Some(alice())), &bob(), &admin);
    assert!(!caps.inuse);
}

#[test]
fn machine_urns() {
    assert_eq!(machine_urn("drill"), "urn:fabaccess:resource:drill");
    assert_eq!(parse_machine_urn("urn:fabaccess:resource:drill"), Some("drill".to_string()));
    assert_eq!(parse_machine_urn("urn:fabaccess:resource:drill:"), Some("drill".to_string()));
    assert_eq!(parse_machine_urn("urn:fabaccess:lab:drill"), None);
    assert_eq!(parse_machine_urn("urn:fabaccess:resource"), None);
}

#[test]
fn state_change_message() {
    let o = StateChangeObj::new("drill".to_string(), MachineState::free());
    assert_eq!(o.name, "drill");
    assert!(matches!(o.state.state, Status::Free));
}

#[test]
fn extended_info_only_for_managers() {
    assert!(machine_info_extended(false, &Some(alice()), &Status::Free).is_none());
    let i = machine_info_extended(true, &Some(alice()), &Status::Blocked(bob())).unwrap();
    assert_eq!(i.transfer_user, Some("alice".to_string()));
    assert_eq!(i.current_user, Some("bob".to_string()));
    let i = machine_info_extended(true, &None, &Status::InUse(None)).unwrap();
    assert_eq!(i.transfer_user, None);
    assert_eq!(i.current_user, None);
}

#[test]
fn managing_users_needs_the_manage_permission() {
    assert!(may_manage_users(&vec![PermRule::try_from("bffh.users.*".to_string()).unwrap()]));
    assert!(may_manage_users(&vec![PermRule::try_from("bffh.+".to_string()).unwrap()]));
    assert!(!may_manage_users(&vec![PermRule::try_from("bffh.users".to_string()).unwrap()]));
    assert!(!may_manage_users(&vec![]));
}

#[test]
fn machine_list_and_lookup() {
    let rules = vec![PermRule::try_from("lab.m.disclose".to_string()).unwrap()];
    let other = PrivilegesBuf {
        disclose: PermissionBuf::from_string("lab.n.disclose".to_string()),
        read: PermissionBuf::from_string("lab.n.read".to_string()),
        write: PermissionBuf::from_string("lab.n.write".to_string()),
        manage: PermissionBuf::from_string("lab.n.manage".to_string()),
    };
    let machines = vec![
        ("drill".to_string(), privs()),
        ("lathe".to_string(), other),
        ("saw".to_string(), privs()),
    ];
    assert_eq!(visible_machine_names(&machines, &rules), vec!["drill", "saw"]);
    assert_eq!(machine_by_name(&machines, "lathe"), Some(1));
    assert_eq!(machine_by_name(&machines, "mill"), None);
}

#[test]
fn role_file_entries_become_local_roles() {
    let db = RoleDB::from_role_file(vec![
        ("testparent".to_string(), Role::new("Old".to_string(), vec![], vec![])),
        (
            "testparent".to_string(),
            Role::new(
                "Testparent".to_string(),
                vec![],
                vec![PermRule::try_from("lab.some.read".to_string()).unwrap()],
            ),
        ),
    ]);
    let id = RoleIdentifier::local_from_str("lmdb".to_string(), "testparent".to_string());
    assert_eq!(db.get_role(&id).unwrap().name(), "Testparent");
    assert!(db.check_roles(&vec![id], &Permission::new("lab.some.read")));
    assert!(db.get_role(&RoleIdentifier::local_from_str("other".to_string(), "testparent".to_string())).is_none());
}

#[test]
fn state_changes_are_queued_for_storage() {
    let mut m = Inner::new("m1".to_string(), MachineState::free());
    assert!(m.take_unsaved().is_empty());
    m.use_(alice());
    m.use_(bob());
    m.give_back(alice());
    let saved = m.take_unsaved();
    assert_eq!(saved.len(), 2);
    assert!(matches!(&saved[0].state, Status::InUse(Some(u)) if *u == alice()));
    assert!(matches!(saved[1].state, Status::Free));
    assert!(m.take_unsaved().is_empty());
    m.do_state_change(MachineState::disabled());
    m.reset_state();
    let saved = m.take_unsaved();
    assert_eq!(saved.len(), 2);
    assert!(matches!(saved[0].state, Status::Disabled));
    assert!(matches!(saved[1].state, Status::Free));
}

#[test]
fn example_roles_grant_their_permissions() {
    let rule = |s: &str| PermRule::try_from(s.to_string()).unwrap();
    let db = RoleDB::from_role_file(vec![
        ("testrole".to_string(), Role::new("Testrole".to_string(), vec![], vec![rule("lab.test.*")])),
        (
            "somerole".to_string(),
            Role::new(
                "Somerole".to_string(),
                vec![RoleIdentifier::local_from_str("lmdb".to_string(), "testparent".to_string())],
                vec![rule("lab.some.admin")],
            ),
        ),
        (
            "testparent".to_string(),
            Role::new(
                "Testparent".to_string(),
                vec![],
                vec![rule("lab.some.write"), rule("lab.some.read"), rule("lab.some.disclose")],
            ),
        ),
    ]);
    let id = |s: &str| RoleIdentifier::local_from_str("lmdb".to_string(), s.to_string());
    assert!(db.check_roles(&vec![id("testrole")], &Permission::new("lab.test.write")));
    assert!(!db.check_roles(&vec![id("testrole")], &Permission::new("lab.some.read")));
    assert!(db.check_roles(&vec![id("somerole")], &Permission::new("lab.some.admin")));
    assert!(db.check_roles(&vec![id("somerole")], &Permission::new("lab.some.read")));
    assert!(!db.check_roles(&vec![id("testparent")], &Permission::new("lab.some.admin")));
}

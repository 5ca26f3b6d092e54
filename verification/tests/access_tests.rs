use bffh::permission::PermIdentifier;
use bffh::permission::{relate_paths, PathRelation};
use bffh::text::{split_by, str_eq};
use bffh::permission::{Permission, PermissionBuf, PermRule, PrivilegesBuf, Perms, rules_grant};
use bffh::role::{Role, RoleDB, RoleFromStrError, RoleIdentifier};

#[test]
fn permission_ord_test() {
    assert!(PermissionBuf::from_string("bffh.perm".to_string())
        > PermissionBuf::from_string("bffh.perm.sub".to_string()));
}

#[test]
fn permission_simple_check_test() {
    let perm = PermissionBuf::from_string("test.perm".to_string());
    let rule = PermRule::Base(perm.clone());

    assert!(rule.match_perm(perm.as_permission()));
}

#[test]
#[should_panic]
fn permission_children_checks_only_children() {
    let perm = PermissionBuf::from_string("test.perm".to_string());
    let rule = PermRule::Children(perm.clone());

    assert!(rule.match_perm(perm.as_permission()));
}

#[test]
fn rules_from_string_test() {
    assert_eq!(
        PermRule::Base(PermissionBuf::from_string("bffh.perm".to_string())),
        PermRule::try_from("bffh.perm".to_string()).unwrap()
    );
    assert_eq!(
        PermRule::Children(PermissionBuf::from_string("bffh.perm".to_string())),
        PermRule::try_from("bffh.perm.+".to_string()).unwrap()
    );
    assert_eq!(
        PermRule::Subtree(PermissionBuf::from_string("bffh.perm".to_string())),
        PermRule::try_from("bffh.perm.*".to_string()).unwrap()
    );
}

#[test]
fn rules_from_string_edgecases_test() {
    assert!(PermRule::try_from("*".to_string()).is_err());
    assert!(PermRule::try_from("+".to_string()).is_err());
}

#[test]
fn children_rule_grants_descendants_only() {
    let rule = PermRule::try_from("lab.some.+".to_string()).unwrap();
    assert!(rule.match_perm(&Permission::new("lab.some.read")));
    assert!(rule.match_perm(&Permission::new("lab.some.read.deep")));
    assert!(!rule.match_perm(&Permission::new("lab.some")));
    assert!(!rule.match_perm(&Permission::new("lab.other")));
}

#[test]
fn subtree_rule_grants_node_and_descendants() {
    let rule = PermRule::try_from("lab.some.*".to_string()).unwrap();
    assert!(rule.match_perm(&Permission::new("lab.some")));
    assert!(rule.match_perm(&Permission::new("lab.some.write")));
    assert!(!rule.match_perm(&Permission::new("lab.somewhere")));
}

#[test]
fn rule_display_and_serialised_forms() {
    let children = PermRule::try_from("bffh.perm.+".to_string()).unwrap();
    let subtree = PermRule::try_from("bffh.perm.*".to_string()).unwrap();
    let base = PermRule::try_from("bffh.perm".to_string()).unwrap();
    assert_eq!(children.to_string(), "bffh.perm.+");
    assert_eq!(subtree.to_string(), "bffh.perm.*");
    assert_eq!(base.to_string(), "bffh.perm");
    assert_eq!(children.into_string(), "bffh.perm.+");
    assert_eq!(subtree.into_string(), "bffh.perm.*");
    assert_eq!(base.into_string(), "bffh.perm");
}

#[test]
fn permission_segments() {
    let p = Permission::new("lab.some.admin");
    assert_eq!(p.iter(), vec!["lab".to_string(), "some".to_string(), "admin".to_string()]);
    assert_eq!(p.as_str(), "lab.some.admin");
}

#[test]
fn permission_buf_push_joins_with_dots() {
    let mut buf = PermissionBuf::new();
    buf.push(&Permission::new("lab"));
    buf.push(&Permission::new("some"));
    assert_eq!(buf.as_str(), "lab.some");
    let mut buf = PermissionBuf::with_capacity(16);
    buf.push(&Permission::new("x"));
    assert_eq!(buf.into_string(), "x");
}

#[test]
fn unrelated_permissions_are_not_ordered() {
    let a = Permission::new("lab.a");
    let b = Permission::new("lab.b");
    assert_eq!(a.partial_cmp(&b), None);
    assert!(!(a < b) && !(a > b));
}

#[test]
fn perms_for_machine() {
    let privs = PrivilegesBuf {
        disclose: PermissionBuf::from_string("lab.m.disclose".to_string()),
        read: PermissionBuf::from_string("lab.m.read".to_string()),
        write: PermissionBuf::from_string("lab.m.write".to_string()),
        manage: PermissionBuf::from_string("lab.m.admin".to_string()),
    };
    let rules = vec![
        PermRule::try_from("lab.m.read".to_string()).unwrap(),
        PermRule::try_from("lab.m.disclose".to_string()).unwrap(),
    ];
    let p = Perms::get_for(&privs, &rules);
    assert!(p.disclose && p.read && !p.write && !p.manage);
    assert!(rules_grant(&rules, &Permission::new("lab.m.read")));
    assert!(!rules_grant(&rules, &Permission::new("lab.m.write")));
}

fn local(name: &str) -> RoleIdentifier {
    RoleIdentifier::local_from_str("lmdb".to_string(), name.to_string())
}

#[test]
fn role_identifier_parsing_and_display() {
    match RoleIdentifier::try_from("admin@remote".to_string()) {
        Ok(RoleIdentifier::Remote { name, location }) => {
            assert_eq!(name, "admin");
            assert_eq!(location, "remote");
        }
        _ => panic!("expected a remote role"),
    }
    match RoleIdentifier::try_from("admin%lmdb".to_string()) {
        Ok(RoleIdentifier::Local { name, source }) => {
            assert_eq!(name, "admin");
            assert_eq!(source, "lmdb");
        }
        _ => panic!("expected a local role"),
    }
    assert!(matches!(
        RoleIdentifier::try_from("admin".to_string()),
        Err(RoleFromStrError::Invalid)
    ));
    assert_eq!(local("admin").to_string(), "admin/lmdb@local");
    assert_eq!(RoleFromStrError::Invalid.to_string(), "Rolename are of form 'name%source' or 'name@realm'.");
}

#[test]
fn roles_inherit_permissions_of_parents() {
    let mut db = RoleDB::new();
    db.insert(
        local("testparent"),
        Role::new(
            "Testparent".to_string(),
            vec![],
            vec![PermRule::try_from("lab.some.write".to_string()).unwrap()],
        ),
    );
    db.insert(
        local("somerole"),
        Role::new(
            "Somerole".to_string(),
            vec![local("testparent")],
            vec![PermRule::try_from("lab.some.admin".to_string()).unwrap()],
        ),
    );
    let roles = vec![local("somerole")];
    assert!(db.check_roles(&roles, &Permission::new("lab.some.admin")));
    assert!(db.check_roles(&roles, &Permission::new("lab.some.write")));
    assert!(!db.check_roles(&roles, &Permission::new("lab.some.read")));
    assert!(!db.check_roles(&vec![local("testparent")], &Permission::new("lab.some.admin")));
}

#[test]
fn cyclic_roles_terminate() {
    let mut db = RoleDB::new();
    db.insert(local("a"), Role::new("A".to_string(), vec![local("b")], vec![]));
    db.insert(
        local("b"),
        Role::new(
            "B".to_string(),
            vec![local("a")],
            vec![PermRule::try_from("lab.x.*".to_string()).unwrap()],
        ),
    );
    assert!(db.check_roles(&vec![local("a")], &Permission::new("lab.x.y")));
    assert!(!db.check_roles(&vec![local("a")], &Permission::new("lab.z")));
}

#[test]
fn missing_roles_grant_nothing() {
    let db = RoleDB::new();
    assert!(!db.check_roles(&vec![local("ghost")], &Permission::new("lab")));
    assert!(db.get_role(&local("ghost")).is_none());
}

#[test]
fn stored_rules_read_back() {
    let children = PermRule::try_from("lab.x.+".to_string()).unwrap();
    assert_eq!(PermRule::try_from(children.clone().into_string()).unwrap(), children);
    let subtree = PermRule::try_from("lab.x.*".to_string()).unwrap();
    assert_eq!(PermRule::try_from(subtree.clone().into_string()).unwrap(), subtree);
    let base = PermRule::try_from("lab.x".to_string()).unwrap();
    assert_eq!(PermRule::try_from(base.to_string()).unwrap(), base);
}

#[test]
fn splitting_and_path_relations() {
    assert_eq!(split_by("a:b::c", ':'), vec!["a", "b", "", "c"]);
    assert_eq!(split_by("", ':'), vec![""]);
    assert!(str_eq("abc", "abc") && !str_eq("abc", "abd"));
    assert_eq!(relate_paths("lab", "lab.x"), PathRelation::Ancestor);
    assert_eq!(relate_paths("lab.x", "lab"), PathRelation::Descendant);
    assert_eq!(relate_paths("lab", "labx"), PathRelation::Unrelated);
    assert_eq!(relate_paths("lab", "lab"), PathRelation::Same);
}

#[test]
fn role_identifier_from_str_drops_separator() {
    match RoleIdentifier::from_str("admin@remote") {
        Ok(RoleIdentifier::Remote { name, location }) => {
            assert_eq!(name, "admin");
            assert_eq!(location, "remote");
        }
        _ => panic!("expected a remote role"),
    }
    match RoleIdentifier::from_str("admin%lmdb") {
        Ok(RoleIdentifier::Local { name, source }) => {
            assert_eq!(name, "admin");
            assert_eq!(source, "lmdb");
        }
        _ => panic!("expected a local role"),
    }
    assert!(RoleIdentifier::from_str("admin").is_err());
}

#[test]
fn permission_identifiers_display() {
    let local = PermIdentifier::Local(PermRule::try_from("lab.x.*".to_string()).unwrap());
    assert_eq!(local.to_string(), "lab.x.*");
    let remote = PermIdentifier::Remote(PermRule::try_from("lab.y".to_string()).unwrap(), "other".to_string());
    assert_eq!(remote.to_string(), "lab.y@other");
}

#[test]
fn permissions_compare_by_segments() {
    assert_eq!(Permission::new("a.b").partial_cmp(&Permission::new("a.bc")), None);
    assert_eq!(
        Permission::new("a.b").partial_cmp(&Permission::new("a.b.c")),
        Some(std::cmp::Ordering::Greater)
    );
    assert_eq!(
        Permission::new("a.b.c").partial_cmp(&Permission::new("a.b")),
        Some(std::cmp::Ordering::Less)
    );
}

//! Users: their identity and the data decisions are based on.

use vstd::prelude::*;
use crate::role::{RoleIdentifier, RoleIdView, RoleDB, roles_grant};
use crate::permission::{Permission, PermRule, any_rule_grants, rules_grant};

verus! {

/// The abstract value of a user id.
pub struct UserIdView {
    pub uid: Seq<char>,
    pub subuid: Option<Seq<char>>,
    pub realm: Option<Seq<char>>,
}

/// The view of an optional string.
pub open spec fn opt_view(s: Option<String>) -> Option<Seq<char>> {
    match s {
        Some(v) => Some(v@),
        None => None,
    }
}

/// Authorization identity: internal to FabAccess and independent of the
/// authentication method or source.
#[derive(Debug, PartialOrd, Ord)]
pub struct UserId {
    /// Main user id, generally a user name. Locally unique.
    pub uid: String,
    /// Sub user id, e.g. a `+admin` account with more permissions.
    pub subuid: Option<String>,
    /// Realm this account originates from.
    pub realm: Option<String>,
}

impl View for UserId {
    type V = UserIdView;

    open spec fn view(&self) -> UserIdView {
        UserIdView { uid: self.uid@, subuid: opt_view(self.subuid), realm: opt_view(self.realm) }
    }
}

/// The displayed form of a user id: `uid`, then `+subuid` and `@realm` where
/// present.
pub open spec fn user_id_display(u: UserIdView) -> Seq<char> {
    u.uid + match u.subuid {
        Some(s) => seq!['+'] + s,
        None => Seq::<char>::empty(),
    } + match u.realm {
        Some(r) => seq!['@'] + r,
        None => Seq::<char>::empty(),
    }
}

/// A user id is shown as its user name, followed by `+` and the sub user id
/// where there is one, followed by `@` and the realm where there is one;
/// a plain user id is shown as its user name alone.
pub proof fn law_user_id_display_parts(u: UserIdView)
    ensures
        ({
            let d = user_id_display(u);
            let sub_len: int = match u.subuid {
                Some(x) => x.len() + 1int,
                None => 0,
            };
            let realm_len: int = match u.realm {
                Some(r) => r.len() + 1int,
                None => 0,
            };
            &&& d.len() == u.uid.len() + sub_len + realm_len
            &&& d.subrange(0, u.uid.len() as int) == u.uid
            &&& u.subuid matches Some(x) ==> d[u.uid.len() as int] == '+' && d.subrange(
                u.uid.len() + 1int,
                u.uid.len() + 1int + x.len(),
            ) == x
            &&& u.realm matches Some(r) ==> d[d.len() - r.len() - 1] == '@' && d.subrange(d.len() - r.len(), d.len() as int)
                == r
            &&& u.subuid is None && u.realm is None ==> d == u.uid
        }),
{
    let d = user_id_display(u);
    let a = match u.subuid {
        Some(x) => seq!['+'] + x,
        None => Seq::<char>::empty(),
    };
    let b = match u.realm {
        Some(r) => seq!['@'] + r,
        None => Seq::<char>::empty(),
    };
    assert(d =~= u.uid + a + b);
    assert(d.subrange(0, u.uid.len() as int) =~= u.uid);
    if let Some(x) = u.subuid {
        assert(d.subrange(u.uid.len() + 1int, u.uid.len() + 1int + x.len()) =~= x);
    }
    if let Some(r) = u.realm {
        assert(d.subrange(d.len() - r.len(), d.len() as int) =~= r);
    }
    if u.subuid is None && u.realm is None {
        assert(d =~= u.uid);
    }
}

fn clone_opt_string(s: &Option<String>) -> (r: Option<String>)
    ensures
        opt_view(r) == opt_view(*s),
{
    match s {
        Some(v) => Some(v.clone()),
        None => None,
    }
}

fn opt_string_eq(a: &Option<String>, b: &Option<String>) -> (r: bool)
    ensures
        r == (opt_view(*a) == opt_view(*b)),
{
    match a {
        Some(x) => match b {
            Some(y) => *x == *y,
            None => false,
        },
        None => b.is_none(),
    }
}

impl UserId {
    /// A user id from its parts.
    pub fn new(uid: String, subuid: Option<String>, realm: Option<String>) -> (u: UserId)
        ensures
            u@ == (UserIdView { uid: uid@, subuid: opt_view(subuid), realm: opt_view(realm) }),
    {
        UserId { uid, subuid, realm }
    }

    /// The id as shown to people, e.g. `user+sub@realm`.
    pub fn to_string(&self) -> (s: String)
        ensures
            s@ == user_id_display(self@),
    {
        let mut out = String::from_str(self.uid.as_str());
        let ghost uid = out@;
        match &self.subuid {
            Some(sub) => {
                proof {
                    reveal_strlit("+");
                }
                out.append("+");
                out.append(sub.as_str());
            },
            None => {},
        }
        let ghost mid = out@;
        match &self.realm {
            Some(realm) => {
                proof {
                    reveal_strlit("@");
                }
                out.append("@");
                out.append(realm.as_str());
            },
            None => {},
        }
        assert(out@ =~= user_id_display(self@));
        out
    }
}

impl Clone for UserId {
    fn clone(&self) -> (r: UserId)
        ensures
            r@ == self@,
    {
        UserId { uid: self.uid.clone(), subuid: clone_opt_string(&self.subuid), realm: clone_opt_string(&self.realm) }
    }
}

impl PartialEq for UserId {
    fn eq(&self, other: &UserId) -> (r: bool) {
        let a = self.uid == other.uid;
        let b = opt_string_eq(&self.subuid, &other.subuid);
        let c = opt_string_eq(&self.realm, &other.realm);
        a && b && c
    }
}

impl vstd::std_specs::cmp::PartialEqSpecImpl for UserId {
    open spec fn obeys_eq_spec() -> bool {
        true
    }

    open spec fn eq_spec(&self, other: &UserId) -> bool {
        self@ == other@
    }
}

impl Eq for UserId {
}

/// The view of an optional user id.
pub open spec fn opt_user_view(u: Option<UserId>) -> Option<UserIdView> {
    match u {
        Some(v) => Some(v@),
        None => None,
    }
}

/// Compares two optional user ids.
pub fn opt_user_eq(a: &Option<UserId>, b: &Option<UserId>) -> (r: bool)
    ensures
        r == (opt_user_view(*a) == opt_user_view(*b)),
{
    match a {
        Some(x) => match b {
            Some(y) => *x == *y,
            None => false,
        },
        None => b.is_none(),
    }
}

/// Copies an optional user id.
pub fn clone_opt_user(u: &Option<UserId>) -> (r: Option<UserId>)
    ensures
        opt_user_view(r) == opt_user_view(*u),
{
    match u {
        Some(v) => Some(v.clone()),
        None => None,
    }
}

/// Data on a user to base decisions on.
#[derive(Debug)]
pub struct UserData {
    /// A person has any number of roles; persons are only ever given roles,
    /// not permissions directly.
    pub roles: Vec<RoleIdentifier>,
    /// A priority number, defaulting to 0. Higher priority users overwrite
    /// lower priority ones.
    pub priority: u64,
    /// Additional data storage.
    pub kv: std::collections::HashMap<String, String>,
}

impl UserData {
    /// User data with the given roles and priority and no further entries.
    pub fn new(roles: Vec<RoleIdentifier>, priority: u64) -> (d: UserData)
        ensures
            d.roles@ == roles@,
            d.priority == priority,
            d.kv@ == Map::<String, String>::empty(),
    {
        UserData { roles, priority, kv: std::collections::HashMap::new() }
    }

    /// The additional key-value data.
    pub fn kv(&self) -> (m: &std::collections::HashMap<String, String>)
        ensures
            m@ == self.kv@,
    {
        &self.kv
    }
}

/// Whether a priority is the default one, left out when stored.
pub fn is_zero(i: &u64) -> (r: bool)
    ensures
        r == (*i == 0),
{
    *i == 0
}

/// The priority a user has unless stated otherwise.
pub fn default_priority() -> (p: u64)
    ensures
        p == 0,
{
    0
}

/// A user.
#[derive(Debug)]
pub struct User {
    /// The precise (and unique) identifier of this user.
    pub id: UserId,
    /// Data stored on this user to base decisions on.
    pub data: UserData,
}

impl User {
    /// A user from its id and data.
    pub fn new(id: UserId, data: UserData) -> (u: User)
        ensures
            u.id@ == id@,
            u.data.roles@ == data.roles@,
            u.data.priority == data.priority,
    {
        User { id, data }
    }
}

impl RoleDB {
    /// Does the user have the given permission through one of their roles
    /// or those roles' ancestors?
    pub fn check(&self, user: &UserData, perm: &Permission) -> (r: bool)
        requires
            self.wf(),
        ensures
            r == roles_grant(self@, user.roles@.map_values(|x: RoleIdentifier| x@), perm@),
    {
        self.check_roles(&user.roles, perm)
    }
}

/// Whether a session holding `rules` may manage users: one of them grants
/// `bffh.users.manage`.
pub fn may_manage_users(rules: &Vec<PermRule>) -> (r: bool)
    ensures
        r == any_rule_grants(rules@, "bffh.users.manage"@),
{
    let perm = Permission::new("bffh.users.manage");
    rules_grant(rules, &perm)
}

} // verus!

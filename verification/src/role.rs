//! Roles and role identifiers, and the role database that decides whether a
//! set of roles grants a permission.
//!
//! A role is a bundle of permission rules; it may name parent roles whose
//! permissions it inherits.

use vstd::prelude::*;
use crate::permission::{PermRule, Permission, rule_grants, rule_eq};

verus! {

/// The abstract value of a role identifier.
pub enum RoleIdView {
    Local { name: Seq<char>, source: Seq<char> },
    Remote { name: Seq<char>, location: Seq<char> },
}

/// Universal (relative) id of a role.
#[derive(Debug)]
pub enum RoleIdentifier {
    /// The role comes from this instance.
    Local {
        /// Locally unique name for the role.
        name: String,
        /// Role source, i.e. the database the role comes from.
        source: String,
    },
    /// The role comes from a federated instance.
    Remote {
        /// Name of the role, unique in that instance.
        name: String,
        /// The federated instance this role comes from.
        location: String,
    },
}

impl View for RoleIdentifier {
    type V = RoleIdView;

    open spec fn view(&self) -> RoleIdView {
        match self {
            RoleIdentifier::Local { name, source } => RoleIdView::Local { name: name@, source: source@ },
            RoleIdentifier::Remote { name, location } => RoleIdView::Remote {
                name: name@,
                location: location@,
            },
        }
    }
}

/// Failure to read a role identifier.
#[derive(Debug, Copy, Clone, PartialEq, Eq, Structural)]
pub enum RoleFromStrError {
    /// No '@' or '%' found.
    Invalid,
}

impl RoleFromStrError {
    /// The message shown for this error.
    pub fn to_string(&self) -> (s: String)
        ensures
            s@ == "Rolename are of form 'name%source' or 'name@realm'."@,
    {
        String::from_str("Rolename are of form 'name%source' or 'name@realm'.")
    }
}

/// `s` split before the first occurrence of `c`, if `c` occurs.
pub open spec fn split_at_first(s: Seq<char>, c: char) -> Option<(Seq<char>, Seq<char>)> {
    if s.contains(c) {
        let k = choose|k: int| 0 <= k < s.len() && s[k] == c && !s.take(k).contains(c);
        Some((s.take(k), s.skip(k)))
    } else {
        None
    }
}

/// Splits `s` before the first occurrence of `split`; the second part keeps
/// the separator.
pub fn split_once(s: &str, split: char) -> (r: Option<(&str, &str)>)
    ensures
        r is None <==> !s@.contains(split),
        r matches Some((a, b)) ==> {
            &&& a@ + b@ == s@
            &&& !a@.contains(split)
            &&& b@.len() > 0
            &&& b@[0] == split
        },
{
    let n = s.unicode_len();
    let mut i: usize = 0;
    while i < n
        invariant
            n == s@.len(),
            i <= n,
            forall|j: int| 0 <= j < i ==> s@[j] != split,
        decreases n - i,
    {
        if s.get_char(i) == split {
            let a = s.substring_char(0, i);
            let b = s.substring_char(i, n);
            assert(a@ + b@ =~= s@);
            assert(!a@.contains(split)) by {
                if a@.contains(split) {
                    let j = choose|j: int| 0 <= j < a@.len() && a@[j] == split;
                    assert(s@[j] == split);
                }
            }
            return Some((a, b));
        }
        i = i + 1;
    }
    assert(!s@.contains(split));
    None
}

impl RoleIdentifier {
    /// A role of this instance with the given source and name.
    pub fn local_from_str(source: String, name: String) -> (r: RoleIdentifier)
        ensures
            r@ == (RoleIdView::Local { name: name@, source: source@ }),
    {
        RoleIdentifier::Local { name, source }
    }

    /// Reads `name@location` as a remote role and `name%source` as a local
    /// one, without the separator; the same as [`RoleIdentifier::try_from`].
    /// `@` is looked for first.
    pub fn from_str(s: &str) -> (r: Result<RoleIdentifier, RoleFromStrError>)
        ensures
            s@.contains('@') ==> (r matches Ok(RoleIdentifier::Remote { name, location }) && {
                &&& name@ + seq!['@'] + location@ == s@
                &&& !name@.contains('@')
            }),
            !s@.contains('@') && s@.contains('%') ==> (r matches Ok(RoleIdentifier::Local { name, source }) && {
                &&& name@ + seq!['%'] + source@ == s@
                &&& !name@.contains('%')
            }),
            !s@.contains('@') && !s@.contains('%') ==> r == Err::<RoleIdentifier, RoleFromStrError>(RoleFromStrError::Invalid),
    {
        RoleIdentifier::try_from(String::from_str(s))
    }

    /// Reads `name@location` as a remote role and `name%source` as a local
    /// one, without the separator. `@` is looked for first.
    pub fn try_from(s: String) -> (r: Result<RoleIdentifier, RoleFromStrError>)
        ensures
            s@.contains('@') ==> (r matches Ok(RoleIdentifier::Remote { name, location }) && {
                &&& name@ + seq!['@'] + location@ == s@
                &&& !name@.contains('@')
            }),
            !s@.contains('@') && s@.contains('%') ==> (r matches Ok(RoleIdentifier::Local { name, source }) && {
                &&& name@ + seq!['%'] + source@ == s@
                &&& !name@.contains('%')
            }),
            !s@.contains('@') && !s@.contains('%') ==> r == Err::<RoleIdentifier, RoleFromStrError>(RoleFromStrError::Invalid),
    {
        let st = s.as_str();
        if let Some((name, location)) = split_once(st, '@') {
            let m = location.unicode_len();
            let location = location.substring_char(1, m);
            assert(name@ + seq!['@'] + location@ =~= s@);
            Ok(RoleIdentifier::Remote { name: String::from_str(name), location: String::from_str(location) })
        } else if let Some((name, source)) = split_once(st, '%') {
            let m = source.unicode_len();
            let source = source.substring_char(1, m);
            assert(name@ + seq!['%'] + source@ =~= s@);
            Ok(RoleIdentifier::Local { name: String::from_str(name), source: String::from_str(source) })
        } else {
            Err(RoleFromStrError::Invalid)
        }
    }

    /// The identifier as shown to people: `name/source@local` or
    /// `name@location`.
    pub fn to_string(&self) -> (s: String)
        ensures
            s@ == role_id_display(self@),
    {
        match self {
            RoleIdentifier::Local { name, source } => {
                proof {
                    reveal_strlit("/");
                    reveal_strlit("@local");
                }
                String::from_str(name.as_str()).concat("/").concat(source.as_str()).concat("@local")
            },
            RoleIdentifier::Remote { name, location } => {
                proof {
                    reveal_strlit("@");
                }
                String::from_str(name.as_str()).concat("@").concat(location.as_str())
            },
        }
    }
}

/// The displayed form of a role identifier.
pub open spec fn role_id_display(r: RoleIdView) -> Seq<char> {
    match r {
        RoleIdView::Local { name, source } => name + seq!['/'] + source + seq!['@', 'l', 'o', 'c', 'a', 'l'],
        RoleIdView::Remote { name, location } => name + seq!['@'] + location,
    }
}

impl Clone for RoleIdentifier {
    fn clone(&self) -> (r: RoleIdentifier)
        ensures
            r@ == self@,
    {
        match self {
            RoleIdentifier::Local { name, source } => RoleIdentifier::Local { name: name.clone(), source: source.clone() },
            RoleIdentifier::Remote { name, location } => RoleIdentifier::Remote {
                name: name.clone(),
                location: location.clone(),
            },
        }
    }
}

impl PartialEq for RoleIdentifier {
    fn eq(&self, other: &RoleIdentifier) -> (r: bool) {
        match self {
            RoleIdentifier::Local { name: n1, source: s1 } => match other {
                RoleIdentifier::Local { name: n2, source: s2 } => {
                    let same_name = *n1 == *n2;
                    let same_source = *s1 == *s2;
                    same_name && same_source
                },
                RoleIdentifier::Remote { .. } => false,
            },
            RoleIdentifier::Remote { name: n1, location: l1 } => match other {
                RoleIdentifier::Remote { name: n2, location: l2 } => {
                    let same_name = *n1 == *n2;
                    let same_location = *l1 == *l2;
                    same_name && same_location
                },
                RoleIdentifier::Local { .. } => false,
            },
        }
    }
}

impl vstd::std_specs::cmp::PartialEqSpecImpl for RoleIdentifier {
    open spec fn obeys_eq_spec() -> bool {
        true
    }

    open spec fn eq_spec(&self, other: &RoleIdentifier) -> bool {
        self@ == other@
    }
}

impl Eq for RoleIdentifier {
}

} // verus!

verus! {

/// The abstract value of a role.
pub struct RoleView {
    pub name: Seq<char>,
    pub parents: Seq<RoleIdView>,
    pub permissions: Seq<PermRule>,
}

/// A role: a bundle of permission rules, inheriting the permissions of its
/// parent roles.
#[derive(Debug)]
pub struct Role {
    name: String,
    /// A role can have parents, inheriting all their permissions.
    parents: Vec<RoleIdentifier>,
    permissions: Vec<PermRule>,
}

impl View for Role {
    type V = RoleView;

    closed spec fn view(&self) -> RoleView {
        RoleView {
            name: self.name@,
            parents: self.parents@.map_values(|p: RoleIdentifier| p@),
            permissions: self.permissions@,
        }
    }
}

/// Two lists of rules hold the same rules in the same order.
pub open spec fn rules_eq(a: Seq<PermRule>, b: Seq<PermRule>) -> bool {
    a.len() == b.len() && forall|i: int| 0 <= i < a.len() ==> rule_eq(#[trigger] a[i], b[i])
}

/// Two roles are equal: same name, parents and rules.
pub open spec fn role_eq(a: RoleView, b: RoleView) -> bool {
    a.name == b.name && a.parents == b.parents && rules_eq(a.permissions, b.permissions)
}

impl Role {
    /// A role with the given name, parents and rules.
    pub fn new(name: String, parents: Vec<RoleIdentifier>, permissions: Vec<PermRule>) -> (r: Role)
        ensures
            r@.name == name@,
            r@.parents == parents@.map_values(|p: RoleIdentifier| p@),
            r@.permissions == permissions@,
    {
        Role { name, parents, permissions }
    }

    /// The role's name.
    pub fn name(&self) -> (s: &str)
        ensures
            s@ == self@.name,
    {
        self.name.as_str()
    }

    /// The roles this one inherits from.
    pub fn parents(&self) -> (p: &Vec<RoleIdentifier>)
        ensures
            p@.map_values(|q: RoleIdentifier| q@) == self@.parents,
    {
        &self.parents
    }

    /// The rules this role grants directly.
    pub fn permissions(&self) -> (p: &Vec<PermRule>)
        ensures
            p@ == self@.permissions,
    {
        &self.permissions
    }

    /// Does one of this role's own rules grant `perm`?
    pub fn grants(&self, perm: &Permission) -> (r: bool)
        ensures
            r == role_grants_directly(self@, perm@),
    {
        let n = self.permissions.len();
        let mut i: usize = 0;
        while i < n
            invariant
                n == self.permissions@.len(),
                i <= n,
                forall|q: int| 0 <= q < i ==> !rule_grants(#[trigger] self.permissions@[q], perm@),
            decreases n - i,
        {
            if self.permissions[i].match_perm(perm) {
                assert(rule_grants(self@.permissions[i as int], perm@));
                return true;
            }
            i = i + 1;
        }
        false
    }
}

/// One of the role's own rules grants `p`.
pub open spec fn role_grants_directly(role: RoleView, p: Seq<char>) -> bool {
    exists|q: int| 0 <= q < role.permissions.len() && rule_grants(#[trigger] role.permissions[q], p)
}

fn clone_rules(v: &Vec<PermRule>) -> (r: Vec<PermRule>)
    ensures
        rules_eq(r@, v@),
{
    let mut out: Vec<PermRule> = Vec::new();
    let n = v.len();
    let mut i: usize = 0;
    while i < n
        invariant
            n == v@.len(),
            i <= n,
            out@.len() == i,
            forall|j: int| 0 <= j < i ==> rule_eq(#[trigger] out@[j], v@[j]),
        decreases n - i,
    {
        out.push(v[i].clone());
        i = i + 1;
    }
    out
}

fn clone_ids(v: &Vec<RoleIdentifier>) -> (r: Vec<RoleIdentifier>)
    ensures
        r@.map_values(|p: RoleIdentifier| p@) == v@.map_values(|p: RoleIdentifier| p@),
{
    let mut out: Vec<RoleIdentifier> = Vec::new();
    let n = v.len();
    let mut i: usize = 0;
    while i < n
        invariant
            n == v@.len(),
            i <= n,
            out@.len() == i,
            forall|j: int| 0 <= j < i ==> (#[trigger] out@[j])@ == v@[j]@,
        decreases n - i,
    {
        out.push(v[i].clone());
        i = i + 1;
    }
    assert(out@.map_values(|p: RoleIdentifier| p@) =~= v@.map_values(|p: RoleIdentifier| p@));
    out
}

impl Clone for Role {
    fn clone(&self) -> (r: Role)
        ensures
            role_eq(r@, self@),
    {
        Role { name: self.name.clone(), parents: clone_ids(&self.parents), permissions: clone_rules(&self.permissions) }
    }
}

/// The role database seen as a list of (identifier, role) entries.
pub type RoleEntries = Seq<(RoleIdView, RoleView)>;

/// No identifier occurs twice.
pub open spec fn ids_unique(ents: RoleEntries) -> bool {
    forall|i: int, j: int|
        0 <= i < ents.len() && 0 <= j < ents.len() && (#[trigger] ents[i]).0 == (#[trigger] ents[j]).0 ==> i == j
}

/// The role at entry `i` names the role at entry `j` as a parent.
pub open spec fn role_edge(ents: RoleEntries, i: int, j: int) -> bool {
    &&& 0 <= i < ents.len()
    &&& 0 <= j < ents.len()
    &&& ents[i].1.parents.contains(ents[j].0)
}

/// `path` lists entries starting at one of the `starts` and following parent
/// links from each entry to the next.
pub open spec fn is_role_path(ents: RoleEntries, starts: Seq<RoleIdView>, path: Seq<int>) -> bool {
    &&& path.len() > 0
    &&& forall|q: int| 0 <= q < path.len() ==> 0 <= #[trigger] path[q] < ents.len()
    &&& starts.contains(ents[path[0]].0)
    &&& forall|q: int| 0 <= q < path.len() - 1 ==> role_edge(ents, #[trigger] path[q], path[q + 1])
}

/// Entry `j` is one of the `starts` or one of their ancestors.
pub open spec fn reachable(ents: RoleEntries, starts: Seq<RoleIdView>, j: int) -> bool {
    exists|path: Seq<int>| #[trigger] is_role_path(ents, starts, path) && path.last() == j
}

/// Some role among `starts` and their ancestors has a rule that grants `p`.
pub open spec fn roles_grant(ents: RoleEntries, starts: Seq<RoleIdView>, p: Seq<char>) -> bool {
    exists|j: int| reachable(ents, starts, j) && role_grants_directly(#[trigger] ents[j].1, p)
}

/// Every marked entry's parents are marked.
pub open spec fn closed_under_parents(ents: RoleEntries, marked: Seq<bool>) -> bool {
    forall|i: int, j: int| #[trigger] role_edge(ents, i, j) && marked[i] ==> marked[j]
}

/// `i` is one of the indices on `stack`.
pub open spec fn in_stack(stack: Seq<usize>, i: int) -> bool {
    exists|q: int| 0 <= q < stack.len() && stack[q] as int == i
}

/// The number of unmarked entries.
pub open spec fn count_unmarked(marked: Seq<bool>) -> nat
    decreases marked.len(),
{
    if marked.len() == 0 {
        0
    } else {
        count_unmarked(marked.drop_last()) + if marked.last() { 0nat } else { 1nat }
    }
}

proof fn lemma_count_unmarked_mark(marked: Seq<bool>, i: int)
    requires
        0 <= i < marked.len(),
        !marked[i],
    ensures
        count_unmarked(marked.update(i, true)) + 1 == count_unmarked(marked),
    decreases marked.len(),
{
    if i == marked.len() - 1 {
        assert(marked.update(i, true).drop_last() =~= marked.drop_last());
    } else {
        lemma_count_unmarked_mark(marked.drop_last(), i);
        assert(marked.update(i, true).drop_last() =~= marked.drop_last().update(i, true));
    }
}

/// A database of roles, keyed by their identifiers.
pub struct RoleDB {
    entries: Vec<(RoleIdentifier, Role)>,
}

impl View for RoleDB {
    type V = RoleEntries;

    closed spec fn view(&self) -> RoleEntries {
        self.entries@.map_values(|e: (RoleIdentifier, Role)| (e.0@, e.1@))
    }
}

/// The entry of `ents` whose identifier is `id`, if any.
pub open spec fn find_entry(ents: RoleEntries, id: RoleIdView) -> Option<int> {
    if exists|i: int| 0 <= i < ents.len() && (#[trigger] ents[i]).0 == id {
        Some(choose|i: int| 0 <= i < ents.len() && (#[trigger] ents[i]).0 == id)
    } else {
        None
    }
}

impl RoleDB {
    /// The database's invariant: every identifier occurs once.
    pub closed spec fn wf(&self) -> bool {
        ids_unique(self@)
    }

    /// An empty database.
    pub fn new() -> (db: RoleDB)
        ensures
            db.wf(),
            db@ == Seq::<(RoleIdView, RoleView)>::empty(),
    {
        let db = RoleDB { entries: Vec::new() };
        assert(db@ =~= Seq::<(RoleIdView, RoleView)>::empty());
        db
    }

    fn index_of(&self, id: &RoleIdentifier) -> (r: Option<usize>)
        requires
            self.wf(),
        ensures
            match r {
                Some(i) => i < self@.len() && self@[i as int].0 == id@,
                None => forall|i: int| 0 <= i < self@.len() ==> (#[trigger] self@[i]).0 != id@,
            },
            r is Some <==> find_entry(self@, id@) is Some,
            r matches Some(i) ==> find_entry(self@, id@) == Some(i as int),
    {
        let n = self.entries.len();
        let mut i: usize = 0;
        while i < n
            invariant
                n == self.entries@.len(),
                self@.len() == n,
                ids_unique(self@),
                i <= n,
                forall|j: int| 0 <= j < i ==> (#[trigger] self@[j]).0 != id@,
            decreases n - i,
        {
            if self.entries[i].0 == *id {
                assert(self@[i as int].0 == id@);
                proof {
                    let k = choose|k: int| 0 <= k < self@.len() && (#[trigger] self@[k]).0 == id@;
                    assert(self@[k].0 == self@[i as int].0);
                }
                return Some(i);
            }
            i = i + 1;
        }
        None
    }

    /// Adds `role` under `id`, replacing the role stored there before.
    pub fn insert(&mut self, id: RoleIdentifier, role: Role)
        requires
            old(self).wf(),
        ensures
            final(self).wf(),
            find_entry(final(self)@, id@) matches Some(i) && final(self)@[i].1 == role@,
            forall|other: RoleIdView| other != id@ ==> #[trigger] find_entry(final(self)@, other) == find_entry(old(self)@, other),
            forall|i: int| 0 <= i < old(self)@.len() && old(self)@[i].0 != id@ ==> #[trigger] final(self)@[i] == old(self)@[i],
    {
        let ghost id_view = id@;
        let ghost role_view = role@;
        let ghost idx: int;
        match self.index_of(&id) {
            Some(i) => {
                self.entries.set(i, (id, role));
                assert(self@ =~= old(self)@.update(i as int, (id_view, role_view)));
                proof {
                    idx = i as int;
                }
            },
            None => {
                self.entries.push((id, role));
                assert(self@ =~= old(self)@.push((id_view, role_view)));
                proof {
                    idx = old(self)@.len() as int;
                }
            },
        }
        assert(ids_unique(self@));
        assert(self@[idx].0 == id_view);
        proof {
            let k = choose|k: int| 0 <= k < self@.len() && (#[trigger] self@[k]).0 == id_view;
            assert(self@[k].0 == self@[idx].0);
        }
        assert forall|other: RoleIdView| other != id_view implies #[trigger] find_entry(self@, other) == find_entry(
            old(self)@,
            other,
        ) by {
            if exists|i: int| 0 <= i < self@.len() && (#[trigger] self@[i]).0 == other {
                let k = choose|i: int| 0 <= i < self@.len() && (#[trigger] self@[i]).0 == other;
                assert(old(self)@[k].0 == other);
            }
            if exists|i: int| 0 <= i < old(self)@.len() && (#[trigger] old(self)@[i]).0 == other {
                let k = choose|i: int| 0 <= i < old(self)@.len() && (#[trigger] old(self)@[i]).0 == other;
                assert(self@[k].0 == other);
            }
        }
    }

    /// The role stored under `id`, if any.
    pub fn get_role(&self, id: &RoleIdentifier) -> (r: Option<Role>)
        requires
            self.wf(),
        ensures
            find_entry(self@, id@) is None ==> r is None,
            find_entry(self@, id@) matches Some(i) ==> (r matches Some(role) && role_eq(role@, self@[i].1)),
    {
        match self.index_of(id) {
            Some(i) => Some(self.entries[i].1.clone()),
            None => None,
        }
    }
}

/// Marking every start and closing the marks under parent links marks every
/// entry on a path from them.
proof fn lemma_closed_marks_path(ents: RoleEntries, starts: Seq<RoleIdView>, marked: Seq<bool>, path: Seq<int>, q: int)
    requires
        marked.len() == ents.len(),
        closed_under_parents(ents, marked),
        forall|x: int| 0 <= x < ents.len() && starts.contains(#[trigger] ents[x].0) ==> marked[x],
        is_role_path(ents, starts, path),
        0 <= q < path.len(),
    ensures
        marked[path[q]],
    decreases q,
{
    if q > 0 {
        lemma_closed_marks_path(ents, starts, marked, path, q - 1);
        assert(role_edge(ents, path[q - 1], path[q - 1 + 1]));
    }
}

proof fn lemma_closed_marks_reachable(ents: RoleEntries, starts: Seq<RoleIdView>, marked: Seq<bool>, j: int)
    requires
        marked.len() == ents.len(),
        closed_under_parents(ents, marked),
        forall|x: int| 0 <= x < ents.len() && starts.contains(#[trigger] ents[x].0) ==> marked[x],
        reachable(ents, starts, j),
    ensures
        marked[j],
{
    let path = choose|path: Seq<int>| #[trigger] is_role_path(ents, starts, path) && path.last() == j;
    lemma_closed_marks_path(ents, starts, marked, path, path.len() - 1);
}

proof fn lemma_reachable_mono(ents: RoleEntries, a: Seq<RoleIdView>, b: Seq<RoleIdView>, j: int)
    requires
        reachable(ents, a, j),
        forall|x: RoleIdView| a.contains(x) ==> b.contains(x),
    ensures
        reachable(ents, b, j),
{
    let path = choose|path: Seq<int>| #[trigger] is_role_path(ents, a, path) && path.last() == j;
    assert(is_role_path(ents, b, path));
}

proof fn lemma_reachable_prepend(ents: RoleEntries, c: int, pa: int, j: int)
    requires
        ids_unique(ents),
        role_edge(ents, c, pa),
        reachable(ents, seq![ents[pa].0], j),
    ensures
        reachable(ents, seq![ents[c].0], j),
{
    let path = choose|path: Seq<int>| #[trigger] is_role_path(ents, seq![ents[pa].0], path) && path.last() == j;
    assert(seq![ents[pa].0].contains(ents[path[0]].0));
    assert(ents[path[0]].0 == ents[pa].0);
    assert(path[0] == pa);
    let longer = seq![c] + path;
    assert(seq![ents[c].0][0] == ents[c].0);
    assert forall|q: int| 0 <= q < longer.len() - 1 implies role_edge(ents, #[trigger] longer[q], longer[q + 1]) by {
        if q == 0 {
            assert(longer[0] == c && longer[1] == path[0]);
        } else {
            assert(longer[q] == path[q - 1] && longer[q + 1] == path[q - 1 + 1]);
        }
    }
    assert forall|q: int| 0 <= q < longer.len() implies 0 <= #[trigger] longer[q] < ents.len() by {
        if q > 0 {
            assert(longer[q] == path[q - 1]);
        }
    }
    assert(longer.last() == path.last());
    assert(is_role_path(ents, seq![ents[c].0], longer));
}

/// A role inherits every permission of each of its parents: whatever the
/// parent (with its own ancestors) grants, the role grants too.
pub proof fn law_roles_inherit_parent_permissions(ents: RoleEntries, c: int, pa: int, p: Seq<char>)
    requires
        ids_unique(ents),
        role_edge(ents, c, pa),
        roles_grant(ents, seq![ents[pa].0], p),
    ensures
        roles_grant(ents, seq![ents[c].0], p),
{
    let j = choose|j: int| reachable(ents, seq![ents[pa].0], j) && role_grants_directly(#[trigger] ents[j].1, p);
    lemma_reachable_prepend(ents, c, pa, j);
}

/// A user's roles grant every permission that a rule of one of those roles
/// grants, and a user with no roles is granted nothing.
pub proof fn law_roles_grant_their_own_rules(ents: RoleEntries, starts: Seq<RoleIdView>, j: int, q: int, p: Seq<char>)
    ensures
        0 <= j < ents.len() && starts.contains(ents[j].0) && 0 <= q < ents[j].1.permissions.len() && rule_grants(
            ents[j].1.permissions[q],
            p,
        ) ==> roles_grant(ents, starts, p),
        !roles_grant(ents, Seq::<RoleIdView>::empty(), p),
{
    if 0 <= j < ents.len() && starts.contains(ents[j].0) && 0 <= q < ents[j].1.permissions.len() && rule_grants(
        ents[j].1.permissions[q],
        p,
    ) {
        lemma_reachable_start(ents, starts, j);
        assert(role_grants_directly(ents[j].1, p));
    }
    if roles_grant(ents, Seq::<RoleIdView>::empty(), p) {
        let k = choose|k: int| reachable(ents, Seq::<RoleIdView>::empty(), k) && role_grants_directly(#[trigger] ents[k].1, p);
        let path = choose|path: Seq<int>| #[trigger] is_role_path(ents, Seq::<RoleIdView>::empty(), path) && path.last() == k;
        assert(Seq::<RoleIdView>::empty().contains(ents[path[0]].0));
    }
}

proof fn lemma_reachable_start(ents: RoleEntries, starts: Seq<RoleIdView>, j: int)
    requires
        0 <= j < ents.len(),
        starts.contains(ents[j].0),
    ensures
        reachable(ents, starts, j),
{
    let path = seq![j];
    assert(is_role_path(ents, starts, path));
}

proof fn lemma_reachable_step(ents: RoleEntries, starts: Seq<RoleIdView>, i: int, j: int)
    requires
        reachable(ents, starts, i),
        role_edge(ents, i, j),
    ensures
        reachable(ents, starts, j),
{
    let path = choose|path: Seq<int>| #[trigger] is_role_path(ents, starts, path) && path.last() == i;
    let longer = path.push(j);
    assert forall|q: int| 0 <= q < longer.len() - 1 implies role_edge(ents, #[trigger] longer[q], longer[q + 1]) by {
        if q < path.len() - 1 {
            assert(longer[q] == path[q] && longer[q + 1] == path[q + 1]);
        }
    }
    assert(is_role_path(ents, starts, longer));
}

/// The identifier a role file gives the role stored under `key`: a local
/// role of the source `lmdb`.
pub open spec fn role_file_id(key: Seq<char>) -> RoleIdView {
    RoleIdView::Local { name: key, source: "lmdb"@ }
}

/// The role a role file's entries give for `key`: that of the last entry
/// with this key.
pub open spec fn role_file_role(entries: Seq<(String, Role)>, key: Seq<char>) -> Option<RoleView>
    decreases entries.len(),
{
    if entries.len() == 0 {
        None
    } else if entries.last().0@ == key {
        Some(entries.last().1@)
    } else {
        role_file_role(entries.drop_last(), key)
    }
}

/// In a role file a later entry for a key replaces an earlier one, an entry
/// for another key leaves it alone, and a key without an entry has no role.
pub proof fn law_role_file_last_entry_wins(entries: Seq<(String, Role)>, e: (String, Role), key: Seq<char>)
    ensures
        e.0@ == key ==> role_file_role(entries.push(e), key) == Some(e.1@),
        e.0@ != key ==> role_file_role(entries.push(e), key) == role_file_role(entries, key),
        (forall|i: int| 0 <= i < entries.len() ==> (#[trigger] entries[i]).0@ != key) ==> role_file_role(entries, key)
            is None,
    decreases entries.len(),
{
    assert(entries.push(e).drop_last() =~= entries);
    if entries.len() > 0 {
        let t = entries.drop_last();
        law_role_file_last_entry_wins(t, entries.last(), key);
        if forall|i: int| 0 <= i < entries.len() ==> (#[trigger] entries[i]).0@ != key {
            assert(forall|i: int| 0 <= i < t.len() ==> t[i] == entries[i]);
            assert(entries.last() == entries[entries.len() - 1]);
        }
    }
}

/// Entry `j` can be reached from the role `id` by following parent links
/// through entries none of which is marked in `marked`.
pub open spec fn fresh_reachable(ents: RoleEntries, marked: Seq<bool>, id: RoleIdView, j: int) -> bool {
    exists|path: Seq<int>|
        #[trigger] is_role_path(ents, seq![id], path) && path.last() == j && forall|q: int|
            0 <= q < path.len() ==> !marked[path[q]]
}

proof fn lemma_fresh_start(ents: RoleEntries, marked: Seq<bool>, id: RoleIdView, i: int)
    requires
        0 <= i < ents.len(),
        ents[i].0 == id,
        !marked[i],
    ensures
        fresh_reachable(ents, marked, id, i),
{
    let path = seq![i];
    assert(seq![id][0] == id);
    assert(is_role_path(ents, seq![id], path));
}

proof fn lemma_fresh_step(ents: RoleEntries, marked: Seq<bool>, id: RoleIdView, i: int, j: int)
    requires
        fresh_reachable(ents, marked, id, i),
        role_edge(ents, i, j),
        !marked[j],
    ensures
        fresh_reachable(ents, marked, id, j),
{
    let path = choose|path: Seq<int>|
        #[trigger] is_role_path(ents, seq![id], path) && path.last() == i && forall|q: int|
            0 <= q < path.len() ==> !marked[path[q]];
    let longer = path.push(j);
    assert forall|q: int| 0 <= q < longer.len() - 1 implies role_edge(ents, #[trigger] longer[q], longer[q + 1]) by {
        if q < path.len() - 1 {
            assert(longer[q] == path[q] && longer[q + 1] == path[q + 1]);
        }
    }
    assert forall|q: int| 0 <= q < longer.len() implies !marked[longer[q]] by {
        if q < path.len() {
            assert(longer[q] == path[q]);
        }
    }
    assert(is_role_path(ents, seq![id], longer));
}

proof fn lemma_fresh_reachable_is_reachable(ents: RoleEntries, marked: Seq<bool>, id: RoleIdView, j: int)
    requires
        fresh_reachable(ents, marked, id, j),
    ensures
        reachable(ents, seq![id], j),
{
    let path = choose|path: Seq<int>|
        #[trigger] is_role_path(ents, seq![id], path) && path.last() == j && forall|q: int|
            0 <= q < path.len() ==> !marked[path[q]];
    assert(is_role_path(ents, seq![id], path) && path.last() == j);
}

/// Along a fresh path from the start `i0`, every entry is marked when the
/// start is and every newly marked entry has its parents marked.
proof fn lemma_fresh_path_marked(
    ents: RoleEntries,
    old_marked: Seq<bool>,
    marked: Seq<bool>,
    id: RoleIdView,
    i0: int,
    path: Seq<int>,
    q: int,
)
    requires
        ids_unique(ents),
        0 <= i0 < ents.len(),
        ents[i0].0 == id,
        marked[i0],
        marked.len() == ents.len(),
        forall|i: int, j: int| #[trigger] role_edge(ents, i, j) && marked[i] && !old_marked[i] ==> marked[j],
        is_role_path(ents, seq![id], path),
        forall|r: int| 0 <= r < path.len() ==> !old_marked[path[r]],
        0 <= q < path.len(),
    ensures
        marked[path[q]],
    decreases q,
{
    if q == 0 {
        assert(seq![id].contains(ents[path[0]].0));
        assert(seq![id][0] == id);
        assert(ents[path[0]].0 == ents[i0].0);
        assert(path[0] == i0);
    } else {
        lemma_fresh_path_marked(ents, old_marked, marked, id, i0, path, q - 1);
        assert(role_edge(ents, path[q - 1], path[q - 1 + 1]));
        assert(!old_marked[path[q - 1]]);
    }
}

impl RoleDB {
    /// Marks the role `id` and its ancestors in `marked`, which is indexed
    /// like the database's entries: a role already marked is not looked into
    /// again, and roles that are not stored are ignored. So the entries newly
    /// marked are exactly those reached from `id` through parent links over
    /// entries that were not marked before.
    pub fn tally_role(&self, marked: &mut Vec<bool>, id: &RoleIdentifier)
        requires
            self.wf(),
            old(marked)@.len() == self@.len(),
        ensures
            final(marked)@.len() == self@.len(),
            forall|i: int|
                0 <= i < self@.len() ==> (#[trigger] final(marked)@[i] <==> (old(marked)@[i] || fresh_reachable(
                    self@,
                    old(marked)@,
                    id@,
                    i,
                ))),
            closed_under_parents(self@, old(marked)@) ==> closed_under_parents(self@, final(marked)@),
            find_entry(self@, id@) matches Some(i) ==> final(marked)@[i],
            forall|i: int|
                0 <= i < self@.len() && #[trigger] final(marked)@[i] && !old(marked)@[i] ==> reachable(
                    self@,
                    seq![id@],
                    i,
                ),
    {
        let ghost ents = self@;
        let ghost idv = id@;
        let ghost old_marked = marked@;
        let i0 = match self.index_of(id) {
            Some(i0) => i0,
            None => {
                assert forall|i: int| 0 <= i < ents.len() implies !fresh_reachable(ents, old_marked, idv, i) by {
                    if fresh_reachable(ents, old_marked, idv, i) {
                        let path = choose|path: Seq<int>|
                            #[trigger] is_role_path(ents, seq![idv], path) && path.last() == i && forall|q: int|
                                0 <= q < path.len() ==> !old_marked[path[q]];
                        assert(seq![idv].contains(ents[path[0]].0));
                        assert(seq![idv][0] == idv);
                    }
                }
                return;
            },
        };
        if marked[i0] {
            assert forall|i: int| 0 <= i < ents.len() implies !fresh_reachable(ents, old_marked, idv, i) by {
                if fresh_reachable(ents, old_marked, idv, i) {
                    let path = choose|path: Seq<int>|
                        #[trigger] is_role_path(ents, seq![idv], path) && path.last() == i && forall|q: int|
                            0 <= q < path.len() ==> !old_marked[path[q]];
                    assert(seq![idv].contains(ents[path[0]].0));
                    assert(seq![idv][0] == idv);
                    assert(ents[path[0]].0 == ents[i0 as int].0);
                    assert(path[0] == i0);
                }
            }
            proof {
                let k = choose|k: int| 0 <= k < ents.len() && (#[trigger] ents[k]).0 == idv;
                assert(ents[k].0 == ents[i0 as int].0);
            }
            return;
        }
        proof {
            lemma_fresh_start(ents, old_marked, idv, i0 as int);
            lemma_count_unmarked_mark(old_marked, i0 as int);
        }
        marked.set(i0, true);
        let mut stack: Vec<usize> = Vec::new();
        stack.push(i0);
        assert(stack@[0] as int == i0 as int);
        while stack.len() > 0
            invariant
                ents == self@,
                ids_unique(ents),
                idv == id@,
                i0 < ents.len(),
                ents[i0 as int].0 == idv,
                marked@.len() == ents.len(),
                old_marked.len() == ents.len(),
                marked@[i0 as int],
                !old_marked[i0 as int],
                forall|i: int| 0 <= i < ents.len() && old_marked[i] ==> #[trigger] marked@[i],
                forall|q: int|
                    0 <= q < stack@.len() ==> #[trigger] stack@[q] < ents.len() && marked@[stack@[q] as int]
                        && !old_marked[stack@[q] as int],
                forall|i: int|
                    0 <= i < ents.len() && #[trigger] marked@[i] && !old_marked[i] ==> fresh_reachable(
                        ents,
                        old_marked,
                        idv,
                        i,
                    ),
                forall|i: int, j: int|
                    #[trigger] role_edge(ents, i, j) && marked@[i] && !old_marked[i] && !in_stack(stack@, i)
                        ==> marked@[j],
            decreases count_unmarked(marked@) + stack@.len(),
        {
            let ghost before = count_unmarked(marked@) + stack@.len();
            let ghost stack_before_pop = stack@;
            let i = stack.pop().unwrap();
            assert(marked@[i as int] && !old_marked[i as int]) by {
                assert(stack_before_pop[stack_before_pop.len() - 1] == i);
            }
            assert forall|x: int| x != i && !in_stack(stack@, x) implies !in_stack(stack_before_pop, x) by {
                if in_stack(stack_before_pop, x) {
                    let q = choose|q: int| 0 <= q < stack_before_pop.len() && stack_before_pop[q] as int == x;
                    assert(stack@[q] == stack_before_pop[q]);
                }
            }
            let role = &self.entries[i].1;
            let parents = &role.parents;
            let m = parents.len();
            let mut q: usize = 0;
            while q < m
                invariant
                    ents == self@,
                    ids_unique(ents),
                    idv == id@,
                    i < ents.len(),
                    i0 < ents.len(),
                    ents[i0 as int].0 == idv,
                    m == parents@.len(),
                    ents[i as int].1.parents == parents@.map_values(|p: RoleIdentifier| p@),
                    q <= m,
                    marked@.len() == ents.len(),
                    old_marked.len() == ents.len(),
                    marked@[i0 as int],
                    !old_marked[i0 as int],
                    marked@[i as int],
                    !old_marked[i as int],
                    fresh_reachable(ents, old_marked, idv, i as int),
                    forall|x: int| 0 <= x < ents.len() && old_marked[x] ==> #[trigger] marked@[x],
                    forall|r: int|
                        0 <= r < stack@.len() ==> #[trigger] stack@[r] < ents.len() && marked@[stack@[r] as int]
                            && !old_marked[stack@[r] as int],
                    forall|x: int|
                        0 <= x < ents.len() && #[trigger] marked@[x] && !old_marked[x] ==> fresh_reachable(
                            ents,
                            old_marked,
                            idv,
                            x,
                        ),
                    forall|x: int, j: int|
                        #[trigger] role_edge(ents, x, j) && marked@[x] && !old_marked[x] && x != i && !in_stack(
                            stack@,
                            x,
                        ) ==> marked@[j],
                    forall|j: int|
                        0 <= j < ents.len() && (exists|r: int| 0 <= r < q && (#[trigger] parents@[r])@ == ents[j].0)
                            ==> marked@[j],
                    count_unmarked(marked@) + stack@.len() < before,
                decreases m - q,
            {
                let ghost prev_stack = stack@;
                match self.index_of(&parents[q]) {
                    Some(j) => {
                        assert(role_edge(ents, i as int, j as int)) by {
                            assert(ents[i as int].1.parents[q as int] == ents[j as int].0);
                        }
                        if !marked[j] {
                            proof {
                                lemma_count_unmarked_mark(marked@, j as int);
                                lemma_fresh_step(ents, old_marked, idv, i as int, j as int);
                            }
                            marked.set(j, true);
                            stack.push(j);
                            assert forall|x: int, y: int|
                                #[trigger] role_edge(ents, x, y) && marked@[x] && !old_marked[x] && x != i
                                    && !in_stack(stack@, x) implies marked@[y] by {
                                if x != j {
                                    if in_stack(prev_stack, x) {
                                        let r = choose|r: int| 0 <= r < prev_stack.len() && prev_stack[r] as int == x;
                                        assert(stack@[r] as int == x);
                                    }
                                } else {
                                    assert(stack@[stack@.len() - 1] == j);
                                }
                            }
                        }
                    },
                    None => {},
                }
                assert forall|j: int|
                    0 <= j < ents.len() && (exists|r: int| 0 <= r < q + 1 && (#[trigger] parents@[r])@ == ents[j].0)
                        implies marked@[j] by {
                    let r = choose|r: int| 0 <= r < q + 1 && (#[trigger] parents@[r])@ == ents[j].0;
                    if r == q {
                        assert(ents[j].0 == parents@[q as int]@);
                    }
                }
                q = q + 1;
            }
            assert forall|x: int, j: int|
                #[trigger] role_edge(ents, x, j) && marked@[x] && !old_marked[x] && !in_stack(stack@, x)
                    implies marked@[j] by {
                if x == i {
                    let r = choose|r: int| 0 <= r < ents[x].1.parents.len() && ents[x].1.parents[r] == ents[j].0;
                    assert(parents@[r]@ == ents[j].0);
                }
            }
        }
        let ghost fin = marked@;
        assert forall|x: int, j: int| #[trigger] role_edge(ents, x, j) && fin[x] && !old_marked[x] implies fin[j] by {
            assert(!in_stack(stack@, x));
        }
        assert forall|i: int| 0 <= i < ents.len() && fresh_reachable(ents, old_marked, idv, i) implies fin[i] by {
            let path = choose|path: Seq<int>|
                #[trigger] is_role_path(ents, seq![idv], path) && path.last() == i && forall|q: int|
                    0 <= q < path.len() ==> !old_marked[path[q]];
            lemma_fresh_path_marked(ents, old_marked, fin, idv, i0 as int, path, path.len() - 1);
        }
        assert forall|i: int| 0 <= i < ents.len() && #[trigger] fin[i] && !old_marked[i] implies reachable(
            ents,
            seq![idv],
            i,
        ) by {
            lemma_fresh_reachable_is_reachable(ents, old_marked, idv, i);
        }
        proof {
            if closed_under_parents(ents, old_marked) {
                assert forall|x: int, j: int| #[trigger] role_edge(ents, x, j) && fin[x] implies fin[j] by {
                    if old_marked[x] {
                        assert(old_marked[j]);
                    }
                }
            }
            let k = choose|k: int| 0 <= k < ents.len() && (#[trigger] ents[k]).0 == idv;
            assert(ents[k].0 == ents[i0 as int].0);
        }
    }

    /// The database of a role file: each role under the local identifier of
    /// source `lmdb` named by its key; a later entry with the same key
    /// replaces an earlier one. It holds no other roles.
    pub fn from_role_file(entries: Vec<(String, Role)>) -> (db: RoleDB)
        ensures
            db.wf(),
            forall|key: Seq<char>|
                match #[trigger] role_file_role(entries@, key) {
                    Some(r) => find_entry(db@, role_file_id(key)) matches Some(k) && db@[k].1 == r,
                    None => find_entry(db@, role_file_id(key)) is None,
                },
            forall|id: RoleIdView|
                #[trigger] find_entry(db@, id) is Some ==> exists|key: Seq<char>|
                    id == role_file_id(key) && (#[trigger] role_file_role(entries@, key)) is Some,
    {
        let ghost all = entries@;
        let mut rest = entries;
        let mut db = RoleDB::new();
        let ghost mut done: int = 0;
        let lmdb = "lmdb";
        proof {
            reveal_strlit("lmdb");
        }
        while rest.len() > 0
            invariant
                db.wf(),
                0 <= done <= all.len(),
                rest@ == all.subrange(done, all.len() as int),
                forall|key: Seq<char>|
                    match #[trigger] role_file_role(all.take(done), key) {
                        Some(r) => find_entry(db@, role_file_id(key)) matches Some(k) && db@[k].1 == r,
                        None => find_entry(db@, role_file_id(key)) is None,
                    },
                forall|id: RoleIdView|
                    #[trigger] find_entry(db@, id) is Some ==> exists|key: Seq<char>|
                        id == role_file_id(key) && (#[trigger] role_file_role(all.take(done), key)) is Some,
                lmdb@ == "lmdb"@,
            decreases rest@.len(),
        {
            let (key, role) = rest.remove(0);
            let ghost kv = key@;
            let ghost rv = role@;
            let ghost old_db = db@;
            assert(all[done] == (key, role));
            assert(all.take(done + 1).drop_last() =~= all.take(done));
            let id = RoleIdentifier::local_from_str(String::from_str(lmdb), key);
            db.insert(id, role);
            proof {
                assert forall|k2: Seq<char>| match #[trigger] role_file_role(all.take(done + 1), k2) {
                    Some(r) => find_entry(db@, role_file_id(k2)) matches Some(k) && db@[k].1 == r,
                    None => find_entry(db@, role_file_id(k2)) is None,
                } by {
                    if k2 != kv {
                        assert(role_file_id(k2) != role_file_id(kv));
                        assert(role_file_role(all.take(done + 1), k2) == role_file_role(all.take(done), k2));
                        if let Some(k) = find_entry(old_db, role_file_id(k2)) {
                            assert(old_db[k].0 == role_file_id(k2)) by {
                                assert(exists|i: int| 0 <= i < old_db.len() && (#[trigger] old_db[i]).0 == role_file_id(k2));
                            }
                        }
                    }
                }
                assert forall|id2: RoleIdView| #[trigger] find_entry(db@, id2) is Some implies exists|k2: Seq<char>|
                    id2 == role_file_id(k2) && (#[trigger] role_file_role(all.take(done + 1), k2)) is Some by {
                    if id2 == role_file_id(kv) {
                        assert(role_file_role(all.take(done + 1), kv) is Some);
                    } else {
                        let k2 = choose|k2: Seq<char>|
                            id2 == role_file_id(k2) && (#[trigger] role_file_role(all.take(done), k2)) is Some;
                        assert(k2 != kv);
                        assert(role_file_role(all.take(done + 1), k2) == role_file_role(all.take(done), k2));
                    }
                }
                done = done + 1;
            }
        }
        assert(all.take(done) =~= all);
        db
    }

    /// Does any of the given roles, or any of their ancestors, have a rule
    /// granting `perm`?
    pub fn check_roles(&self, roles: &Vec<RoleIdentifier>, perm: &Permission) -> (r: bool)
        requires
            self.wf(),
        ensures
            r == roles_grant(self@, roles@.map_values(|x: RoleIdentifier| x@), perm@),
    {
        let ghost ents = self@;
        let ghost starts = roles@.map_values(|x: RoleIdentifier| x@);
        let n = self.entries.len();
        let mut marked: Vec<bool> = Vec::new();
        let mut j: usize = 0;
        while j < n
            invariant
                n == self@.len(),
                j <= n,
                marked@.len() == j,
                forall|x: int| 0 <= x < j ==> !(#[trigger] marked@[x]),
            decreases n - j,
        {
            marked.push(false);
            j = j + 1;
        }
        let k = roles.len();
        let mut t: usize = 0;
        while t < k
            invariant
                ents == self@,
                self.wf(),
                ids_unique(ents),
                starts == roles@.map_values(|x: RoleIdentifier| x@),
                k == roles@.len(),
                t <= k,
                marked@.len() == ents.len(),
                closed_under_parents(ents, marked@),
                forall|x: int| 0 <= x < ents.len() && #[trigger] marked@[x] ==> reachable(ents, starts.take(t as int), x),
                forall|x: int| 0 <= x < ents.len() && starts.take(t as int).contains(#[trigger] ents[x].0) ==> marked@[x],
            decreases k - t,
        {
            let ghost before = marked@;
            self.tally_role(&mut marked, &roles[t]);
            proof {
                let next = starts.take(t + 1);
                assert(starts.take(t as int) =~= next.drop_last());
                assert forall|y: RoleIdView| starts.take(t as int).contains(y) implies next.contains(y) by {
                    let r = choose|r: int| 0 <= r < t && starts.take(t as int)[r] == y;
                    assert(next[r] == y);
                }
                assert forall|y: RoleIdView| seq![roles@[t as int]@].contains(y) implies next.contains(y) by {
                    assert(next[t as int] == roles@[t as int]@);
                }
                assert forall|x: int| 0 <= x < ents.len() && #[trigger] marked@[x] implies reachable(ents, next, x) by {
                    if before[x] {
                        lemma_reachable_mono(ents, starts.take(t as int), next, x);
                    } else {
                        lemma_reachable_mono(ents, seq![roles@[t as int]@], next, x);
                    }
                }
                assert forall|x: int| 0 <= x < ents.len() && next.contains(#[trigger] ents[x].0) implies marked@[x] by {
                    let r = choose|r: int| 0 <= r < next.len() && next[r] == ents[x].0;
                    if r < t {
                        assert(starts.take(t as int)[r] == ents[x].0);
                    } else {
                        assert(ents[x].0 == roles@[t as int]@);
                        let fi = find_entry(ents, ents[x].0);
                        assert(fi is Some);
                        assert(ents[fi->0].0 == ents[x].0);
                    }
                }
            }
            t = t + 1;
        }
        assert(starts.take(k as int) =~= starts);
        let mut e: usize = 0;
        while e < n
            invariant
                ents == self@,
                n == ents.len(),
                e <= n,
                marked@.len() == n,
                closed_under_parents(ents, marked@),
                forall|x: int| 0 <= x < n && #[trigger] marked@[x] ==> reachable(ents, starts, x),
                forall|x: int| 0 <= x < n && starts.contains(#[trigger] ents[x].0) ==> marked@[x],
                starts == roles@.map_values(|x: RoleIdentifier| x@),
                forall|x: int| 0 <= x < e && marked@[x] ==> !role_grants_directly(#[trigger] ents[x].1, perm@),
            decreases n - e,
        {
            if marked[e] {
                let g = self.entries[e].1.grants(perm);
                if g {
                    assert(reachable(ents, starts, e as int) && role_grants_directly(ents[e as int].1, perm@));
                    return true;
                }
            }
            e = e + 1;
        }
        assert forall|x: int| reachable(ents, starts, x) implies !role_grants_directly(#[trigger] ents[x].1, perm@) by {
            lemma_closed_marks_reachable(ents, starts, marked@, x);
        }
        false
    }
}

} // verus!

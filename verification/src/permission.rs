//! Permission strings and rules.
//!
//! A permission is a dot-separated path such as `lab.printer.use`.
//! Permissions on the same path can be compared for specificity: a parent is
//! greater than every permission below it, so `bffh.perm > bffh.perm.sub`,
//! while two permissions on different branches are incomparable.

use vstd::prelude::*;
use core::cmp::Ordering;
use vstd::utf8::*;
use crate::text::{split_on, split_by};
use vstd::string::StringSliceAdditionalSpecFns;

verus! {

/// `a` names a strict ancestor of `b` in the permission tree: `b` starts with
/// `a` followed by a separator.
pub open spec fn is_ancestor(a: Seq<char>, b: Seq<char>) -> bool {
    &&& a.len() < b.len()
    &&& b.subrange(0, a.len() as int) == a
    &&& b[a.len() as int] == '.'
}

/// How two permission paths relate in the permission tree.
#[derive(PartialEq, Eq, Structural, Clone, Copy, Debug)]
pub enum PathRelation {
    /// Both name the same node.
    Same,
    /// The first names a strict ancestor of the second.
    Ancestor,
    /// The first names a strict descendant of the second.
    Descendant,
    /// The two lie on different branches.
    Unrelated,
}

/// The relation of path `a` to path `b`.
pub open spec fn path_relation(a: Seq<char>, b: Seq<char>) -> PathRelation {
    if a == b {
        PathRelation::Same
    } else if is_ancestor(a, b) {
        PathRelation::Ancestor
    } else if is_ancestor(b, a) {
        PathRelation::Descendant
    } else {
        PathRelation::Unrelated
    }
}

/// The specificity order on permission paths: an ancestor is greater than
/// its descendants.
pub open spec fn perm_order(a: Seq<char>, b: Seq<char>) -> Option<Ordering> {
    match path_relation(a, b) {
        PathRelation::Same => Some(Ordering::Equal),
        PathRelation::Ancestor => Some(Ordering::Greater),
        PathRelation::Descendant => Some(Ordering::Less),
        PathRelation::Unrelated => None,
    }
}

proof fn lemma_ancestor_transitive(a: Seq<char>, b: Seq<char>, c: Seq<char>)
    requires
        is_ancestor(a, b),
        is_ancestor(b, c),
    ensures
        is_ancestor(a, c),
{
    assert(c.subrange(0, a.len() as int) =~= b.subrange(0, a.len() as int)) by {
        assert forall|i: int| 0 <= i < a.len() implies c.subrange(0, a.len() as int)[i] == b.subrange(
            0,
            a.len() as int,
        )[i] by {
            assert(c.subrange(0, b.len() as int)[i] == c[i]);
        }
    }
    assert(c[a.len() as int] == c.subrange(0, b.len() as int)[a.len() as int]);
}

/// Permissions are ordered by specificity as a partial order: comparing the
/// other way round gives the reverse answer, a permission is equal only to
/// itself, and being more general is transitive.
pub proof fn law_permission_order(a: Seq<char>, b: Seq<char>, c: Seq<char>)
    ensures
        perm_order(a, a) == Some(Ordering::Equal),
        perm_order(a, b) == Some(Ordering::Equal) <==> a == b,
        perm_order(a, b) == Some(Ordering::Greater) <==> perm_order(b, a) == Some(Ordering::Less),
        perm_order(a, b) is None <==> perm_order(b, a) is None,
        perm_order(a, b) == Some(Ordering::Greater) && perm_order(b, c) == Some(Ordering::Greater)
            ==> perm_order(a, c) == Some(Ordering::Greater),
{
    if is_ancestor(a, b) && is_ancestor(b, c) {
        lemma_ancestor_transitive(a, b, c);
    }
}

/// Computes how path `a` relates to path `b`, comparing them character by
/// character.
pub fn relate_paths(a: &str, b: &str) -> (r: PathRelation)
    ensures
        r == path_relation(a@, b@),
{
    let n = a.unicode_len();
    let m = b.unicode_len();
    let k = if n < m { n } else { m };
    let mut i: usize = 0;
    while i < k
        invariant
            n == a@.len(),
            m == b@.len(),
            k <= n,
            k <= m,
            k == n || k == m,
            i <= k,
            forall|j: int| 0 <= j < i ==> a@[j] == b@[j],
        decreases k - i,
    {
        if a.get_char(i) != b.get_char(i) {
            assert(a@ != b@);
            assert(!is_ancestor(a@, b@) && !is_ancestor(b@, a@)) by {
                if is_ancestor(a@, b@) {
                    assert(b@.subrange(0, a@.len() as int)[i as int] == b@[i as int]);
                }
                if is_ancestor(b@, a@) {
                    assert(a@.subrange(0, b@.len() as int)[i as int] == a@[i as int]);
                }
            }
            return PathRelation::Unrelated;
        }
        i = i + 1;
    }
    if n == m {
        assert(a@ =~= b@);
        PathRelation::Same
    } else if n < m {
        assert(b@.subrange(0, a@.len() as int) =~= a@);
        if b.get_char(n) == '.' {
            PathRelation::Ancestor
        } else {
            PathRelation::Unrelated
        }
    } else {
        assert(a@.subrange(0, b@.len() as int) =~= b@);
        if a.get_char(m) == '.' {
            PathRelation::Descendant
        } else {
            PathRelation::Unrelated
        }
    }
}

/// The path the segments `segs` make, joined with separators.
pub open spec fn join_segments(segs: Seq<Seq<char>>) -> Seq<char>
    decreases segs.len(),
{
    if segs.len() == 0 {
        Seq::<char>::empty()
    } else if segs.len() == 1 {
        segs[0]
    } else {
        join_segments(segs.drop_last()) + seq!['.'] + segs.last()
    }
}

/// Whether the segments `a` are a strict prefix of the segments `b`.
pub open spec fn strict_segment_prefix(a: Seq<Seq<char>>, b: Seq<Seq<char>>) -> bool {
    a.len() < b.len() && b.subrange(0, a.len() as int) == a
}

/// How two permissions compare segment by segment: equal when they have
/// the same segments, the first more general when its segments begin the
/// second's, the reverse, or not at all.
pub open spec fn segment_order(a: Seq<Seq<char>>, b: Seq<Seq<char>>) -> Option<Ordering> {
    if a == b {
        Some(Ordering::Equal)
    } else if strict_segment_prefix(a, b) {
        Some(Ordering::Greater)
    } else if strict_segment_prefix(b, a) {
        Some(Ordering::Less)
    } else {
        None
    }
}

proof fn lemma_join_push_char(segs: Seq<Seq<char>>, c: char)
    requires
        segs.len() > 0,
    ensures
        join_segments(segs.update(segs.len() - 1, segs.last().push(c))) == join_segments(segs).push(c),
{
    let t = segs.update(segs.len() - 1, segs.last().push(c));
    if segs.len() > 1 {
        assert(t.drop_last() =~= segs.drop_last());
    }
}

proof fn lemma_join_split(s: Seq<char>)
    ensures
        join_segments(split_on(s, '.')) == s,
    decreases s.len(),
{
    if s.len() > 0 {
        let prev = split_on(s.drop_last(), '.');
        crate::text::lemma_split_on_nonempty(s.drop_last(), '.');
        lemma_join_split(s.drop_last());
        if s.last() == '.' {
            let t = prev.push(Seq::<char>::empty());
            assert(t.drop_last() =~= prev);
            assert(join_segments(t) =~= s.drop_last() + seq!['.'] + Seq::<char>::empty());
            assert(s.drop_last().push(s.last()) =~= s);
        } else {
            lemma_join_push_char(prev, s.last());
            assert(s.drop_last().push(s.last()) =~= s);
        }
    }
}

proof fn lemma_split_concat(x: Seq<char>, y: Seq<char>)
    ensures
        split_on(x + seq!['.'] + y, '.') == split_on(x, '.') + split_on(y, '.'),
    decreases y.len(),
{
    let s = x + seq!['.'] + y;
    crate::text::lemma_split_on_nonempty(x, '.');
    if y.len() == 0 {
        assert(s.drop_last() =~= x);
        assert(split_on(y, '.') =~= seq![Seq::<char>::empty()]);
        assert(split_on(s, '.') =~= split_on(x, '.') + split_on(y, '.'));
    } else {
        lemma_split_concat(x, y.drop_last());
        crate::text::lemma_split_on_nonempty(y.drop_last(), '.');
        assert(s.drop_last() =~= x + seq!['.'] + y.drop_last());
        assert(s.last() == y.last());
        let py = split_on(y.drop_last(), '.');
        let px = split_on(x, '.');
        if y.last() == '.' {
            assert(split_on(s, '.') =~= px + py.push(Seq::<char>::empty()));
        } else {
            assert((px + py).update(px.len() + py.len() - 1, (px + py).last().push(y.last())) =~= px + py.update(
                py.len() - 1,
                py.last().push(y.last()),
            ));
        }
    }
}

proof fn lemma_join_concat(a: Seq<Seq<char>>, b: Seq<Seq<char>>)
    requires
        a.len() > 0,
        b.len() > 0,
    ensures
        join_segments(a + b) == join_segments(a) + seq!['.'] + join_segments(b),
    decreases b.len(),
{
    if b.len() == 1 {
        assert((a + b).drop_last() =~= a);
    } else {
        lemma_join_concat(a, b.drop_last());
        assert((a + b).drop_last() =~= a + b.drop_last());
        assert(join_segments(a + b) =~= join_segments(a) + seq!['.'] + join_segments(b));
    }
}

proof fn lemma_ancestor_iff_prefix(a: Seq<char>, b: Seq<char>)
    ensures
        is_ancestor(a, b) <==> strict_segment_prefix(split_on(a, '.'), split_on(b, '.')),
{
    let sa = split_on(a, '.');
    let sb = split_on(b, '.');
    crate::text::lemma_split_on_nonempty(a, '.');
    if is_ancestor(a, b) {
        let rest = b.subrange(a.len() as int + 1, b.len() as int);
        assert(b =~= a + seq!['.'] + rest);
        lemma_split_concat(a, rest);
        crate::text::lemma_split_on_nonempty(rest, '.');
        assert(sb.subrange(0, sa.len() as int) =~= sa);
    }
    if strict_segment_prefix(sa, sb) {
        let t = sb.subrange(sa.len() as int, sb.len() as int);
        assert(sb =~= sa + t);
        lemma_join_concat(sa, t);
        lemma_join_split(a);
        lemma_join_split(b);
        assert(b =~= a + seq!['.'] + join_segments(t));
        assert(b.subrange(0, a.len() as int) =~= a);
    }
}

/// Comparing two permissions by specificity is comparing their dot-separated
/// segments: equal segments, or the segments of the more general one
/// beginning those of the other.
pub proof fn law_permission_order_by_segments(a: Seq<char>, b: Seq<char>)
    ensures
        perm_order(a, b) == segment_order(split_segments(a), split_segments(b)),
{
    lemma_ancestor_iff_prefix(a, b);
    lemma_ancestor_iff_prefix(b, a);
    lemma_join_split(a);
    lemma_join_split(b);
}

/// A borrowed permission string.
///
/// Permissions have total equality and partial ordering: permissions on the
/// same path in the tree can be compared for specificity.
#[derive(Debug)]
pub struct Permission {
    inner: String,
}

impl View for Permission {
    type V = Seq<char>;

    closed spec fn view(&self) -> Seq<char> {
        self.inner@
    }
}

impl Permission {
    /// The permission as a string slice.
    pub fn as_str(&self) -> (s: &str)
        ensures
            s@ == self@,
    {
        self.inner.as_str()
    }

    /// Compares two permissions for specificity.
    pub fn compare(&self, other: &Permission) -> (r: Option<Ordering>)
        ensures
            r == perm_order(self@, other@),
    {
        match relate_paths(self.inner.as_str(), other.inner.as_str()) {
            PathRelation::Same => Some(Ordering::Equal),
            PathRelation::Ancestor => Some(Ordering::Greater),
            PathRelation::Descendant => Some(Ordering::Less),
            PathRelation::Unrelated => None,
        }
    }
}

/// The segments of a permission path, split at every separator.
pub open spec fn split_segments(s: Seq<char>) -> Seq<Seq<char>> {
    split_on(s, '.')
}

/// `s` with `p` appended, putting a separator in between unless `s` is empty
/// or already ends with one.
pub open spec fn push_path(s: Seq<char>, p: Seq<char>) -> Seq<char> {
    if s.len() > 0 && s.last() != '.' {
        s + seq!['.'] + p
    } else {
        s + p
    }
}

pub assume_specification[ String::with_capacity ](capacity: usize) -> (s: String)
    ensures
        s@ == Seq::<char>::empty(),
;

impl Permission {
    /// A permission naming the given path.
    pub fn new(s: &str) -> (p: Permission)
        ensures
            p@ == s@,
    {
        Permission { inner: String::from_str(s) }
    }

    /// The segments of the path, in order.
    pub fn iter(&self) -> (segs: Vec<String>)
        ensures
            segs@.len() == split_segments(self@).len(),
            forall|i: int| 0 <= i < segs@.len() ==> #[trigger] segs@[i]@ == split_segments(self@)[i],
    {
        split_by(self.inner.as_str(), '.')
    }
}

impl PartialEq for Permission {
    fn eq(&self, other: &Permission) -> (r: bool) {
        self.inner == other.inner
    }
}

impl vstd::std_specs::cmp::PartialEqSpecImpl for Permission {
    open spec fn obeys_eq_spec() -> bool {
        true
    }

    open spec fn eq_spec(&self, other: &Permission) -> bool {
        self@ == other@
    }
}

impl Eq for Permission {
}

impl PartialOrd for Permission {
    fn partial_cmp(&self, other: &Permission) -> (r: Option<Ordering>) {
        self.compare(other)
    }
}

impl vstd::std_specs::cmp::PartialOrdSpecImpl for Permission {
    open spec fn obeys_partial_cmp_spec() -> bool {
        true
    }

    open spec fn partial_cmp_spec(&self, other: &Permission) -> Option<Ordering> {
        perm_order(self@, other@)
    }
}

/// An owned permission string.
#[derive(Debug)]
pub struct PermissionBuf {
    inner: Permission,
}

impl View for PermissionBuf {
    type V = Seq<char>;

    closed spec fn view(&self) -> Seq<char> {
        self.inner@
    }
}

impl PermissionBuf {
    /// An empty permission.
    pub fn new() -> (p: PermissionBuf)
        ensures
            p@ == Seq::<char>::empty(),
    {
        PermissionBuf { inner: Permission { inner: String::new() } }
    }

    /// An empty permission whose string has room for `cap` bytes.
    pub fn with_capacity(cap: usize) -> (p: PermissionBuf)
        ensures
            p@ == Seq::<char>::empty(),
    {
        PermissionBuf { inner: Permission { inner: String::with_capacity(cap) } }
    }

    /// The permission this buffer holds.
    pub fn as_permission(&self) -> (p: &Permission)
        ensures
            p@ == self@,
    {
        &self.inner
    }

    /// The permission as a string slice.
    pub fn as_str(&self) -> (s: &str)
        ensures
            s@ == self@,
    {
        self.inner.inner.as_str()
    }

    /// Appends `perm` as further path segments.
    pub fn push(&mut self, perm: &Permission)
        ensures
            final(self)@ == push_path(old(self)@, perm@),
    {
        self._push(perm)
    }

    /// Appends `perm`, adding a separator unless this permission is empty or
    /// already ends with one.
    pub fn _push(&mut self, perm: &Permission)
        ensures
            final(self)@ == push_path(old(self)@, perm@),
    {
        let n = self.inner.inner.as_str().unicode_len();
        let need_sep = n > 0 && self.inner.inner.as_str().get_char(n - 1) != '.';
        if need_sep {
            let sep = ".";
            proof {
                reveal_strlit(".");
            }
            self.inner.inner.append(sep);
        }
        self.inner.inner.append(perm.inner.as_str());
    }

    /// Wraps an owned string.
    pub fn from_string(inner: String) -> (p: PermissionBuf)
        ensures
            p@ == inner@,
    {
        PermissionBuf { inner: Permission { inner } }
    }

    /// The owned string.
    pub fn into_string(self) -> (s: String)
        ensures
            s@ == self@,
    {
        self.inner.inner
    }
}

impl Clone for PermissionBuf {
    fn clone(&self) -> (r: PermissionBuf)
        ensures
            r@ == self@,
    {
        PermissionBuf { inner: Permission { inner: self.inner.inner.clone() } }
    }
}

impl PartialEq for PermissionBuf {
    fn eq(&self, other: &PermissionBuf) -> (r: bool) {
        self.inner.inner == other.inner.inner
    }
}

impl vstd::std_specs::cmp::PartialEqSpecImpl for PermissionBuf {
    open spec fn obeys_eq_spec() -> bool {
        true
    }

    open spec fn eq_spec(&self, other: &PermissionBuf) -> bool {
        self@ == other@
    }
}

impl Eq for PermissionBuf {
}

impl PartialOrd for PermissionBuf {
    fn partial_cmp(&self, other: &PermissionBuf) -> (r: Option<Ordering>) {
        self.inner.compare(&other.inner)
    }
}

impl vstd::std_specs::cmp::PartialOrdSpecImpl for PermissionBuf {
    open spec fn obeys_partial_cmp_spec() -> bool {
        true
    }

    open spec fn partial_cmp_spec(&self, other: &PermissionBuf) -> Option<Ordering> {
        perm_order(self@, other@)
    }
}

/// A rule granting permissions.
#[derive(Debug)]
pub enum PermRule {
    /// The permission is precise, i.e. `Base("bffh.perm")` grants bffh.perm
    /// but does not grant permission for bffh.perm.sub.
    Base(PermissionBuf),
    /// The permission is for the children of the node, i.e.
    /// `Children("bffh.perm")` grants bffh.perm.sub, bffh.perm.sub.two *but
    /// not* bffh.perm itself.
    Children(PermissionBuf),
    /// The permission is for the subtree marked by the node, i.e.
    /// `Subtree("bffh.perm")` grants bffh.perm.sub, bffh.perm.sub.two and also
    /// bffh.perm itself.
    Subtree(PermissionBuf),
}

/// Whether `rule` grants the permission `p`.
pub open spec fn rule_grants(rule: PermRule, p: Seq<char>) -> bool {
    match rule {
        PermRule::Base(base) => base@ == p,
        PermRule::Children(parent) => path_relation(parent@, p) == PathRelation::Ancestor,
        PermRule::Subtree(parent) => path_relation(parent@, p) == PathRelation::Ancestor
            || path_relation(parent@, p) == PathRelation::Same,
    }
}

/// The UTF-8 byte of `.`.
pub open spec fn dot_byte() -> u8 {
    0x2e
}

/// The UTF-8 byte of `+`.
pub open spec fn plus_byte() -> u8 {
    0x2b
}

/// The UTF-8 byte of `*`.
pub open spec fn star_byte() -> u8 {
    0x2a
}

/// The bytes of `s` end in the two bytes `a`, `b`.
pub open spec fn ends_with_bytes(s: Seq<char>, a: u8, b: u8) -> bool {
    let bytes = encode_utf8(s);
    let n = bytes.len();
    n >= 2 && bytes[n - 2] == a && bytes[n - 1] == b
}

/// The string form of a rule read back by [`PermRule::try_from`] lies on
/// character boundaries where the rule inspects it: the parser cuts the last
/// two bytes off, which must not split a character.
pub open spec fn rule_string_splittable(s: Seq<char>) -> bool {
    let bytes = encode_utf8(s);
    let n = bytes.len();
    n > 2 ==> !is_continuation_byte(bytes[n - 2])
}

/// The string a rule is stored as.
pub open spec fn rule_into_string(rule: PermRule) -> Seq<char> {
    match rule {
        PermRule::Base(p) => p@,
        PermRule::Children(p) => push_path(p@, seq!['+']),
        PermRule::Subtree(p) => push_path(p@, seq!['*']),
    }
}

/// The string a rule is displayed as.
pub open spec fn rule_display(rule: PermRule) -> Seq<char> {
    match rule {
        PermRule::Base(p) => p@,
        PermRule::Children(p) => p@ + seq!['.', '+'],
        PermRule::Subtree(p) => p@ + seq!['.', '*'],
    }
}

/// A rule that grants a permission grants every permission below it, except
/// that a `Base` rule grants its one permission only; and a `Subtree` rule
/// grants exactly what the `Base` and `Children` rules on its permission
/// grant together.
pub proof fn law_rules_cover_subtrees(parent: PermissionBuf, q: Seq<char>, r: Seq<char>)
    ensures
        rule_grants(PermRule::Subtree(parent), q) == (rule_grants(PermRule::Base(parent), q)
            || rule_grants(PermRule::Children(parent), q)),
        rule_grants(PermRule::Children(parent), q) && is_ancestor(q, r) ==> rule_grants(
            PermRule::Children(parent),
            r,
        ),
        rule_grants(PermRule::Subtree(parent), q) && is_ancestor(q, r) ==> rule_grants(
            PermRule::Subtree(parent),
            r,
        ),
{
    if is_ancestor(parent@, q) && is_ancestor(q, r) {
        lemma_ancestor_transitive(parent@, q, r);
    }
}

/// A `Base` rule grants exactly the permission it names; a `Children` rule
/// grants every permission strictly below the one it names, but not that
/// one; a `Subtree` rule grants the permission it names and everything below
/// it. Below means: the permission starts with the named one followed by a
/// separator.
pub proof fn law_what_each_rule_grants(parent: PermissionBuf, q: Seq<char>, suffix: Seq<char>)
    ensures
        rule_grants(PermRule::Base(parent), q) <==> q == parent@,
        rule_grants(PermRule::Children(parent), q) <==> is_ancestor(parent@, q),
        rule_grants(PermRule::Subtree(parent), q) <==> (q == parent@ || is_ancestor(parent@, q)),
        !rule_grants(PermRule::Children(parent), parent@),
        rule_grants(PermRule::Subtree(parent), parent@),
        rule_grants(PermRule::Children(parent), parent@ + seq!['.'] + suffix),
        rule_grants(PermRule::Subtree(parent), parent@ + seq!['.'] + suffix),
        suffix.len() > 0 ==> !rule_grants(PermRule::Base(parent), parent@ + seq!['.'] + suffix),
{
    let q2 = parent@ + seq!['.'] + suffix;
    assert(q2.subrange(0, parent@.len() as int) =~= parent@);
    assert(q2[parent@.len() as int] == '.');
    if is_ancestor(parent@, q) {
        assert(q != parent@);
    }
    if suffix.len() > 0 {
        assert(q2.len() > parent@.len());
    }
}

/// A list of rules grants a permission when one of its rules, wherever it
/// stands, grants it: adding a rule keeps every grant and adds that rule's
/// grants, and no rules grant nothing.
pub proof fn law_rule_lists_grant_by_any_rule(rules: Seq<PermRule>, r: PermRule, q: Seq<char>, i: int)
    ensures
        0 <= i < rules.len() && rule_grants(rules[i], q) ==> any_rule_grants(rules, q),
        any_rule_grants(rules.push(r), q) <==> (any_rule_grants(rules, q) || rule_grants(r, q)),
        any_rule_grants(seq![r].add(rules), q) <==> (any_rule_grants(rules, q) || rule_grants(r, q)),
        !any_rule_grants(Seq::<PermRule>::empty(), q),
{
    if any_rule_grants(rules.push(r), q) {
        let k = choose|k: int| 0 <= k < rules.push(r).len() && rule_grants(#[trigger] rules.push(r)[k], q);
        if k < rules.len() {
            assert(rules.push(r)[k] == rules[k]);
        }
    }
    if any_rule_grants(rules, q) {
        let k = choose|k: int| 0 <= k < rules.len() && rule_grants(#[trigger] rules[k], q);
        assert(rules.push(r)[k] == rules[k]);
        assert(seq![r].add(rules)[k + 1] == rules[k]);
    }
    if rule_grants(r, q) {
        assert(rules.push(r)[rules.len() as int] == r);
        assert(seq![r].add(rules)[0] == r);
    }
    if any_rule_grants(seq![r].add(rules), q) {
        let k = choose|k: int| 0 <= k < seq![r].add(rules).len() && rule_grants(#[trigger] seq![r].add(rules)[k], q);
        if k > 0 {
            assert(seq![r].add(rules)[k] == rules[k - 1]);
        }
    }
}

/// The three kinds of rules.
#[derive(PartialEq, Eq, Structural, Clone, Copy, Debug)]
pub enum RuleKind {
    Base,
    Children,
    Subtree,
}

/// A rule's kind and the permission it names.
pub open spec fn rule_parts(rule: PermRule) -> (RuleKind, Seq<char>) {
    match rule {
        PermRule::Base(p) => (RuleKind::Base, p@),
        PermRule::Children(p) => (RuleKind::Children, p@),
        PermRule::Subtree(p) => (RuleKind::Subtree, p@),
    }
}

/// What a string reads as when parsed as a rule: nothing for strings of two
/// bytes or less; a `Children` or `Subtree` rule on what stands before a
/// trailing `.+` or `.*`; else a `Base` rule on the whole string.
pub open spec fn parse_rule(s: Seq<char>) -> Option<(RuleKind, Seq<char>)> {
    let b = encode_utf8(s);
    if b.len() <= 2 {
        None
    } else if ends_with_bytes(s, dot_byte(), plus_byte()) {
        Some((RuleKind::Children, decode_utf8(b.drop_last().drop_last())))
    } else if ends_with_bytes(s, dot_byte(), star_byte()) {
        Some((RuleKind::Subtree, decode_utf8(b.drop_last().drop_last())))
    } else {
        Some((RuleKind::Base, s))
    }
}

/// Two rules are the same kind of rule on the same permission.
pub open spec fn rule_eq(a: PermRule, b: PermRule) -> bool {
    match (a, b) {
        (PermRule::Base(x), PermRule::Base(y)) => x@ == y@,
        (PermRule::Children(x), PermRule::Children(y)) => x@ == y@,
        (PermRule::Subtree(x), PermRule::Subtree(y)) => x@ == y@,
        _ => false,
    }
}

impl PermRule {
    /// Does this rule grant that permission?
    pub fn match_perm(&self, perm: &Permission) -> (r: bool)
        ensures
            r == rule_grants(*self, perm@),
    {
        match self {
            PermRule::Base(base) => *base.as_permission() == *perm,
            PermRule::Children(parent) => *parent.as_permission() > *perm,
            PermRule::Subtree(parent) => *parent.as_permission() >= *perm,
        }
    }

    /// Parses a rule: a trailing `.+` marks a `Children` rule, a trailing
    /// `.*` a `Subtree` rule, anything else a `Base` rule. Strings of two
    /// bytes or less are refused.
    pub fn try_from(input: String) -> (r: Result<PermRule, &'static str>)
        requires
            rule_string_splittable(input@),
        ensures
            encode_utf8(input@).len() <= 2 <==> r is Err,
            encode_utf8(input@).len() > 2 && ends_with_bytes(input@, dot_byte(), plus_byte())
                ==> (r matches Ok(PermRule::Children(p))
                    && encode_utf8(p@) == encode_utf8(input@).drop_last().drop_last()),
            encode_utf8(input@).len() > 2 && ends_with_bytes(input@, dot_byte(), star_byte())
                ==> (r matches Ok(PermRule::Subtree(p))
                    && encode_utf8(p@) == encode_utf8(input@).drop_last().drop_last()),
            encode_utf8(input@).len() > 2 && !ends_with_bytes(input@, dot_byte(), plus_byte())
                && !ends_with_bytes(input@, dot_byte(), star_byte())
                ==> (r matches Ok(PermRule::Base(p)) && p@ == input@),
            match r {
                Ok(rule) => parse_rule(input@) == Some(rule_parts(rule)),
                Err(_) => parse_rule(input@) is None,
            },
    {
        broadcast use vstd::utf8::encode_utf8_decode_utf8;

        let s = input.as_str();
        let bytes = s.as_bytes();
        let len = bytes.len();
        if len <= 2 {
            Err("Input string for PermRule is too short")
        } else {
            let a = bytes[len - 2];
            let b = bytes[len - 1];
            if a == 0x2e && (b == 0x2b || b == 0x2a) {
                proof {
                    broadcast use vstd::utf8::encode_utf8_valid_utf8;
                    vstd::utf8::is_char_boundary_iff_not_is_continuation_byte(s.spec_bytes(), len - 2);
                }
                let (head, _tail) = s.split_at(len - 2);
                let parent = PermissionBuf::from_string(String::from_str(head));
                assert(s.spec_bytes().subrange(0, len - 2) =~= s.spec_bytes().drop_last().drop_last());
                if b == 0x2b {
                    Ok(PermRule::Children(parent))
                } else {
                    Ok(PermRule::Subtree(parent))
                }
            } else {
                Ok(PermRule::Base(PermissionBuf::from_string(input)))
            }
        }
    }

    /// The string this rule is stored as: the permission, and for `Children`
    /// rules a further `+` segment, for `Subtree` rules a further `*`
    /// segment.
    pub fn into_string(self) -> (s: String)
        ensures
            s@ == rule_into_string(self),
    {
        match self {
            PermRule::Base(perm) => perm.into_string(),
            PermRule::Children(perm) => {
                let mut perm = perm;
                let plus = Permission::new("+");
                proof {
                    reveal_strlit("+");
                }
                perm.push(&plus);
                perm.into_string()
            },
            PermRule::Subtree(perm) => {
                let mut perm = perm;
                let star = Permission::new("*");
                proof {
                    reveal_strlit("*");
                }
                perm.push(&star);
                perm.into_string()
            },
        }
    }

    /// The rule as shown to people: `perm`, `perm.+` or `perm.*`.
    pub fn to_string(&self) -> (s: String)
        ensures
            s@ == rule_display(*self),
    {
        match self {
            PermRule::Base(perm) => String::from_str(perm.as_str()),
            PermRule::Children(parent) => {
                let suffix = ".+";
                proof {
                    reveal_strlit(".+");
                }
                String::from_str(parent.as_str()).concat(suffix)
            },
            PermRule::Subtree(parent) => {
                let suffix = ".*";
                proof {
                    reveal_strlit(".*");
                }
                String::from_str(parent.as_str()).concat(suffix)
            },
        }
    }
}

proof fn lemma_encode_utf8_concat(a: Seq<char>, b: Seq<char>)
    ensures
        encode_utf8(a + b) == encode_utf8(a) + encode_utf8(b),
    decreases a.len(),
{
    if a.len() > 0 {
        lemma_encode_utf8_concat(a.drop_first(), b);
        assert((a + b).drop_first() =~= a.drop_first() + b);
        assert((a + b)[0] == a[0]);
        assert(encode_utf8(a + b) =~= encode_scalar(a[0] as u32) + (encode_utf8(a.drop_first()) + encode_utf8(b)));
    } else {
        assert(a + b =~= b);
    }
}

proof fn lemma_encode_nonempty(a: Seq<char>)
    requires
        a.len() > 0,
    ensures
        encode_utf8(a).len() >= a.len(),
    decreases a.len(),
{
    broadcast use vstd::utf8::char_is_scalar;
    if a.len() > 1 {
        lemma_encode_nonempty(a.drop_first());
    }
    assert(encode_scalar(a[0] as u32).len() >= 1);
}

proof fn lemma_encode_suffix(p: Seq<char>, c: char, byte: u8)
    requires
        c as u32 == byte as u32,
        byte < 0x80,
        p.len() > 0,
    ensures
        encode_utf8(p + seq!['.', c]) == encode_utf8(p) + seq![dot_byte(), byte],
        encode_utf8(p).len() >= 1,
{
    lemma_encode_utf8_concat(p, seq!['.', c]);
    lemma_encode_nonempty(p);
    assert(seq!['.', c].drop_first() =~= seq![c]);
    assert(seq![c].drop_first() =~= Seq::<char>::empty());
    assert(('.' as u32) == 0x2e);
    assert((0x2eu32 & 0x7F) as u8 == 0x2eu8) by (bit_vector);
    assert(((byte as u32) & 0x7F) as u8 == byte) by (bit_vector)
        requires
            byte < 0x80,
    ;
    assert(encode_scalar('.' as u32) =~= seq![0x2eu8]);
    assert(encode_scalar(c as u32) =~= seq![byte]);
    assert(encode_utf8(Seq::<char>::empty()) =~= Seq::<u8>::empty());
    assert(encode_utf8(seq![c]) =~= encode_scalar(c as u32) + encode_utf8(Seq::<char>::empty()));
    assert(encode_utf8(seq![c]) =~= seq![byte]);
    assert(encode_utf8(seq!['.', c]) =~= encode_scalar('.' as u32) + encode_utf8(seq![c]));
    assert(encode_utf8(seq!['.', c]) =~= seq![dot_byte(), byte]);
}

/// The displayed form of a rule reads back as the same rule: `perm.+` as a
/// `Children` rule and `perm.*` as a `Subtree` rule on any non-empty
/// permission, and a bare permission as a `Base` rule when it is longer than
/// two bytes and does not itself end in `.+` or `.*`.
pub proof fn law_rule_display_round_trip(r: PermRule)
    requires
        match r {
            PermRule::Base(p) => encode_utf8(p@).len() > 2 && !ends_with_bytes(p@, dot_byte(), plus_byte())
                && !ends_with_bytes(p@, dot_byte(), star_byte()),
            PermRule::Children(p) => p@.len() > 0,
            PermRule::Subtree(p) => p@.len() > 0,
        },
    ensures
        parse_rule(rule_display(r)) == Some(rule_parts(r)),
{
    broadcast use vstd::utf8::encode_utf8_decode_utf8;
    match r {
        PermRule::Base(p) => {},
        PermRule::Children(p) => {
            lemma_encode_suffix(p@, '+', plus_byte());
            let b = encode_utf8(p@ + seq!['.', '+']);
            assert(b.drop_last().drop_last() =~= encode_utf8(p@));
        },
        PermRule::Subtree(p) => {
            lemma_encode_suffix(p@, '*', star_byte());
            let b = encode_utf8(p@ + seq!['.', '*']);
            assert(b.drop_last().drop_last() =~= encode_utf8(p@));
        },
    }
}

/// The stored form of a rule reads back as the same rule: for `Base` rules
/// under the conditions of the displayed form, and for `Children` and
/// `Subtree` rules on any non-empty permission that does not end in a dot.
pub proof fn law_rule_stored_round_trip(r: PermRule)
    requires
        match r {
            PermRule::Base(p) => encode_utf8(p@).len() > 2 && !ends_with_bytes(p@, dot_byte(), plus_byte())
                && !ends_with_bytes(p@, dot_byte(), star_byte()),
            PermRule::Children(p) => p@.len() > 0 && p@.last() != '.',
            PermRule::Subtree(p) => p@.len() > 0 && p@.last() != '.',
        },
    ensures
        parse_rule(rule_into_string(r)) == Some(rule_parts(r)),
{
    broadcast use vstd::utf8::encode_utf8_decode_utf8;
    match r {
        PermRule::Base(p) => {},
        PermRule::Children(p) => {
            assert(push_path(p@, seq!['+']) =~= p@ + seq!['.', '+']);
            lemma_encode_suffix(p@, '+', plus_byte());
            let b = encode_utf8(p@ + seq!['.', '+']);
            assert(b.drop_last().drop_last() =~= encode_utf8(p@));
        },
        PermRule::Subtree(p) => {
            assert(push_path(p@, seq!['*']) =~= p@ + seq!['.', '*']);
            lemma_encode_suffix(p@, '*', star_byte());
            let b = encode_utf8(p@ + seq!['.', '*']);
            assert(b.drop_last().drop_last() =~= encode_utf8(p@));
        },
    }
}

impl Clone for PermRule {
    fn clone(&self) -> (r: PermRule)
        ensures
            rule_eq(r, *self),
    {
        match self {
            PermRule::Base(p) => PermRule::Base(p.clone()),
            PermRule::Children(p) => PermRule::Children(p.clone()),
            PermRule::Subtree(p) => PermRule::Subtree(p.clone()),
        }
    }
}

impl PartialEq for PermRule {
    fn eq(&self, other: &PermRule) -> (r: bool) {
        match (self, other) {
            (PermRule::Base(x), PermRule::Base(y)) => x == y,
            (PermRule::Children(x), PermRule::Children(y)) => x == y,
            (PermRule::Subtree(x), PermRule::Subtree(y)) => x == y,
            _ => false,
        }
    }
}

impl vstd::std_specs::cmp::PartialEqSpecImpl for PermRule {
    open spec fn obeys_eq_spec() -> bool {
        true
    }

    open spec fn eq_spec(&self, other: &PermRule) -> bool {
        rule_eq(*self, *other)
    }
}

impl Eq for PermRule {
}

/// An identifier for a permission rule, of this instance or of another
/// source.
#[derive(Debug)]
pub enum PermIdentifier {
    Local(PermRule),
    Remote(PermRule, String),
}

/// The displayed form of a permission identifier: the rule, and for a
/// remote one `@` and its source.
pub open spec fn perm_identifier_display(id: PermIdentifier) -> Seq<char> {
    match id {
        PermIdentifier::Local(rule) => rule_display(rule),
        PermIdentifier::Remote(rule, source) => rule_display(rule) + seq!['@'] + source@,
    }
}

impl PermIdentifier {
    /// The identifier as shown to people: `rule` or `rule@source`.
    pub fn to_string(&self) -> (s: String)
        ensures
            s@ == perm_identifier_display(*self),
    {
        match self {
            PermIdentifier::Local(rule) => rule.to_string(),
            PermIdentifier::Remote(rule, source) => {
                proof {
                    reveal_strlit("@");
                }
                rule.to_string().concat("@").concat(source.as_str())
            },
        }
    }
}

/// A set of privileges to a thing.
#[derive(Debug)]
pub struct PrivilegesBuf {
    /// Which permission is required to know about the existence of this thing.
    pub disclose: PermissionBuf,
    /// Which permission is required to read this thing.
    pub read: PermissionBuf,
    /// Which permission is required to write parts of this thing.
    pub write: PermissionBuf,
    /// Which permission is required to manage all parts of this thing.
    pub manage: PermissionBuf,
}

impl Clone for PrivilegesBuf {
    fn clone(&self) -> (r: PrivilegesBuf)
        ensures
            r.disclose@ == self.disclose@,
            r.read@ == self.read@,
            r.write@ == self.write@,
            r.manage@ == self.manage@,
    {
        PrivilegesBuf {
            disclose: self.disclose.clone(),
            read: self.read.clone(),
            write: self.write.clone(),
            manage: self.manage.clone(),
        }
    }
}

/// Some rule of `rules` grants `p`.
pub open spec fn any_rule_grants(rules: Seq<PermRule>, p: Seq<char>) -> bool {
    exists|i: int| 0 <= i < rules.len() && rule_grants(#[trigger] rules[i], p)
}

/// Does any of the rules grant the permission?
pub fn rules_grant(rules: &Vec<PermRule>, perm: &Permission) -> (r: bool)
    ensures
        r == any_rule_grants(rules@, perm@),
{
    let n = rules.len();
    let mut i: usize = 0;
    while i < n
        invariant
            n == rules@.len(),
            i <= n,
            forall|j: int| 0 <= j < i ==> !rule_grants(#[trigger] rules@[j], perm@),
        decreases n - i,
    {
        if rules[i].match_perm(perm) {
            assert(rule_grants(rules@[i as int], perm@));
            return true;
        }
        i = i + 1;
    }
    false
}

/// Which of a thing's privileges a set of rules grants.
#[derive(Debug, Clone, Copy, PartialEq, Eq, Structural)]
pub struct Perms {
    pub disclose: bool,
    pub read: bool,
    pub write: bool,
    pub manage: bool,
}

impl Perms {
    /// The privileges of `privs` that some rule of `rules` grants.
    pub fn get_for(privs: &PrivilegesBuf, rules: &Vec<PermRule>) -> (p: Perms)
        ensures
            p.disclose == any_rule_grants(rules@, privs.disclose@),
            p.read == any_rule_grants(rules@, privs.read@),
            p.write == any_rule_grants(rules@, privs.write@),
            p.manage == any_rule_grants(rules@, privs.manage@),
    {
        Perms {
            disclose: rules_grant(rules, privs.disclose.as_permission()),
            read: rules_grant(rules, privs.read.as_permission()),
            write: rules_grant(rules, privs.write.as_permission()),
            manage: rules_grant(rules, privs.manage.as_permission()),
        }
    }
}

} // verus!

//! The registry of value implementations, looked up by the object identifier
//! of their archived type.

use vstd::prelude::*;

verus! {

/// A type with an object identifier, given as the bytes of its encoding.
pub trait TypeOid {
    fn get_type_oid() -> Vec<u8>;
}

/// A type whose value implementation is registered: its table of methods.
pub trait RegisteredImpl {
    fn vtable() -> usize;
}

/// A value that can be stored in a state map.
pub trait DynValue: core::fmt::Debug {
}

/// Compares two byte strings.
pub fn bytes_eq(a: &[u8], b: &[u8]) -> (r: bool)
    ensures
        r == (a@ == b@),
{
    let n = a.len();
    if n != b.len() {
        return false;
    }
    let mut i: usize = 0;
    while i < n
        invariant
            n == a@.len(),
            n == b@.len(),
            i <= n,
            forall|j: int| 0 <= j < i ==> a@[j] == b@[j],
        decreases n - i,
    {
        if a[i] != b[i] {
            return false;
        }
        i = i + 1;
    }
    assert(a@ =~= b@);
    true
}

/// The identifier of an implementation: the object identifier of its type.
#[derive(Debug)]
pub struct ImplId {
    type_oid: Vec<u8>,
}

impl View for ImplId {
    type V = Seq<u8>;

    closed spec fn view(&self) -> Seq<u8> {
        self.type_oid@
    }
}

impl ImplId {
    /// The identifier for the given object identifier.
    pub fn from_type_oid(type_oid: &[u8]) -> (id: ImplId)
        ensures
            id@ == type_oid@,
    {
        ImplId { type_oid: vstd::slice::slice_to_vec(type_oid) }
    }

    /// The identifier of the implementation for `T`.
    pub fn new<T: TypeOid>() -> (id: ImplId)
        ensures
            exists|oid: Vec<u8>| call_ensures(T::get_type_oid, (), oid) && id@ == oid@,
    {
        let oid = T::get_type_oid();
        let ghost g = oid;
        let id = ImplId { type_oid: oid };
        assert(call_ensures(T::get_type_oid, (), g) && id@ == g@);
        id
    }

    /// The object identifier.
    pub fn type_oid(&self) -> (s: &[u8])
        ensures
            s@ == self@,
    {
        self.type_oid.as_slice()
    }
}

/// What is known of an implementation.
#[derive(Debug, Clone, Copy, PartialEq, Eq, Structural)]
pub struct ImplData {
    pub vtable: usize,
}

/// A registered implementation.
#[derive(Debug)]
pub struct ImplEntry {
    pub id: ImplId,
    pub data: ImplData,
}

impl ImplEntry {
    /// The entry for the implementation of `T`.
    pub fn new<T: TypeOid + RegisteredImpl>() -> (e: ImplEntry)
        ensures
            exists|oid: Vec<u8>| call_ensures(T::get_type_oid, (), oid) && e.id@ == oid@,
            call_ensures(T::vtable, (), e.data.vtable),
    {
        ImplEntry { id: ImplId::new::<T>(), data: ImplData { vtable: T::vtable() } }
    }
}

/// The registry of implementations: at most one per object identifier.
pub struct ImplRegistry {
    entries: Vec<(ImplId, ImplData)>,
    map: Ghost<Map<Seq<u8>, usize>>,
}

impl View for ImplRegistry {
    type V = Map<Seq<u8>, usize>;

    closed spec fn view(&self) -> Map<Seq<u8>, usize> {
        self.map@
    }
}

impl ImplRegistry {
    /// The entries list every registered identifier once, with its table.
    pub closed spec fn wf(&self) -> bool {
        &&& forall|i: int, j: int|
            0 <= i < self.entries@.len() && 0 <= j < self.entries@.len() && (#[trigger] self.entries@[i]).0@
                == (#[trigger] self.entries@[j]).0@ ==> i == j
        &&& forall|i: int|
            0 <= i < self.entries@.len() ==> self.map@.contains_key((#[trigger] self.entries@[i]).0@)
                && self.map@[self.entries@[i].0@] == self.entries@[i].1.vtable
        &&& forall|k: Seq<u8>|
            #[trigger] self.map@.contains_key(k) ==> exists|i: int|
                0 <= i < self.entries@.len() && (#[trigger] self.entries@[i]).0@ == k
    }

    /// An empty registry.
    pub fn new() -> (r: ImplRegistry)
        ensures
            r.wf(),
            r@ == Map::<Seq<u8>, usize>::empty(),
    {
        ImplRegistry { entries: Vec::new(), map: Ghost(Map::empty()) }
    }

    fn position(&self, type_oid: &[u8]) -> (r: Option<usize>)
        requires
            self.wf(),
        ensures
            match r {
                Some(i) => i < self.entries@.len() && self.entries@[i as int].0@ == type_oid@,
                None => !self@.contains_key(type_oid@),
            },
    {
        let n = self.entries.len();
        let mut i: usize = 0;
        while i < n
            invariant
                self.wf(),
                n == self.entries@.len(),
                i <= n,
                forall|j: int| 0 <= j < i ==> (#[trigger] self.entries@[j]).0@ != type_oid@,
            decreases n - i,
        {
            if bytes_eq(self.entries[i].0.type_oid.as_slice(), type_oid) {
                return Some(i);
            }
            i = i + 1;
        }
        None
    }

    /// Registers an implementation; its identifier must not be registered
    /// yet.
    pub fn add_entry(&mut self, entry: &ImplEntry)
        requires
            old(self).wf(),
            !old(self)@.contains_key(entry.id@),
        ensures
            final(self).wf(),
            final(self)@ == old(self)@.insert(entry.id@, entry.data.vtable),
    {
        let id = ImplId::from_type_oid(entry.id.type_oid.as_slice());
        let ghost k = id@;
        let ghost old_entries = self.entries@;
        self.entries.push((id, entry.data));
        self.map = Ghost(self.map@.insert(k, entry.data.vtable));
        assert forall|q: Seq<u8>| #[trigger] self.map@.contains_key(q) implies exists|i: int|
            0 <= i < self.entries@.len() && (#[trigger] self.entries@[i]).0@ == q by {
            if q == k {
                assert(self.entries@[old_entries.len() as int].0@ == q);
            } else {
                let i = choose|i: int| 0 <= i < old_entries.len() && (#[trigger] old_entries[i]).0@ == q;
                assert(self.entries@[i] == old_entries[i]);
            }
        }
        assert forall|i: int| 0 <= i < self.entries@.len() implies self.map@.contains_key(
            (#[trigger] self.entries@[i]).0@,
        ) && self.map@[self.entries@[i].0@] == self.entries@[i].1.vtable by {
            if i < old_entries.len() {
                assert(self.entries@[i] == old_entries[i]);
            }
        }
    }

    /// The implementation registered for an identifier.
    pub fn get(&self, type_oid: &[u8]) -> (r: Option<ImplData>)
        requires
            self.wf(),
        ensures
            r is Some <==> self@.contains_key(type_oid@),
            r matches Some(d) ==> d.vtable == self@[type_oid@],
    {
        match self.position(type_oid) {
            Some(i) => Some(self.entries[i].1),
            None => None,
        }
    }
}

} // verus!

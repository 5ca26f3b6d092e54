//! Password hashes as the password database stores them: Argon2 hashes in
//! their encoded form, made with a fresh random salt and checked against a
//! password given at login.

use vstd::prelude::*;

verus! {

/// Errors of the Argon2 library.
#[verifier::external_type_specification]
#[verifier::external_body]
pub struct ExArgon2Error(argon2::Error);

/// What `argon2::verify_encoded` answers for the encoded hash `encoded` and
/// the password `pwd`: whether they match, or nothing when it fails.
pub uninterp spec fn argon2_verify_encoded(encoded: Seq<char>, pwd: Seq<u8>) -> Option<bool>;

/// The encoded hash that `argon2::hash_encoded` makes of `pwd` and `salt`
/// with the library's default configuration.
pub uninterp spec fn argon2_hash_encoded(pwd: Seq<u8>, salt: Seq<u8>) -> Seq<char>;

/// `argon2::verify_encoded`.
#[verifier::external_body]
fn verify_encoded(encoded: &str, pwd: &[u8]) -> (r: Result<bool, argon2::Error>)
    ensures
        match r {
            Ok(b) => argon2_verify_encoded(encoded@, pwd@) == Some(b),
            Err(_) => argon2_verify_encoded(encoded@, pwd@) is None,
        },
{
    argon2::verify_encoded(encoded, pwd)
}

/// `argon2::hash_encoded` with `argon2::Config::default()`. With that
/// configuration the library refuses exactly salts shorter than eight
/// bytes and passwords or salts longer than `u32::MAX` bytes. The hash it
/// makes records its salt and parameters, so that verifying the same
/// password against it succeeds.
#[verifier::external_body]
fn hash_encoded_default(pwd: &[u8], salt: &[u8]) -> (r: Result<String, argon2::Error>)
    ensures
        r is Ok <==> (8 <= salt@.len() <= 0xFFFF_FFFF && pwd@.len() <= 0xFFFF_FFFF),
        r matches Ok(s) ==> s@ == argon2_hash_encoded(pwd@, salt@),
        r matches Ok(s) ==> argon2_verify_encoded(s@, pwd@) == Some(true),
{
    argon2::hash_encoded(pwd, salt, &argon2::Config::default())
}

/// `rand::random` for ten bytes. Nothing is known of the bytes.
#[verifier::external_body]
fn random_salt() -> [u8; 10] {
    rand::random()
}

/// The answer to a login for a user whose stored hash is `stored`: nothing
/// when no password is stored or the stored hash cannot be read, else
/// whether `inpass` matches it.
pub open spec fn password_check(stored: Option<Seq<char>>, inpass: Seq<u8>) -> Option<bool> {
    match stored {
        None => None,
        Some(h) => argon2_verify_encoded(h, inpass),
    }
}

pub open spec fn opt_str_view(s: Option<&str>) -> Option<Seq<char>> {
    match s {
        Some(h) => Some(h@),
        None => None,
    }
}

/// Checks `inpass` against the hash stored for a user, if one is.
pub fn check_password(stored: Option<&str>, inpass: &[u8]) -> (r: Option<bool>)
    ensures
        r == password_check(opt_str_view(stored), inpass@),
{
    match stored {
        None => None,
        Some(h) => match verify_encoded(h, inpass) {
            Ok(b) => Some(b),
            Err(_) => None,
        },
    }
}

/// The stored form of `password` with the salt `salt`.
pub fn encode_password(password: &[u8], salt: &[u8]) -> (h: String)
    requires
        8 <= salt@.len() <= 0xFFFF_FFFF,
        password@.len() <= 0xFFFF_FFFF,
    ensures
        h@ == argon2_hash_encoded(password@, salt@),
        argon2_verify_encoded(h@, password@) == Some(true),
{
    match hash_encoded_default(password, salt) {
        Ok(h) => h,
        Err(_) => {
            assert(false);
            String::new()
        },
    }
}

/// The stored form of `password`, with a fresh random salt of ten bytes.
pub fn new_password_hash(password: &[u8]) -> (h: String)
    requires
        password@.len() <= 0xFFFF_FFFF,
    ensures
        exists|salt: Seq<u8>| salt.len() == 10 && h@ == #[trigger] argon2_hash_encoded(password@, salt),
        password_check(Some(h@), password@) == Some(true),
{
    let salt: [u8; 10] = random_salt();
    let h = encode_password(password, &salt);
    assert(salt@.len() == 10);
    h
}

} // verus!

verus! {

/// What a password database holds for `uid`, if anything.
pub open spec fn stored_for(m: Map<Seq<char>, Seq<char>>, uid: Seq<char>) -> Option<Seq<char>> {
    if m.contains_key(uid) {
        Some(m[uid])
    } else {
        None
    }
}

/// The hash `h` is what storing `pwd` makes: an encoding of `pwd` under
/// some ten-byte salt, against which `pwd` verifies.
pub open spec fn hash_of_password(h: Seq<char>, pwd: Seq<u8>) -> bool {
    &&& exists|salt: Seq<u8>| salt.len() == 10 && h == #[trigger] argon2_hash_encoded(pwd, salt)
    &&& argon2_verify_encoded(h, pwd) == Some(true)
}

/// `after` is `before` with a fresh hash of `pwd` stored for `uid`: the
/// other users' entries are unchanged.
pub open spec fn password_set(
    before: Map<Seq<char>, Seq<char>>,
    after: Map<Seq<char>, Seq<char>>,
    uid: Seq<char>,
    pwd: Seq<u8>,
) -> bool {
    &&& after.dom() == before.dom().insert(uid)
    &&& forall|u: Seq<char>| u != uid ==> #[trigger] stored_for(after, u) == stored_for(before, u)
    &&& hash_of_password(after[uid], pwd)
}

/// Once a password is stored for a user, checking that password for that
/// user answers `Some(true)`, and every other user's answers stay as they
/// were.
pub proof fn law_check_after_set(
    before: Map<Seq<char>, Seq<char>>,
    after: Map<Seq<char>, Seq<char>>,
    uid: Seq<char>,
    pwd: Seq<u8>,
    other: Seq<char>,
    q: Seq<u8>,
)
    requires
        password_set(before, after, uid, pwd),
    ensures
        password_check(stored_for(after, uid), pwd) == Some(true),
        other != uid ==> password_check(stored_for(after, other), q) == password_check(
            stored_for(before, other),
            q,
        ),
{
    if other != uid {
        assert(stored_for(after, other) == stored_for(before, other));
    }
}

/// A user for whom no password was ever stored gets no answer, whatever
/// password is given.
pub proof fn law_check_unknown_user(m: Map<Seq<char>, Seq<char>>, uid: Seq<char>, q: Seq<u8>)
    requires
        !m.contains_key(uid),
    ensures
        password_check(stored_for(m, uid), q) is None,
{
}

/// The password database: the encoded hash stored for each user id.
pub struct PassDB {
    entries: Vec<(String, String)>,
    contents: Ghost<Map<Seq<char>, Seq<char>>>,
}

impl View for PassDB {
    type V = Map<Seq<char>, Seq<char>>;

    closed spec fn view(&self) -> Map<Seq<char>, Seq<char>> {
        self.contents@
    }
}

impl PassDB {
    /// Each user id occurs once among the entries, and the entries are
    /// exactly the pairs of the view.
    pub closed spec fn wf(&self) -> bool {
        &&& forall|i: int, j: int|
            0 <= i < j < self.entries@.len() ==> (#[trigger] self.entries@[i]).0@
                != (#[trigger] self.entries@[j]).0@
        &&& forall|i: int|
            0 <= i < self.entries@.len() ==> {
                &&& self.contents@.contains_key((#[trigger] self.entries@[i]).0@)
                &&& self.contents@[self.entries@[i].0@] == self.entries@[i].1@
            }
        &&& forall|k: Seq<char>|
            #[trigger] self.contents@.contains_key(k) ==> exists|i: int|
                0 <= i < self.entries@.len() && (#[trigger] self.entries@[i]).0@ == k
    }

    /// An empty database.
    pub fn new() -> (db: PassDB)
        ensures
            db.wf(),
            db@ == Map::<Seq<char>, Seq<char>>::empty(),
    {
        PassDB { entries: Vec::new(), contents: Ghost(Map::empty()) }
    }

    fn index_of(&self, uid: &str) -> (r: Option<usize>)
        requires
            self.wf(),
        ensures
            match r {
                Some(i) => i < self.entries@.len() && self.entries@[i as int].0@ == uid@,
                None => !self@.contains_key(uid@),
            },
    {
        let mut i: usize = 0;
        while i < self.entries.len()
            invariant
                self.wf(),
                i <= self.entries@.len(),
                forall|j: int| 0 <= j < i ==> (#[trigger] self.entries@[j]).0@ != uid@,
            decreases self.entries@.len() - i,
        {
            if crate::text::str_eq(self.entries[i].0.as_str(), uid) {
                return Some(i);
            }
            i = i + 1;
        }
        None
    }

    /// Checks `inpass` against the hash stored for `uid`: nothing when no
    /// hash is stored for `uid` or it cannot be read, else whether they
    /// match.
    pub fn check_pw(&self, uid: &str, inpass: &[u8]) -> (r: Option<bool>)
        requires
            self.wf(),
        ensures
            r == password_check(stored_for(self@, uid@), inpass@),
    {
        match self.index_of(uid) {
            None => None,
            Some(i) => check_password(Some(self.entries[i].1.as_str()), inpass),
        }
    }

    /// Stores a fresh hash of `password` for `uid`, replacing what was
    /// stored for it.
    pub fn set_password(&mut self, uid: &str, password: &[u8])
        requires
            old(self).wf(),
            password@.len() <= 0xFFFF_FFFF,
        ensures
            final(self).wf(),
            password_set(old(self)@, final(self)@, uid@, password@),
    {
        let h = new_password_hash(password);
        let ghost old_entries = self.entries@;
        let ghost new_contents = self.contents@.insert(uid@, h@);
        match self.index_of(uid) {
            Some(i) => {
                let key = uid.to_owned();
                self.entries.set(i, (key, h));
                self.contents = Ghost(new_contents);
                assert forall|k: Seq<char>| #[trigger] self.contents@.contains_key(k) implies exists|j: int|
                    0 <= j < self.entries@.len() && (#[trigger] self.entries@[j]).0@ == k by {
                    if k != uid@ {
                        let j = choose|j: int| 0 <= j < old_entries.len() && (#[trigger] old_entries[j]).0@ == k;
                        assert(self.entries@[j] == old_entries[j]);
                    } else {
                        assert(self.entries@[i as int].0@ == k);
                    }
                }
            },
            None => {
                let key = uid.to_owned();
                self.entries.push((key, h));
                self.contents = Ghost(new_contents);
                assert forall|k: Seq<char>| #[trigger] self.contents@.contains_key(k) implies exists|j: int|
                    0 <= j < self.entries@.len() && (#[trigger] self.entries@[j]).0@ == k by {
                    if k != uid@ {
                        let j = choose|j: int| 0 <= j < old_entries.len() && (#[trigger] old_entries[j]).0@ == k;
                        assert(self.entries@[j] == old_entries[j]);
                    } else {
                        assert(self.entries@[old_entries.len() as int].0@ == k);
                    }
                }
            },
        }
        assert(self@.dom() =~= old(self)@.dom().insert(uid@));
    }

    /// Every stored pair of user id and encoded hash, each user id once.
    pub fn get_all(&self) -> (all: Vec<(String, String)>)
        requires
            self.wf(),
        ensures
            all@.len() == self@.dom().len(),
            forall|i: int|
                0 <= i < all@.len() ==> stored_for(self@, (#[trigger] all@[i]).0@) == Some(all@[i].1@),
            forall|k: Seq<char>|
                #[trigger] self@.contains_key(k) ==> exists|i: int|
                    0 <= i < all@.len() && (#[trigger] all@[i]).0@ == k,
    {
        let mut all: Vec<(String, String)> = Vec::new();
        let mut i: usize = 0;
        while i < self.entries.len()
            invariant
                self.wf(),
                i <= self.entries@.len(),
                all@.len() == i,
                forall|j: int|
                    0 <= j < i ==> (#[trigger] all@[j]).0@ == self.entries@[j].0@ && all@[j].1@
                        == self.entries@[j].1@,
            decreases self.entries@.len() - i,
        {
            let e = &self.entries[i];
            all.push((e.0.clone(), e.1.clone()));
            i = i + 1;
        }
        proof {
            assert forall|k: Seq<char>| #[trigger] self@.contains_key(k) implies exists|j: int|
                0 <= j < all@.len() && (#[trigger] all@[j]).0@ == k by {
                let j = choose|j: int| 0 <= j < self.entries@.len() && (#[trigger] self.entries@[j]).0@ == k;
                assert(all@[j].0@ == k);
            }
            self.lemma_len();
        }
        all
    }

    proof fn lemma_len(&self)
        requires
            self.wf(),
        ensures
            self@.dom().len() == self.entries@.len(),
    {
        let keys = self.entries@.map_values(|e: (String, String)| e.0@);
        assert(keys.no_duplicates()) by {
            assert forall|i: int, j: int| 0 <= i < keys.len() && 0 <= j < keys.len() && i != j implies keys[i]
                != keys[j] by {
                if i < j {
                    assert(self.entries@[i].0@ != self.entries@[j].0@);
                } else {
                    assert(self.entries@[j].0@ != self.entries@[i].0@);
                }
            }
        }
        keys.unique_seq_to_set();
        assert forall|k: Seq<char>| keys.to_set().contains(k) <==> self@.dom().contains(k) by {
            if keys.to_set().contains(k) {
                let i = choose|i: int| 0 <= i < keys.len() && keys[i] == k;
                assert(self.contents@.contains_key(self.entries@[i].0@));
            }
            if self@.dom().contains(k) {
                assert(self.contents@.contains_key(k));
                let i = choose|i: int| 0 <= i < self.entries@.len() && (#[trigger] self.entries@[i]).0@ == k;
                assert(keys[i] == k);
            }
        }
        assert(keys.to_set() =~= self@.dom());
    }
}

} // verus!

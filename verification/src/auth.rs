//! The TURN server's credentials: the long-term key of each user, and the
//! answer to an authentication request.

use crate::configs::Configs;
use vstd::prelude::*;

verus! {

/// The long-term key that `turn::auth::generate_auth_key` derives from a
/// user name, realm and password (the MD5 digest of
/// `username:realm:password`).
pub uninterp spec fn spec_auth_key(username: Seq<char>, realm: Seq<char>, password: Seq<char>) -> Seq<u8>;

/// `turn::auth::generate_auth_key`. Claimed: the key depends on the three
/// texts alone (named `spec_auth_key`) and is 16 bytes long, the size of
/// an MD5 digest.
#[verifier::external_body]
fn generate_auth_key(username: &str, realm: &str, password: &str) -> (key: Vec<u8>)
    ensures
        key@ == spec_auth_key(username@, realm@, password@),
        key@.len() == 16,
{
    turn::auth::generate_auth_key(username, realm, password)
}

/// Why an authentication request is refused.
#[derive(Clone, Copy, Debug, PartialEq, Eq)]
pub enum AuthError {
    /// No key is known for the user.
    UnknownUser,
}

/// The keys of the users as a map from user name to key, where each user
/// of `entries` is listed once.
pub open spec fn key_map(entries: Seq<(String, Vec<u8>)>) -> Map<Seq<char>, Seq<u8>>
    decreases entries.len(),
{
    if entries.len() == 0 {
        Map::empty()
    } else {
        key_map(entries.drop_last()).insert(entries.last().0@, entries.last().1@)
    }
}

/// Answers TURN authentication requests from a table of users and keys.
pub struct MyAuthHandler {
    entries: Vec<(String, Vec<u8>)>,
}

impl View for MyAuthHandler {
    type V = Map<Seq<char>, Seq<u8>>;

    closed spec fn view(&self) -> Map<Seq<char>, Seq<u8>> {
        key_map(self.entries@)
    }
}

/// Each user of `entries` is listed once.
pub open spec fn users_distinct(entries: Seq<(String, Vec<u8>)>) -> bool {
    forall|i: int, j: int| 0 <= i < j < entries.len() ==> #[trigger] entries[i].0@ != #[trigger] entries[j].0@
}

impl MyAuthHandler {
    /// Each user is listed once.
    #[verifier::type_invariant]
    closed spec fn inv(self) -> bool {
        users_distinct(self.entries@)
    }

    /// A handler that knows no user.
    pub fn new() -> (h: MyAuthHandler)
        ensures
            h@ == Map::<Seq<char>, Seq<u8>>::empty(),
    {
        MyAuthHandler { entries: Vec::new() }
    }

    /// Sets the key of `username`, replacing any earlier one.
    pub fn insert(&mut self, username: String, key: Vec<u8>)
        ensures
            final(self)@ == old(self)@.insert(username@, key@),
    {
        proof {
            use_type_invariant(&*self);
        }
        let mut taken = MyAuthHandler { entries: Vec::new() };
        std::mem::swap(self, &mut taken);
        let MyAuthHandler { mut entries } = taken;
        let ghost before = entries@;
        let mut i: usize = 0;
        while i < entries.len()
            invariant
                entries@ == before,
                users_distinct(before),
                i <= entries@.len(),
                forall|j: int| 0 <= j < i ==> entries@[j].0@ != username@,
            ensures
                entries@ == before,
                i <= entries@.len(),
                i < entries@.len() ==> entries@[i as int].0@ == username@,
                forall|j: int| 0 <= j < i ==> entries@[j].0@ != username@,
            decreases entries@.len() - i,
        {
            if crate::types::str_equals(entries[i].0.as_str(), username.as_str()) {
                break;
            }
            i = i + 1;
        }
        if i < entries.len() {
            proof {
                lemma_key_map_replace(before, i as int, username, key);
            }
            entries.set(i, (username, key));
            assert(users_distinct(entries@)) by {
                assert forall|a: int, b: int| 0 <= a < b < entries@.len() implies #[trigger] entries@[a].0@
                    != #[trigger] entries@[b].0@ by {
                    if a == i {
                        assert(before[i as int].0@ != before[b].0@);
                    } else if b == i {
                        assert(before[a].0@ != before[i as int].0@);
                    } else {
                        assert(before[a].0@ != before[b].0@);
                    }
                }
            }
        } else {
            proof {
                lemma_key_map_lacks(before, username@);
            }
            entries.push((username, key));
            proof {
                assert(entries@.drop_last() =~= before);
            }
        }
        *self = MyAuthHandler { entries };
    }

    /// The key of `username`, or `UnknownUser`. The realm plays no part.
    pub fn auth_handle(&self, username: &str, realm: &str) -> (res: Result<Vec<u8>, AuthError>)
        ensures
            match res {
                Ok(key) => self@.contains_key(username@) && key@ == self@[username@],
                Err(_) => !self@.contains_key(username@),
            },
    {
        proof {
            use_type_invariant(self);
        }
        let mut i: usize = 0;
        while i < self.entries.len()
            invariant
                users_distinct(self.entries@),
                i <= self.entries@.len(),
                forall|j: int| 0 <= j < i ==> self.entries@[j].0@ != username@,
            decreases self.entries@.len() - i,
        {
            if crate::types::str_equals(self.entries[i].0.as_str(), username) {
                proof {
                    lemma_key_map_at(self.entries@, i as int);
                }
                return Ok(self.entries[i].1.clone());
            }
            i = i + 1;
        }
        proof {
            lemma_key_map_lacks(self.entries@, username@);
        }
        Err(AuthError::UnknownUser)
    }

    /// The handler of the configured account: its user name with the key
    /// derived from its realm and password.
    pub fn from_configs(configs: &Configs) -> (h: MyAuthHandler)
        ensures
            h@ == Map::<Seq<char>, Seq<u8>>::empty().insert(
                configs.username@,
                spec_auth_key(configs.username@, configs.realm@, configs.password@),
            ),
    {
        let key = generate_auth_key(configs.username, configs.realm, configs.password);
        let mut h = MyAuthHandler::new();
        h.insert(configs.username.to_owned(), key);
        h
    }
}

proof fn lemma_key_map_lacks(entries: Seq<(String, Vec<u8>)>, u: Seq<char>)
    requires
        forall|j: int| 0 <= j < entries.len() ==> entries[j].0@ != u,
    ensures
        !key_map(entries).contains_key(u),
    decreases entries.len(),
{
    if entries.len() > 0 {
        lemma_key_map_lacks(entries.drop_last(), u);
    }
}

proof fn lemma_key_map_at(entries: Seq<(String, Vec<u8>)>, i: int)
    requires
        0 <= i < entries.len(),
        forall|a: int, b: int|
            0 <= a < b < entries.len() ==> #[trigger] entries[a].0@ != #[trigger] entries[b].0@,
    ensures
        key_map(entries).contains_key(entries[i].0@),
        key_map(entries)[entries[i].0@] == entries[i].1@,
    decreases entries.len(),
{
    if i < entries.len() - 1 {
        lemma_key_map_at(entries.drop_last(), i);
        assert(entries.drop_last()[i] == entries[i]);
        assert(entries[i].0@ != entries[entries.len() - 1].0@);
    }
}

proof fn lemma_key_map_replace(
    entries: Seq<(String, Vec<u8>)>,
    i: int,
    username: String,
    key: Vec<u8>,
)
    requires
        0 <= i < entries.len(),
        entries[i].0@ == username@,
        forall|a: int, b: int|
            0 <= a < b < entries.len() ==> #[trigger] entries[a].0@ != #[trigger] entries[b].0@,
    ensures
        key_map(entries.update(i, (username, key))) == key_map(entries).insert(username@, key@),
    decreases entries.len(),
{
    let e2 = entries.update(i, (username, key));
    if i == entries.len() - 1 {
        assert(e2.drop_last() =~= entries.drop_last());
        lemma_key_map_lacks(entries.drop_last(), username@);
        assert(key_map(e2) =~= key_map(entries).insert(username@, key@));
    } else {
        lemma_key_map_replace(entries.drop_last(), i, username, key);
        assert(e2.drop_last() =~= entries.drop_last().update(i, (username, key)));
        assert(entries[entries.len() - 1].0@ != username@);
        assert(key_map(e2) =~= key_map(entries).insert(username@, key@));
    }
}

} // verus!

//! User accounts and the credential verifier.
//!
//! A user is a unique username owning a stored password hash. Accounts are
//! created out of band — there is no self-registration in this core — and are
//! never deleted by it. `spec_verify` is the one authority on whether a
//! username/password pair is good: it fails closed on an unknown username.

use vstd::prelude::*;

use crate::pwhash::{PwHash, spec_hash_matches, spec_pwhash};

verus! {

/// A stored account row.
pub struct UserRecord {
    pub username: String,
    pub hash: PwHash,
}

/// The mathematical view of an account row.
pub struct UserV {
    pub username: Seq<char>,
    pub hash: PwHash,
}

impl View for UserRecord {
    type V = UserV;

    open spec fn view(&self) -> UserV {
        UserV { username: self.username@, hash: self.hash }
    }
}

/// The first account row named `name`, if any.
pub open spec fn spec_find_user(users: Seq<UserV>, name: Seq<char>) -> Option<UserV>
    decreases users.len(),
{
    if users.len() == 0 {
        None
    } else if users[0].username == name {
        Some(users[0])
    } else {
        spec_find_user(users.drop_first(), name)
    }
}

pub open spec fn spec_user_exists(users: Seq<UserV>, name: Seq<char>) -> bool {
    exists|i: int| 0 <= i < users.len() && users[i].username == name
}

/// The two ways of asking whether an account exists agree.
pub proof fn lemma_find_user_exists(users: Seq<UserV>, name: Seq<char>)
    ensures
        spec_user_exists(users, name) <==> spec_find_user(users, name) is Some,
    decreases users.len(),
{
    if users.len() > 0 {
        lemma_find_user_exists(users.drop_first(), name);
        assert(forall|i: int|
            0 <= i < users.drop_first().len() ==> users.drop_first()[i] == users[i + 1]);
        if users[0].username != name {
            if spec_user_exists(users, name) {
                let w = choose|i: int| 0 <= i < users.len() && users[i].username == name;
                assert(users.drop_first()[w - 1] == users[w]);
            }
            if spec_user_exists(users.drop_first(), name) {
                let w = choose|i: int|
                    0 <= i < users.drop_first().len() && users.drop_first()[i].username == name;
                assert(users[w + 1].username == name);
            }
        }
    }
}

/// The credential verifier's contract: the pair is good exactly when the
/// username is a known account whose stored hash accepts the password.
pub open spec fn spec_verify(users: Seq<UserV>, name: Seq<char>, password: Seq<char>) -> bool {
    match spec_find_user(users, name) {
        Some(u) => spec_hash_matches(u.hash, password),
        None => false,
    }
}

/// No two account rows share a username.
pub open spec fn users_unique(users: Seq<UserV>) -> bool {
    forall|i: int, j: int|
        0 <= i < j < users.len() ==> users[i].username != users[j].username
}

/// Whatever row `spec_find_user` answers with is a row of the sequence.
pub proof fn lemma_find_user_is_member(users: Seq<UserV>, name: Seq<char>)
    requires
        spec_find_user(users, name) is Some,
    ensures
        exists|i: int|
            0 <= i < users.len() && users[i] == spec_find_user(users, name)->Some_0 && users[i].username
                == name,
    decreases users.len(),
{
    if users.len() > 0 && users[0].username != name {
        lemma_find_user_is_member(users.drop_first(), name);
        let i = choose|i: int|
            0 <= i < users.drop_first().len() && users.drop_first()[i] == spec_find_user(
                users.drop_first(),
                name,
            )->Some_0 && users.drop_first()[i].username == name;
        assert(users[i + 1] == users.drop_first()[i]);
    }
}

/// A row that is present is found: on a sequence of unique usernames,
/// `spec_find_user` answers with the row at any index whose name matches.
pub proof fn lemma_find_user_present(users: Seq<UserV>, i: int)
    requires
        users_unique(users),
        0 <= i < users.len(),
    ensures
        spec_find_user(users, users[i].username) == Some(users[i]),
    decreases users.len(),
{
    if i > 0 {
        assert(users[0].username != users[i].username);
        assert(users_unique(users.drop_first())) by {
            assert(forall|p: int, q: int|
                0 <= p < q < users.drop_first().len() ==> users.drop_first()[p]
                    == users[p + 1] && users.drop_first()[q] == users[q + 1]);
        }
        lemma_find_user_present(users.drop_first(), i - 1);
        assert(users.drop_first()[i - 1] == users[i]);
    }
}

/// Law: a password stored for an account verifies, and any candidate pair
/// that differs — another username, or a password whose digest differs —
/// is refused. (Two passwords whose salted digests collide would both be
/// accepted; such a pair is excluded below.)
pub proof fn lemma_verify_classifies(
    users: Seq<UserV>,
    i: int,
    salt: u64,
    password: Seq<char>,
    other_name: Seq<char>,
    other_password: Seq<char>,
)
    requires
        users_unique(users),
        0 <= i < users.len(),
        users[i].hash == spec_pwhash(salt, password),
        !spec_user_exists(users, other_name),
        crate::pwhash::spec_digest(salt, other_password) != crate::pwhash::spec_digest(
            salt,
            password,
        ),
    ensures
        spec_verify(users, users[i].username, password),
        !spec_verify(users, other_name, password),
        !spec_verify(users, users[i].username, other_password),
{
    lemma_find_user_present(users, i);
    lemma_find_user_exists(users, other_name);
}

} // verus!

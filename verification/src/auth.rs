//! Credentials, sessions and the capability token.
//!
//! Two independent credential paths reach the server: an opaque session
//! identifier (delivered in a cookie) and a basic username/password pair.
//! `spec_resolve` is the single rule that unifies them into one authorization
//! decision; every failure collapses to one undistinguished rejection so a
//! client cannot probe which part was wrong. The only way to obtain an
//! [`Authed`] value is through the store's authentication methods, so code
//! holding one holds proof that a verified identity stands behind it.

use vstd::prelude::*;

use crate::error::Error;

verus! {

/// A basic-auth pair as handed over by the boundary layer, already decoded
/// to plain username and password.
pub struct BasicAuth {
    username: String,
    password: String,
}

/// The mathematical view of a basic-auth pair.
pub struct BasicAuthV {
    pub username: Seq<char>,
    pub password: Seq<char>,
}

impl View for BasicAuth {
    type V = BasicAuthV;

    closed spec fn view(&self) -> BasicAuthV {
        BasicAuthV { username: self.username@, password: self.password@ }
    }
}

impl BasicAuth {
    pub fn new(username: String, password: String) -> (a: BasicAuth)
        ensures
            a@.username == username@,
            a@.password == password@,
    {
        BasicAuth { username, password }
    }

    pub fn username(&self) -> (r: &String)
        ensures
            r@ == self@.username,
    {
        &self.username
    }

    pub(crate) fn password(&self) -> (r: &String)
        ensures
            r@ == self@.password,
    {
        &self.password
    }

    /// The path-embedded username is never an authorization source: it must
    /// restate the credential's own username, or the request dies here.
    pub fn with_path_username(self, username: &str) -> (r: Result<BasicAuth, Error>)
        ensures
            self@.username == username@ ==> r == Ok::<BasicAuth, Error>(self),
            self@.username != username@ ==> r == Err::<BasicAuth, Error>(Error::Unauthorized),
    {
        if crate::text::str_eq(self.username.as_str(), username) {
            Ok(self)
        } else {
            Err(Error::Unauthorized)
        }
    }
}

/// An opaque session identifier, as carried by the session cookie.
#[derive(Clone, Copy, Debug, PartialEq, Eq, Structural)]
pub struct SessionId {
    value: u64,
}

impl View for SessionId {
    type V = u64;

    closed spec fn view(&self) -> u64 {
        self.value
    }
}

impl SessionId {
    pub fn new(value: u64) -> (s: SessionId)
        ensures
            s@ == value,
    {
        SessionId { value }
    }

    pub fn value(&self) -> (v: u64)
        ensures
            v == self@,
    {
        self.value
    }
}

/// A stored session row: an identifier bound to the username it was issued
/// for. Sessions live until they are revoked by logout.
pub struct Session {
    pub id: u64,
    pub username: String,
}

/// The mathematical view of a session row.
pub struct SessionV {
    pub id: u64,
    pub username: Seq<char>,
}

impl View for Session {
    type V = SessionV;

    open spec fn view(&self) -> SessionV {
        SessionV { id: self.id, username: self.username@ }
    }
}

/// The username the session table binds `sid` to, if any.
pub open spec fn spec_session_user(sessions: Seq<SessionV>, sid: u64) -> Option<Seq<char>>
    decreases sessions.len(),
{
    if sessions.len() == 0 {
        None
    } else if sessions[0].id == sid {
        Some(sessions[0].username)
    } else {
        spec_session_user(sessions.drop_first(), sid)
    }
}

/// The session table after revoking `sid`: every row carrying it is gone,
/// every other row stays, in order.
pub open spec fn spec_remove_session(sessions: Seq<SessionV>, sid: u64) -> Seq<SessionV>
    decreases sessions.len(),
{
    if sessions.len() == 0 {
        sessions
    } else {
        let rest = spec_remove_session(sessions.drop_last(), sid);
        if sessions.last().id == sid {
            rest
        } else {
            rest.push(sessions.last())
        }
    }
}

/// The one rule unifying the two credential paths.
///
/// The outer option says whether a credential of that path was presented at
/// all; the inner option is what its independent validation made of it — the
/// username a presented session resolves to, or the username a presented
/// basic-auth pair verifies as. `None` is the collapsed rejection.
///
/// A presented session must resolve, and it is resolved first; a basic-auth
/// pair presented beside it must then verify independently and name the very
/// same user, or the request is refused — a stolen cookie paired with someone
/// else's password must not probe either account. Without a session the
/// basic-auth pair alone decides. With neither credential there is nothing to
/// authorize.
pub open spec fn spec_resolve(
    session: Option<Option<Seq<char>>>,
    basic: Option<Option<Seq<char>>>,
) -> Option<Seq<char>> {
    match session {
        Some(None) => None,
        Some(Some(su)) => match basic {
            None => Some(su),
            Some(None) => None,
            Some(Some(bu)) => if su == bu {
                Some(su)
            } else {
                None
            },
        },
        None => match basic {
            Some(Some(bu)) => Some(bu),
            _ => None,
        },
    }
}

/// Executable form of [`spec_resolve`], on already-validated inputs. It is
/// pure: no storage, no network, exactly the decision.
pub fn resolve_credentials(session: Option<Option<String>>, basic: Option<Option<String>>) -> (r:
    Result<String, Error>)
    ensures
        match r {
            Ok(u) => spec_resolve(opt_opt_view(session), opt_opt_view(basic)) == Some(u@),
            Err(e) => spec_resolve(opt_opt_view(session), opt_opt_view(basic)) is None && e
                == Error::Unauthorized,
        },
{
    match session {
        Some(None) => Err(Error::Unauthorized),
        Some(Some(su)) => match basic {
            None => Ok(su),
            Some(None) => Err(Error::Unauthorized),
            Some(Some(bu)) => if su == bu {
                Ok(su)
            } else {
                Err(Error::Unauthorized)
            },
        },
        None => match basic {
            Some(Some(bu)) => Ok(bu),
            _ => Err(Error::Unauthorized),
        },
    }
}

/// The view of a presented-and-validated credential.
pub open spec fn opt_opt_view(o: Option<Option<String>>) -> Option<Option<Seq<char>>> {
    match o {
        None => None,
        Some(None) => Some(None),
        Some(Some(s)) => Some(Some(s@)),
    }
}

/// Law: a valid session for one user presented together with a valid
/// basic-auth pair for a different user is rejected, never silently resolved
/// to either.
pub proof fn lemma_mismatched_credentials_rejected(a: Seq<char>, b: Seq<char>)
    requires
        a != b,
    ensures
        spec_resolve(Some(Some(a)), Some(Some(b))) is None,
{
}

/// Law: a session alone authorizes exactly the user a valid basic-auth pair
/// for the session's bound username would.
pub proof fn lemma_session_alone_matches_basic(u: Seq<char>)
    ensures
        spec_resolve(Some(Some(u)), None) == spec_resolve(None, Some(Some(u))),
        spec_resolve(Some(Some(u)), None) == Some(u),
{
}

/// A session identifier no row carries resolves to nobody.
pub proof fn lemma_session_user_absent(sessions: Seq<SessionV>, sid: u64)
    requires
        forall|i: int| 0 <= i < sessions.len() ==> sessions[i].id != sid,
    ensures
        spec_session_user(sessions, sid) is None,
    decreases sessions.len(),
{
    if sessions.len() > 0 {
        assert(forall|i: int|
            0 <= i < sessions.drop_first().len() ==> sessions.drop_first()[i] == sessions[i + 1]);
        lemma_session_user_absent(sessions.drop_first(), sid);
    }
}

/// A session identifier fresh to the table resolves, once issued, to exactly
/// the username it was issued for.
pub proof fn lemma_fresh_session_resolves(sessions: Seq<SessionV>, id: u64, u: Seq<char>)
    requires
        forall|i: int| 0 <= i < sessions.len() ==> sessions[i].id != id,
    ensures
        spec_session_user(sessions.push(SessionV { id, username: u }), id) == Some(u),
    decreases sessions.len(),
{
    let pushed = sessions.push(SessionV { id, username: u });
    if sessions.len() == 0 {
        assert(pushed[0].id == id);
    } else {
        assert(pushed.drop_first() =~= sessions.drop_first().push(SessionV { id, username: u }));
        assert(forall|i: int|
            0 <= i < sessions.drop_first().len() ==> sessions.drop_first()[i] == sessions[i + 1]);
        lemma_fresh_session_resolves(sessions.drop_first(), id, u);
    }
}

/// Every row that survives a revocation is a row of the old table, and none
/// of them carries the revoked identifier.
pub proof fn lemma_remove_session_members(sessions: Seq<SessionV>, sid: u64)
    ensures
        forall|i: int|
            0 <= i < spec_remove_session(sessions, sid).len() ==> spec_remove_session(
                sessions,
                sid,
            )[i].id != sid && sessions.contains(spec_remove_session(sessions, sid)[i]),
    decreases sessions.len(),
{
    if sessions.len() > 0 {
        lemma_remove_session_members(sessions.drop_last(), sid);
        let res = spec_remove_session(sessions, sid);
        let rest = spec_remove_session(sessions.drop_last(), sid);
        assert forall|i: int| 0 <= i < res.len() implies res[i].id != sid && sessions.contains(
            res[i],
        ) by {
            if sessions.last().id != sid && i == rest.len() {
                assert(res[i] == sessions.last());
                assert(sessions[sessions.len() - 1] == sessions.last());
            } else {
                assert(res[i] == rest[i]);
                assert(sessions.drop_last().contains(rest[i]));
                let j = choose|j: int|
                    0 <= j < sessions.drop_last().len() && sessions.drop_last()[j] == rest[i];
                assert(sessions[j] == rest[i]);
            }
        }
    }
}

/// Law: once a session is revoked, its identifier is rejected by every
/// subsequent resolution against the table.
pub proof fn lemma_removed_session_rejected(sessions: Seq<SessionV>, sid: u64)
    ensures
        spec_session_user(spec_remove_session(sessions, sid), sid) is None,
{
    lemma_remove_session_members(sessions, sid);
    lemma_session_user_absent(spec_remove_session(sessions, sid), sid);
}

/// Revocation keeps identifiers pairwise distinct.
pub proof fn lemma_remove_session_unique(sessions: Seq<SessionV>, sid: u64)
    requires
        forall|i: int, j: int| 0 <= i < j < sessions.len() ==> sessions[i].id != sessions[j].id,
    ensures
        forall|i: int, j: int|
            0 <= i < j < spec_remove_session(sessions, sid).len() ==> spec_remove_session(
                sessions,
                sid,
            )[i].id != spec_remove_session(sessions, sid)[j].id,
    decreases sessions.len(),
{
    if sessions.len() > 0 {
        assert(forall|i: int| 0 <= i < sessions.len() - 1 ==> sessions.drop_last()[i] == sessions[i]);
        lemma_remove_session_unique(sessions.drop_last(), sid);
        lemma_remove_session_members(sessions.drop_last(), sid);
        let res = spec_remove_session(sessions, sid);
        let rest = spec_remove_session(sessions.drop_last(), sid);
        assert forall|i: int, j: int| 0 <= i < j < res.len() implies res[i].id != res[j].id by {
            if sessions.last().id != sid && j == rest.len() {
                assert(res[i] == rest[i]);
                assert(sessions.drop_last().contains(rest[i]));
                let w = choose|w: int|
                    0 <= w < sessions.drop_last().len() && sessions.drop_last()[w] == rest[i];
                assert(sessions[w] == rest[i]);
                assert(sessions[sessions.len() - 1] == sessions.last());
            } else {
                assert(res[i] == rest[i] && res[j] == rest[j]);
            }
        }
    }
}

/// Revoking one session leaves every other session meaningful, unchanged and
/// bound to the same user: sessions are never transferred.
pub proof fn lemma_remove_session_keeps_others(sessions: Seq<SessionV>, sid: u64, other: u64)
    requires
        other != sid,
    ensures
        spec_session_user(spec_remove_session(sessions, sid), other) == spec_session_user(
            sessions,
            other,
        ),
    decreases sessions.len(),
{
    if sessions.len() > 0 {
        lemma_remove_session_keeps_others(sessions.drop_last(), sid, other);
        lemma_session_user_push(sessions.drop_last(), sessions.last(), other);
        if sessions.last().id != sid {
            lemma_session_user_push(
                spec_remove_session(sessions.drop_last(), sid),
                sessions.last(),
                other,
            );
        }
        assert(sessions.drop_last().push(sessions.last()) =~= sessions);
    }
}

/// Appending a row answers lookups of other identifiers as before, and gives
/// a previously unknown identifier the new row's binding.
pub proof fn lemma_session_user_push(sessions: Seq<SessionV>, row: SessionV, sid: u64)
    ensures
        spec_session_user(sessions, sid) is Some ==> spec_session_user(
            sessions.push(row),
            sid,
        ) == spec_session_user(sessions, sid),
        spec_session_user(sessions, sid) is None && row.id == sid ==> spec_session_user(
            sessions.push(row),
            sid,
        ) == Some(row.username),
        spec_session_user(sessions, sid) is None && row.id != sid ==> spec_session_user(
            sessions.push(row),
            sid,
        ) is None,
    decreases sessions.len(),
{
    if sessions.len() == 0 {
        assert(sessions.push(row)[0] == row);
        assert(sessions.push(row).drop_first() =~= Seq::<SessionV>::empty());
        assert(spec_session_user(Seq::<SessionV>::empty(), sid) is None);
    } else {
        assert(sessions.push(row)[0] == sessions[0]);
        assert(sessions.push(row).drop_first() =~= sessions.drop_first().push(row));
        lemma_session_user_push(sessions.drop_first(), row, sid);
    }
}

/// The capability token: structural proof of "authenticated as this user,
/// through this session". Only the store's authentication methods construct
/// one.
pub struct Authed {
    username: String,
    session_id: SessionId,
}

/// The mathematical view of a capability token.
pub struct AuthedV {
    pub username: Seq<char>,
    pub session_id: u64,
}

impl View for Authed {
    type V = AuthedV;

    closed spec fn view(&self) -> AuthedV {
        AuthedV { username: self.username@, session_id: self.session_id@ }
    }
}

impl Authed {
    pub(crate) fn make(username: String, session_id: SessionId) -> (a: Authed)
        ensures
            a@.username == username@,
            a@.session_id == session_id@,
    {
        Authed { username, session_id }
    }

    pub fn username(&self) -> (r: &String)
        ensures
            r@ == self@.username,
    {
        &self.username
    }

    pub fn session_id(&self) -> (r: SessionId)
        ensures
            r@ == self@.session_id,
    {
        self.session_id
    }

    /// The purely local check every handler makes: the path-embedded username
    /// must equal the authoritative one, and is otherwise refused even if it
    /// names a perfectly valid account.
    pub fn with_user(self, username: &str) -> (r: Result<Authed, Error>)
        ensures
            self@.username == username@ ==> r == Ok::<Authed, Error>(self),
            self@.username != username@ ==> r == Err::<Authed, Error>(Error::Forbidden),
    {
        if crate::text::str_eq(self.username.as_str(), username) {
            Ok(self)
        } else {
            Err(Error::Forbidden)
        }
    }
}

} // verus!

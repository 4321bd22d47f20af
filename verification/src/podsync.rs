//! The sync orchestrator: the one owner of the store's state.
//!
//! Every mutating operation below runs as one atomic step on the in-memory
//! state — the analogue of one write transaction per external request — and
//! bumps the server's write cursor exactly once, so the cursor handed back
//! marks the whole batch. Methods that act on a user's data take the
//! authenticator's capability token, never a raw username: the only way to
//! obtain an [`Authed`] is through [`PodSync::login`],
//! [`PodSync::authenticate`] or [`PodSync::authorize_request`].

use vstd::prelude::*;

use crate::auth::{
    Authed, AuthedV, BasicAuth, BasicAuthV, Session, SessionId, SessionV, resolve_credentials,
    spec_remove_session, spec_resolve, spec_session_user,
};
use crate::device::{
    DeviceEntry, DeviceEntryV, DeviceRecord, DeviceUpdate, DeviceV, devices_unique,
    spec_device_list, spec_device_upsert, spec_sub_count,
};
use crate::episode::{
    EpisodeActionUpload, EpisodeDelta, EpisodeRow, EpisodeRowV, EpisodeUploadV, QueryEpisodes,
    rows_sorted, rows_unique, row_identity_is, spec_append_all, spec_append_one,
    spec_episode_delta, spec_episode_dup,
};
use crate::error::Error;
use crate::pwhash::{pwhash, hash_matches, spec_pwhash};
use crate::subscription::{
    SubRecord, SubV, SubscriptionChanges, SubscriptionDelta, UpdatedUrls, spec_add_all,
    spec_add_one, spec_apply_changes, spec_remove_all, spec_remove_one, spec_sub_delta,
    sub_key_is, subs_unique,
};
use crate::text::{opt_view, str_eq};
use crate::user::{
    UserRecord, UserV, lemma_find_user_exists, lemma_find_user_is_member, spec_find_user,
    spec_user_exists, spec_verify, users_unique,
};
use crate::views::seq_views;

verus! {

/// The mathematical view of the whole store.
pub struct PodSyncV {
    pub users: Seq<UserV>,
    pub sessions: Seq<SessionV>,
    pub devices: Seq<DeviceV>,
    pub subscriptions: Seq<SubV>,
    pub episodes: Seq<EpisodeRowV>,
    pub clock: u64,
    pub next_session: u64,
}

/// Everything the store promises of itself between operations.
pub open spec fn state_wf(s: PodSyncV) -> bool {
    &&& users_unique(s.users)
    &&& forall|i: int, j: int|
        0 <= i < j < s.sessions.len() ==> s.sessions[i].id != s.sessions[j].id
    &&& forall|i: int| 0 <= i < s.sessions.len() ==> #[trigger] s.sessions[i].id < s.next_session
    &&& forall|i: int|
        0 <= i < s.sessions.len() ==> spec_user_exists(s.users, #[trigger] s.sessions[i].username)
    &&& devices_unique(s.devices)
    &&& forall|i: int|
        0 <= i < s.devices.len() ==> spec_user_exists(s.users, #[trigger] s.devices[i].username)
    &&& subs_unique(s.subscriptions)
    &&& forall|i: int|
        0 <= i < s.subscriptions.len() ==> spec_user_exists(
            s.users,
            #[trigger] s.subscriptions[i].username,
        )
    &&& forall|i: int|
        0 <= i < s.subscriptions.len() ==> #[trigger] s.subscriptions[i].changed <= s.clock
    &&& rows_unique(s.episodes)
    &&& rows_sorted(s.episodes)
    &&& forall|i: int|
        0 <= i < s.episodes.len() ==> spec_user_exists(s.users, #[trigger] s.episodes[i].username)
    &&& forall|i: int| 0 <= i < s.episodes.len() ==> #[trigger] s.episodes[i].created <= s.clock
}

/// Whether a capability token is meaningful against this store: the user it
/// names exists. Users are never deleted, so a token once issued stays
/// meaningful.
pub open spec fn token_ok(s: PodSyncV, a: AuthedV) -> bool {
    spec_user_exists(s.users, a.username)
}

/// The in-memory store behind the orchestrator: accounts, sessions, device
/// rows, subscription state, the episode action log, the server's write
/// cursor, and the next session identifier to issue.
pub struct PodSync {
    users: Vec<UserRecord>,
    sessions: Vec<Session>,
    devices: Vec<DeviceRecord>,
    subscriptions: Vec<SubRecord>,
    episodes: Vec<EpisodeRow>,
    clock: u64,
    next_session: u64,
}

impl View for PodSync {
    type V = PodSyncV;

    closed spec fn view(&self) -> PodSyncV {
        PodSyncV {
            users: seq_views(self.users@),
            sessions: seq_views(self.sessions@),
            devices: seq_views(self.devices@),
            subscriptions: seq_views(self.subscriptions@),
            episodes: seq_views(self.episodes@),
            clock: self.clock,
            next_session: self.next_session,
        }
    }
}

impl PodSync {
    pub open spec fn wf(&self) -> bool {
        state_wf(self@)
    }

    /// An empty store: no accounts, no sessions, no rows, cursor at zero.
    pub fn new() -> (s: PodSync)
        ensures
            s.wf(),
            s@.users =~= Seq::<UserV>::empty(),
            s@.sessions =~= Seq::<SessionV>::empty(),
            s@.devices =~= Seq::<DeviceV>::empty(),
            s@.subscriptions =~= Seq::<SubV>::empty(),
            s@.episodes =~= Seq::<EpisodeRowV>::empty(),
            s@.clock == 0,
            s@.next_session == 0,
    {
        let s = PodSync {
            users: Vec::new(),
            sessions: Vec::new(),
            devices: Vec::new(),
            subscriptions: Vec::new(),
            episodes: Vec::new(),
            clock: 0,
            next_session: 0,
        };
        proof {
            assert(s@.users =~= Seq::<UserV>::empty());
            assert(s@.sessions =~= Seq::<SessionV>::empty());
            assert(s@.devices =~= Seq::<DeviceV>::empty());
            assert(s@.subscriptions =~= Seq::<SubV>::empty());
            assert(s@.episodes =~= Seq::<EpisodeRowV>::empty());
        }
        s
    }

    /// The index of the account row named `name`, if any.
    fn find_user_idx(&self, name: &str) -> (r: Option<usize>)
        ensures
            match r {
                Some(i) => i < self@.users.len() && spec_find_user(self@.users, name@) == Some(
                    self@.users[i as int],
                ) && self@.users[i as int].username == name@,
                None => spec_find_user(self@.users, name@) is None,
            },
    {
        let ghost users = seq_views(self.users@);
        let n = self.users.len();
        let mut i: usize = 0;
        proof {
            assert(users.skip(0) =~= users);
        }
        while i < n
            invariant
                i <= n,
                n == self.users@.len(),
                users == self@.users,
                users.len() == n,
                spec_find_user(users.skip(i as int), name@) == spec_find_user(users, name@),
            decreases n - i,
        {
            proof {
                assert(users.skip(i as int)[0] == users[i as int]);
            }
            if str_eq(self.users[i].username.as_str(), name) {
                return Some(i);
            }
            proof {
                assert(users.skip(i as int).drop_first() =~= users.skip(i as int + 1));
            }
            i = i + 1;
        }
        proof {
            assert(users.skip(n as int) =~= Seq::<UserV>::empty());
        }
        None
    }

    /// The index of the session row carrying `sid`, if any.
    fn find_session_idx(&self, sid: u64) -> (r: Option<usize>)
        ensures
            match r {
                Some(i) => i < self@.sessions.len() && self@.sessions[i as int].id == sid
                    && spec_session_user(self@.sessions, sid) == Some(
                    self@.sessions[i as int].username,
                ),
                None => spec_session_user(self@.sessions, sid) is None,
            },
    {
        let ghost sessions = seq_views(self.sessions@);
        let n = self.sessions.len();
        let mut i: usize = 0;
        proof {
            assert(sessions.skip(0) =~= sessions);
        }
        while i < n
            invariant
                i <= n,
                n == self.sessions@.len(),
                sessions == self@.sessions,
                sessions.len() == n,
                spec_session_user(sessions.skip(i as int), sid) == spec_session_user(
                    sessions,
                    sid,
                ),
            decreases n - i,
        {
            proof {
                assert(sessions.skip(i as int)[0] == sessions[i as int]);
            }
            if self.sessions[i].id == sid {
                return Some(i);
            }
            proof {
                assert(sessions.skip(i as int).drop_first() =~= sessions.skip(i as int + 1));
            }
            i = i + 1;
        }
        proof {
            assert(sessions.skip(n as int) =~= Seq::<SessionV>::empty());
        }
        None
    }

    /// Out-of-band account provisioning: stores the salted hash of the
    /// password under the username. A username already taken is refused the
    /// way a storage unique-key violation would surface.
    pub fn add_user(&mut self, username: String, password: &str, salt: u64) -> (r: Result<
        (),
        Error,
    >)
        requires
            old(self).wf(),
        ensures
            final(self).wf(),
            spec_user_exists(old(self)@.users, username@) ==> (r == Err::<(), Error>(
                Error::Internal,
            ) && final(self)@ == old(self)@),
            !spec_user_exists(old(self)@.users, username@) ==> (r == Ok::<(), Error>(())
                && final(self)@ == (PodSyncV {
                users: old(self)@.users.push(
                    UserV { username: username@, hash: spec_pwhash(salt, password@) },
                ),
                ..old(self)@
            })),
    {
        proof {
            lemma_find_user_exists(self@.users, username@);
        }
        if let Some(_) = self.find_user_idx(username.as_str()) {
            return Err(Error::Internal);
        }
        let hash = pwhash(password, salt);
        let ghost pre = self@;
        let ghost oldvec = self.users@;
        let ghost uname = username@;
        self.users.push(UserRecord { username, hash });
        proof {
            let rec = self.users@.last();
            assert(self.users@ == oldvec.push(rec));
            crate::views::lemma_views_push(oldvec, rec);
            assert(rec@ == UserV { username: uname, hash: spec_pwhash(salt, password@) });
            assert(self@.users == pre.users.push(rec@));
            assert(forall|i: int| 0 <= i < pre.users.len() ==> self@.users[i] == pre.users[i]);
            assert forall|n: Seq<char>| spec_user_exists(pre.users, n) implies spec_user_exists(
                self@.users,
                n,
            ) by {
                let w = choose|k: int| 0 <= k < pre.users.len() && pre.users[k].username == n;
                assert(self@.users[w].username == n);
            }
            assert(spec_user_exists(self@.users, uname)) by {
                assert(self@.users.last().username == uname);
            }
        }
        Ok(())
    }

    /// The credential verifier: true exactly when the username is a known
    /// account whose stored hash accepts the password. Unknown usernames fail
    /// closed.
    pub fn verify(&self, username: &str, password: &str) -> (r: bool)
        ensures
            r == spec_verify(self@.users, username@, password@),
    {
        match self.find_user_idx(username) {
            Some(i) => hash_matches(&self.users[i].hash, password),
            None => false,
        }
    }
}

/// What the request presented on the session path: nothing, or a session
/// identifier together with what the table resolves it to.
pub open spec fn spec_session_presentation(sessions: Seq<SessionV>, sid: Option<u64>) -> Option<
    Option<Seq<char>>,
> {
    match sid {
        None => None,
        Some(s) => Some(spec_session_user(sessions, s)),
    }
}

/// What the request presented on the basic-auth path: nothing, or a pair
/// together with the username it independently verifies as.
pub open spec fn spec_basic_presentation(users: Seq<UserV>, basic: Option<BasicAuthV>) -> Option<
    Option<Seq<char>>,
> {
    match basic {
        None => None,
        Some(b) => Some(
            if spec_verify(users, b.username, b.password) {
                Some(b.username)
            } else {
                None
            },
        ),
    }
}

pub open spec fn spec_sid_view(sid: Option<SessionId>) -> Option<u64> {
    match sid {
        Some(s) => Some(s@),
        None => None,
    }
}

pub open spec fn spec_basic_view(b: Option<&BasicAuth>) -> Option<BasicAuthV> {
    match b {
        Some(x) => Some(x@),
        None => None,
    }
}

impl PodSync {
    /// Issues a fresh session bound to `username` and hands back its token.
    fn issue_session(&mut self, username: String) -> (r: Result<Authed, Error>)
        requires
            old(self).wf(),
            spec_user_exists(old(self)@.users, username@),
        ensures
            final(self).wf(),
            old(self)@.next_session == u64::MAX ==> (r == Err::<Authed, Error>(Error::Internal)
                && final(self)@ == old(self)@),
            old(self)@.next_session < u64::MAX ==> (r matches Ok(a) && a@ == (AuthedV {
                username: username@,
                session_id: old(self)@.next_session,
            }) && final(self)@ == (PodSyncV {
                sessions: old(self)@.sessions.push(
                    SessionV { id: old(self)@.next_session, username: username@ },
                ),
                next_session: (old(self)@.next_session + 1) as u64,
                ..old(self)@
            })),
    {
        if self.next_session == u64::MAX {
            return Err(Error::Internal);
        }
        let ghost pre = self@;
        let ghost oldvec = self.sessions@;
        let ghost uname = username@;
        let id = self.next_session;
        self.next_session = id + 1;
        self.sessions.push(Session { id, username: username.clone() });
        proof {
            let rec = self.sessions@.last();
            assert(self.sessions@ == oldvec.push(rec));
            crate::views::lemma_views_push(oldvec, rec);
            assert(rec@ == SessionV { id: id, username: uname });
            assert(self@.sessions == pre.sessions.push(SessionV { id: id, username: uname }));
            assert(forall|i: int|
                0 <= i < pre.sessions.len() ==> self@.sessions[i] == pre.sessions[i]);
            assert(self@.sessions.last() == SessionV { id: id, username: uname });
        }
        Ok(Authed::make(username, SessionId::new(id)))
    }

    /// Login: the basic-auth pair must verify; a session cookie presented
    /// beside it must be a live session of the very same user, in which case
    /// it is verified and kept — the re-login is idempotent — while without a
    /// cookie a fresh session is issued. A stale or foreign cookie is an
    /// outright rejection, never a silent re-bind: sessions are never
    /// transferred between users.
    pub fn login(&mut self, auth: &BasicAuth, session_id: Option<SessionId>) -> (r: Result<
        Authed,
        Error,
    >)
        requires
            old(self).wf(),
        ensures
            final(self).wf(),
            !spec_verify(old(self)@.users, auth@.username, auth@.password) ==> (r == Err::<
                Authed,
                Error,
            >(Error::Unauthorized) && final(self)@ == old(self)@),
            session_id matches Some(sid) ==> ({
                let u = auth@.username;
                &&& (spec_verify(old(self)@.users, u, auth@.password) && spec_session_user(
                    old(self)@.sessions,
                    sid@,
                ) == Some(u)) ==> (r matches Ok(a) && a@ == (AuthedV {
                    username: u,
                    session_id: sid@,
                }) && final(self)@ == old(self)@)
                &&& (spec_verify(old(self)@.users, u, auth@.password) && spec_session_user(
                    old(self)@.sessions,
                    sid@,
                ) != Some(u)) ==> (r == Err::<Authed, Error>(Error::Unauthorized) && final(self)@
                    == old(self)@)
            }),
            session_id is None ==> ({
                let u = auth@.username;
                &&& (spec_verify(old(self)@.users, u, auth@.password) && old(self)@.next_session
                    < u64::MAX) ==> (r matches Ok(a) && a@ == (AuthedV {
                    username: u,
                    session_id: old(self)@.next_session,
                }) && final(self)@ == (PodSyncV {
                    sessions: old(self)@.sessions.push(
                        SessionV { id: old(self)@.next_session, username: u },
                    ),
                    next_session: (old(self)@.next_session + 1) as u64,
                    ..old(self)@
                }))
                &&& (spec_verify(old(self)@.users, u, auth@.password) && old(self)@.next_session
                    == u64::MAX) ==> (r == Err::<Authed, Error>(Error::Internal) && final(self)@
                    == old(self)@)
            }),
    {
        let ok = self.verify(auth.username().as_str(), auth.password().as_str());
        if !ok {
            return Err(Error::Unauthorized);
        }
        proof {
            lemma_find_user_is_member(self@.users, auth@.username);
        }
        match session_id {
            Some(sid) => {
                match self.find_session_idx(sid.value()) {
                    Some(i) => {
                        if str_eq(
                            self.sessions[i].username.as_str(),
                            auth.username().as_str(),
                        ) {
                            Ok(Authed::make(auth.username().clone(), sid))
                        } else {
                            Err(Error::Unauthorized)
                        }
                    },
                    None => Err(Error::Unauthorized),
                }
            },
            None => self.issue_session(auth.username().clone()),
        }
    }

    /// The cookie path: a presented session identifier must be live, and its
    /// bound username is the authority.
    pub fn authenticate(&self, session_id: SessionId) -> (r: Result<Authed, Error>)
        ensures
            match spec_session_user(self@.sessions, session_id@) {
                Some(u) => (r matches Ok(a) && a@ == (AuthedV {
                    username: u,
                    session_id: session_id@,
                })),
                None => r == Err::<Authed, Error>(Error::Unauthorized),
            },
    {
        match self.find_session_idx(session_id.value()) {
            Some(i) => Ok(Authed::make(self.sessions[i].username.clone(), session_id)),
            None => Err(Error::Unauthorized),
        }
    }

    /// The unified request gate: both credential paths validated
    /// independently and combined by the one resolution rule. A request that
    /// authorizes on basic-auth alone is given a fresh session, exactly as a
    /// login would, so every token carries a live session.
    pub fn authorize_request(
        &mut self,
        session_id: Option<SessionId>,
        basic: Option<&BasicAuth>,
    ) -> (r: Result<Authed, Error>)
        requires
            old(self).wf(),
        ensures
            final(self).wf(),
            ({
                let dec = spec_resolve(
                    spec_session_presentation(old(self)@.sessions, spec_sid_view(session_id)),
                    spec_basic_presentation(old(self)@.users, spec_basic_view(basic)),
                );
                &&& dec is None ==> (r == Err::<Authed, Error>(Error::Unauthorized) && final(self)@ == old(self)@)
                &&& dec matches Some(u) ==> (session_id matches Some(sid) ==> (r matches Ok(a)
                    && a@ == (AuthedV { username: u, session_id: sid@ }) && final(self)@ == old(self)@))
                &&& dec matches Some(u) ==> ((session_id is None && old(self)@.next_session
                    < u64::MAX) ==> (r matches Ok(a) && a@ == (AuthedV {
                    username: u,
                    session_id: old(self)@.next_session,
                }) && final(self)@ == (PodSyncV {
                    sessions: old(self)@.sessions.push(
                        SessionV { id: old(self)@.next_session, username: u },
                    ),
                    next_session: (old(self)@.next_session + 1) as u64,
                    ..old(self)@
                })))
                &&& (dec is Some && session_id is None && old(self)@.next_session == u64::MAX)
                    ==> (r == Err::<Authed, Error>(Error::Internal) && final(self)@ == old(self)@)
            }),
    {
        let session_res: Option<Option<String>> = match &session_id {
            None => None,
            Some(sid) => Some(
                match self.find_session_idx(sid.value()) {
                    Some(i) => Some(self.sessions[i].username.clone()),
                    None => None,
                },
            ),
        };
        let basic_res: Option<Option<String>> = match basic {
            None => None,
            Some(b) => {
                let ok = self.verify(b.username().as_str(), b.password().as_str());
                if ok {
                    proof {
                        lemma_find_user_is_member(self@.users, b@.username);
                    }
                    Some(Some(b.username().clone()))
                } else {
                    Some(None)
                }
            },
        };
        proof {
            assert(crate::auth::opt_opt_view(session_res) == spec_session_presentation(
                self@.sessions,
                spec_sid_view(session_id),
            ));
            assert(crate::auth::opt_opt_view(basic_res) == spec_basic_presentation(
                self@.users,
                spec_basic_view(basic),
            ));
        }
        match resolve_credentials(session_res, basic_res) {
            Err(e) => Err(e),
            Ok(uname) => {
                match session_id {
                    Some(sid) => Ok(Authed::make(uname, sid)),
                    None => self.issue_session(uname),
                }
            },
        }
    }

    /// Logout: revokes the token's session. Rows of other sessions stay
    /// untouched; revoking an already-gone session is a successful no-op.
    pub fn logout(&mut self, authed: Authed) -> (r: Result<(), Error>)
        requires
            old(self).wf(),
        ensures
            final(self).wf(),
            r == Ok::<(), Error>(()),
            final(self)@ == (PodSyncV {
                sessions: spec_remove_session(old(self)@.sessions, authed@.session_id),
                ..old(self)@
            }),
    {
        let sid = authed.session_id().value();
        let n = self.sessions.len();
        let mut kept: Vec<Session> = Vec::new();
        let ghost orig = self@.sessions;
        let mut i: usize = 0;
        proof {
            assert(orig.take(0) =~= Seq::<SessionV>::empty());
            assert(seq_views(kept@) =~= Seq::<SessionV>::empty());
        }
        while i < n
            invariant
                i <= n,
                n == self.sessions@.len(),
                orig == seq_views(self.sessions@),
                orig.len() == n,
                sid == authed@.session_id,
                seq_views(kept@) == spec_remove_session(orig.take(i as int), sid),
            decreases n - i,
        {
            proof {
                assert(orig.take(i as int + 1).drop_last() =~= orig.take(i as int));
                assert(orig.take(i as int + 1).last() == orig[i as int]);
            }
            if self.sessions[i].id != sid {
                let id = self.sessions[i].id;
                let uname = self.sessions[i].username.clone();
                let ghost kv = seq_views(kept@);
                let ghost oldkept = kept@;
                kept.push(Session { id, username: uname });
                proof {
                    let rec = kept@.last();
                    assert(kept@ == oldkept.push(rec));
                    crate::views::lemma_views_push(oldkept, rec);
                    assert(rec@ == orig[i as int]);
                }
            }
            i = i + 1;
        }
        proof {
            assert(orig.take(n as int) =~= orig);
        }
        self.sessions = kept;
        proof {
            let pre = old(self)@;
            let res = spec_remove_session(pre.sessions, sid);
            crate::auth::lemma_remove_session_unique(pre.sessions, sid);
            crate::auth::lemma_remove_session_members(pre.sessions, sid);
            assert forall|k: int| 0 <= k < res.len() implies #[trigger] res[k].id
                < pre.next_session && spec_user_exists(pre.users, res[k].username) by {
                assert(pre.sessions.contains(res[k]));
                let w = choose|w: int|
                    0 <= w < pre.sessions.len() && pre.sessions[w] == res[k];
                assert(pre.sessions[w].id < pre.next_session);
            }
        }
        Ok(())
    }
}

impl PodSync {
    /// How many feeds the device is currently subscribed to.
    fn count_subs(&self, u: &str, id: &str) -> (c: u64)
        ensures
            c as nat == spec_sub_count(self@.subscriptions, u@, id@),
    {
        let ghost subs = self@.subscriptions;
        let n = self.subscriptions.len();
        let mut c: u64 = 0;
        let mut i: usize = 0;
        proof {
            assert(subs.take(0) =~= Seq::<SubV>::empty());
        }
        while i < n
            invariant
                i <= n,
                n == self.subscriptions@.len(),
                subs == self@.subscriptions,
                subs.len() == n,
                c as nat == spec_sub_count(subs.take(i as int), u@, id@),
                c <= i,
            decreases n - i,
        {
            proof {
                assert(subs.take(i as int + 1).drop_last() =~= subs.take(i as int));
                assert(subs.take(i as int + 1).last() == subs[i as int]);
            }
            let m = str_eq(self.subscriptions[i].username.as_str(), u) && str_eq(
                self.subscriptions[i].device.as_str(),
                id,
            );
            if m && self.subscriptions[i].subscribed {
                c = c + 1;
            }
            i = i + 1;
        }
        proof {
            assert(subs.take(n as int) =~= subs);
        }
        c
    }

    /// All devices the user owns, in creation order, each with its current
    /// subscription count. Never an error: an authorized empty set is an
    /// empty listing.
    pub fn devices(&self, authed: &Authed) -> (r: Vec<DeviceEntry>)
        ensures
            seq_views(r@) == spec_device_list(self@.devices, self@.subscriptions, authed@.username),
    {
        let mut out: Vec<DeviceEntry> = Vec::new();
        let n = self.devices.len();
        let ghost devs = self@.devices;
        let ghost subs = self@.subscriptions;
        let mut i: usize = 0;
        proof {
            assert(devs.take(0) =~= Seq::<DeviceV>::empty());
            assert(seq_views(out@) =~= Seq::<DeviceEntryV>::empty());
        }
        while i < n
            invariant
                i <= n,
                n == self.devices@.len(),
                devs == self@.devices,
                subs == self@.subscriptions,
                devs.len() == n,
                seq_views(out@) == spec_device_list(devs.take(i as int), subs, authed@.username),
            decreases n - i,
        {
            proof {
                assert(devs.take(i as int + 1).drop_last() =~= devs.take(i as int));
                assert(devs.take(i as int + 1).last() == devs[i as int]);
            }
            if str_eq(self.devices[i].username.as_str(), authed.username().as_str()) {
                let count = self.count_subs(authed.username().as_str(), self.devices[i].id.as_str());
                let entry = DeviceEntry {
                    id: self.devices[i].id.clone(),
                    caption: self.devices[i].caption.clone(),
                    dtype: self.devices[i].dtype,
                    subscriptions: count,
                };
                let ghost ov = out@;
                out.push(entry);
                proof {
                    let rec = out@.last();
                    assert(out@ == ov.push(rec));
                    crate::views::lemma_views_push(ov, rec);
                    crate::device::lemma_sub_count_bounded(subs, authed@.username, devs[i as int].id);
                    assert(rec@ == DeviceEntryV {
                        id: devs[i as int].id,
                        caption: devs[i as int].caption,
                        dtype: devs[i as int].dtype,
                        subscriptions: spec_sub_count(subs, authed@.username, devs[i as int].id) as u64,
                    });
                }
            }
            i = i + 1;
        }
        proof {
            assert(devs.take(n as int) =~= devs);
        }
        out
    }

    /// The index of the row owned by `u` under slug `id`, if any.
    fn find_device_idx(&self, u: &str, id: &str) -> (r: Option<usize>)
        ensures
            match r {
                Some(i) => i < self@.devices.len() && crate::device::device_key_is(
                    self@.devices[i as int],
                    u@,
                    id@,
                ),
                None => !crate::device::spec_device_exists(self@.devices, u@, id@),
            },
    {
        let ghost devs = self@.devices;
        let n = self.devices.len();
        let mut i: usize = 0;
        while i < n
            invariant
                i <= n,
                n == self.devices@.len(),
                devs == self@.devices,
                devs.len() == n,
                forall|j: int|
                    0 <= j < i ==> !crate::device::device_key_is(devs[j], u@, id@),
            decreases n - i,
        {
            if str_eq(self.devices[i].username.as_str(), u) && str_eq(
                self.devices[i].id.as_str(),
                id,
            ) {
                return Some(i);
            }
            i = i + 1;
        }
        None
    }

    /// Upsert of a device record: a first update under a new slug creates
    /// the row with defaults for whatever the client omitted; a later update
    /// touches only the supplied fields. Safe under concurrent identical
    /// requests — the second writer's partial update simply applies.
    pub fn update_device(&mut self, authed: &Authed, device_id: &str, update: DeviceUpdate) -> (r:
        Result<(), Error>)
        requires
            old(self).wf(),
            token_ok(old(self)@, authed@),
        ensures
            final(self).wf(),
            r == Ok::<(), Error>(()),
            final(self)@ == (PodSyncV {
                devices: spec_device_upsert(
                    old(self)@.devices,
                    authed@.username,
                    device_id@,
                    update@,
                ),
                ..old(self)@
            }),
    {
        let ghost devs = self@.devices;
        let ghost u = authed@.username;
        let ghost upv = update@;
        match self.find_device_idx(authed.username().as_str(), device_id) {
            Some(i) => {
                let uname = self.devices[i].username.clone();
                let did = self.devices[i].id.clone();
                let caption = match update.caption {
                    Some(c) => c,
                    None => self.devices[i].caption.clone(),
                };
                let dtype = match update.dtype {
                    Some(t) => t,
                    None => self.devices[i].dtype,
                };
                let ghost oldvec = self.devices@;
                self.devices[i] = DeviceRecord { username: uname, id: did, caption, dtype };
                proof {
                    let rec = self.devices@[i as int];
                    assert(self.devices@ == oldvec.update(i as int, rec));
                    crate::views::lemma_views_update(oldvec, i as int, rec);
                    assert(rec@ == crate::device::spec_device_updated(devs[i as int], upv));
                    assert(crate::device::spec_device_exists(devs, u, device_id@)) by {
                        assert(crate::device::device_key_is(devs[i as int], u, device_id@));
                    }
                    assert forall|j: int| 0 <= j < devs.len() && j != i implies
                        !crate::device::device_key_is(devs[j], u, device_id@) by {
                        if crate::device::device_key_is(devs[j], u, device_id@) {
                            assert(devs[j].username == devs[i as int].username && devs[j].id
                                == devs[i as int].id);
                        }
                    }
                    assert(self@.devices =~= spec_device_upsert(devs, u, device_id@, upv));
                    crate::device::lemma_device_upsert_preserves(devs, u, device_id@, upv);
                    assert forall|j: int| 0 <= j < self@.devices.len() implies spec_user_exists(
                        old(self)@.users,
                        self@.devices[j].username,
                    ) by {
                        assert(self@.devices[j].username == devs[j].username);
                    }
                }
                Ok(())
            },
            None => {
                let fresh = DeviceRecord {
                    username: authed.username().clone(),
                    id: device_id.to_owned(),
                    caption: match update.caption {
                        Some(c) => c,
                        None => String::new(),
                    },
                    dtype: match update.dtype {
                        Some(t) => t,
                        None => crate::device::DeviceType::Unknown,
                    },
                };
                let ghost oldvec = self.devices@;
                self.devices.push(fresh);
                proof {
                    let rec = self.devices@.last();
                    assert(self.devices@ == oldvec.push(rec));
                    crate::views::lemma_views_push(oldvec, rec);
                    assert(rec@ == crate::device::spec_device_fresh(u, device_id@, upv));
                    assert(self@.devices == devs.push(rec@));
                    crate::device::lemma_device_upsert_preserves(devs, u, device_id@, upv);
                    assert forall|j: int| 0 <= j < self@.devices.len() implies spec_user_exists(
                        old(self)@.users,
                        self@.devices[j].username,
                    ) by {
                        if j < devs.len() {
                            assert(self@.devices[j] == devs[j]);
                        } else {
                            assert(self@.devices[j].username == u);
                        }
                    }
                }
                Ok(())
            },
        }
    }
}

impl PodSync {
    /// One removal inside a batch: flips the triple's row to unsubscribed at
    /// cursor `t` if it is currently subscribed; otherwise changes nothing.
    fn remove_sub(&mut self, u: &str, d: &str, url: &str, t: u64)
        ensures
            final(self)@ == (PodSyncV {
                subscriptions: spec_remove_one(old(self)@.subscriptions, u@, d@, url@, t),
                ..old(self)@
            }),
    {
        let ghost orig = self@.subscriptions;
        let n = self.subscriptions.len();
        let mut i: usize = 0;
        while i < n
            invariant
                i <= n,
                n == self.subscriptions@.len(),
                orig.len() == n,
                self@.users == old(self)@.users,
                self@.sessions == old(self)@.sessions,
                self@.devices == old(self)@.devices,
                self@.episodes == old(self)@.episodes,
                self@.clock == old(self)@.clock,
                self@.next_session == old(self)@.next_session,
                orig == old(self)@.subscriptions,
                self@.subscriptions.len() == n,
                forall|j: int|
                    i <= j < n ==> #[trigger] self@.subscriptions[j] == orig[j],
                forall|j: int|
                    0 <= j < i ==> #[trigger] self@.subscriptions[j] == (
                    if sub_key_is(orig[j], u@, d@, url@) && orig[j].subscribed {
                        SubV {
                            username: orig[j].username,
                            device: orig[j].device,
                            url: orig[j].url,
                            subscribed: false,
                            changed: t,
                        }
                    } else {
                        orig[j]
                    }),
            decreases n - i,
        {
            proof {
                assert(self@.subscriptions[i as int] == self.subscriptions@[i as int]@);
                assert(self@.subscriptions[i as int] == orig[i as int]);
            }
            let m = str_eq(self.subscriptions[i].username.as_str(), u) && str_eq(
                self.subscriptions[i].device.as_str(),
                d,
            ) && str_eq(self.subscriptions[i].url.as_str(), url);
            if m && self.subscriptions[i].subscribed {
                let uname = self.subscriptions[i].username.clone();
                let dev = self.subscriptions[i].device.clone();
                let theurl = self.subscriptions[i].url.clone();
                let ghost oldvec = self.subscriptions@;
                self.subscriptions[i] = SubRecord {
                    username: uname,
                    device: dev,
                    url: theurl,
                    subscribed: false,
                    changed: t,
                };
                proof {
                    let rec = self.subscriptions@[i as int];
                    assert(self.subscriptions@ == oldvec.update(i as int, rec));
                    crate::views::lemma_views_update(oldvec, i as int, rec);
                    assert(rec@ == SubV {
                        username: orig[i as int].username,
                        device: orig[i as int].device,
                        url: orig[i as int].url,
                        subscribed: false,
                        changed: t,
                    });
                }
            }
            i = i + 1;
        }
        proof {
            assert(self@.subscriptions =~= spec_remove_one(orig, u@, d@, url@, t));
        }
    }

    /// One addition inside a batch: flips an unsubscribed row of the triple
    /// to subscribed at cursor `t`, appends a fresh row if the triple is new,
    /// and leaves an already subscribed row — and its change cursor — alone.
    fn add_sub(&mut self, u: &str, d: &str, url: &str, t: u64)
        ensures
            final(self)@ == (PodSyncV {
                subscriptions: spec_add_one(old(self)@.subscriptions, u@, d@, url@, t),
                ..old(self)@
            }),
    {
        let ghost orig = self@.subscriptions;
        let n = self.subscriptions.len();
        let mut found = false;
        let mut i: usize = 0;
        while i < n
            invariant
                i <= n,
                n == self.subscriptions@.len(),
                orig.len() == n,
                self@.users == old(self)@.users,
                self@.sessions == old(self)@.sessions,
                self@.devices == old(self)@.devices,
                self@.episodes == old(self)@.episodes,
                self@.clock == old(self)@.clock,
                self@.next_session == old(self)@.next_session,
                orig == old(self)@.subscriptions,
                self@.subscriptions.len() == n,
                found == exists|j: int| 0 <= j < i && sub_key_is(orig[j], u@, d@, url@),
                forall|j: int|
                    i <= j < n ==> #[trigger] self@.subscriptions[j] == orig[j],
                forall|j: int|
                    0 <= j < i ==> #[trigger] self@.subscriptions[j] == (
                    if sub_key_is(orig[j], u@, d@, url@) && !orig[j].subscribed {
                        SubV {
                            username: orig[j].username,
                            device: orig[j].device,
                            url: orig[j].url,
                            subscribed: true,
                            changed: t,
                        }
                    } else {
                        orig[j]
                    }),
            decreases n - i,
        {
            proof {
                assert(self@.subscriptions[i as int] == self.subscriptions@[i as int]@);
                assert(self@.subscriptions[i as int] == orig[i as int]);
            }
            let m = str_eq(self.subscriptions[i].username.as_str(), u) && str_eq(
                self.subscriptions[i].device.as_str(),
                d,
            ) && str_eq(self.subscriptions[i].url.as_str(), url);
            proof {
                assert(m == sub_key_is(orig[i as int], u@, d@, url@));
            }
            if m {
                if !self.subscriptions[i].subscribed {
                    let uname = self.subscriptions[i].username.clone();
                    let dev = self.subscriptions[i].device.clone();
                    let theurl = self.subscriptions[i].url.clone();
                    let ghost oldvec = self.subscriptions@;
                    self.subscriptions[i] = SubRecord {
                        username: uname,
                        device: dev,
                        url: theurl,
                        subscribed: true,
                        changed: t,
                    };
                    proof {
                        let rec = self.subscriptions@[i as int];
                        assert(self.subscriptions@ == oldvec.update(i as int, rec));
                        crate::views::lemma_views_update(oldvec, i as int, rec);
                        assert(rec@ == SubV {
                            username: orig[i as int].username,
                            device: orig[i as int].device,
                            url: orig[i as int].url,
                            subscribed: true,
                            changed: t,
                        });
                    }
                }
                found = true;
            }
            i = i + 1;
        }
        if found {
            proof {
                assert(crate::subscription::spec_sub_exists(orig, u@, d@, url@));
                assert(self@.subscriptions =~= spec_add_one(orig, u@, d@, url@, t));
            }
        } else {
            proof {
                assert(!crate::subscription::spec_sub_exists(orig, u@, d@, url@));
                assert(self@.subscriptions =~= orig);
            }
            let fresh = SubRecord {
                username: u.to_owned(),
                device: d.to_owned(),
                url: url.to_owned(),
                subscribed: true,
                changed: t,
            };
            let ghost oldvec = self.subscriptions@;
            self.subscriptions.push(fresh);
            proof {
                let rec = self.subscriptions@.last();
                assert(self.subscriptions@ == oldvec.push(rec));
                crate::views::lemma_views_push(oldvec, rec);
                assert(rec@ == SubV {
                    username: u@,
                    device: d@,
                    url: url@,
                    subscribed: true,
                    changed: t,
                });
                assert(self@.subscriptions == orig.push(rec@));
            }
        }
    }

    /// What changed since a cursor: the device's URLs whose latest state
    /// change is strictly newer, split into currently-subscribed (added) and
    /// currently-unsubscribed (removed) — a URL removed and re-added inside
    /// the window reports as added only, latest state wins. The cursor
    /// handed back is the server's current write cursor.
    pub fn subscriptions(&self, authed: &Authed, device_id: &str, since: u64) -> (r:
        SubscriptionDelta)
        ensures
            seq_views(r.add@) == spec_sub_delta(
                self@.subscriptions,
                authed@.username,
                device_id@,
                since,
                true,
            ),
            seq_views(r.remove@) == spec_sub_delta(
                self@.subscriptions,
                authed@.username,
                device_id@,
                since,
                false,
            ),
            r.timestamp == self@.clock,
    {
        let ghost subs = self@.subscriptions;
        let ghost u = authed@.username;
        let mut added: Vec<String> = Vec::new();
        let mut removed: Vec<String> = Vec::new();
        let n = self.subscriptions.len();
        let mut i: usize = 0;
        proof {
            assert(subs.take(0) =~= Seq::<SubV>::empty());
            assert(seq_views(added@) =~= Seq::<Seq<char>>::empty());
            assert(seq_views(removed@) =~= Seq::<Seq<char>>::empty());
        }
        while i < n
            invariant
                i <= n,
                n == self.subscriptions@.len(),
                subs == self@.subscriptions,
                subs.len() == n,
                u == authed@.username,
                seq_views(added@) == spec_sub_delta(subs.take(i as int), u, device_id@, since, true),
                seq_views(removed@) == spec_sub_delta(
                    subs.take(i as int),
                    u,
                    device_id@,
                    since,
                    false,
                ),
            decreases n - i,
        {
            proof {
                assert(subs.take(i as int + 1).drop_last() =~= subs.take(i as int));
                assert(subs.take(i as int + 1).last() == subs[i as int]);
            }
            let m = str_eq(self.subscriptions[i].username.as_str(), authed.username().as_str())
                && str_eq(self.subscriptions[i].device.as_str(), device_id);
            if m && self.subscriptions[i].changed > since {
                if self.subscriptions[i].subscribed {
                    let ghost ov = added@;
                    added.push(self.subscriptions[i].url.clone());
                    proof {
                        assert(added@ == ov.push(added@.last()));
                        crate::views::lemma_views_push(ov, added@.last());
                        assert(added@.last()@ == subs[i as int].url);
                    }
                } else {
                    let ghost ov = removed@;
                    removed.push(self.subscriptions[i].url.clone());
                    proof {
                        assert(removed@ == ov.push(removed@.last()));
                        crate::views::lemma_views_push(ov, removed@.last());
                        assert(removed@.last()@ == subs[i as int].url);
                    }
                }
            }
            i = i + 1;
        }
        proof {
            assert(subs.take(n as int) =~= subs);
        }
        SubscriptionDelta { add: added, remove: removed, timestamp: self.clock }
    }

    /// One whole submitted change-set, applied as one atomic step under one
    /// fresh cursor: all removals first, then all additions, so a URL named
    /// on both sides ends up added. Succeeds for every change-set unless the
    /// write cursor itself can no longer advance.
    pub fn update_subscriptions(
        &mut self,
        authed: &Authed,
        device_id: &str,
        changes: SubscriptionChanges,
    ) -> (r: Result<UpdatedUrls, Error>)
        requires
            old(self).wf(),
            token_ok(old(self)@, authed@),
        ensures
            final(self).wf(),
            old(self)@.clock == u64::MAX ==> (r == Err::<UpdatedUrls, Error>(Error::Internal)
                && final(self)@ == old(self)@),
            old(self)@.clock < u64::MAX ==> (r matches Ok(res) && res.timestamp == old(self)@.clock
                + 1 && res.update_urls@.len() == 0 && final(self)@ == (PodSyncV {
                subscriptions: spec_apply_changes(
                    old(self)@.subscriptions,
                    authed@.username,
                    device_id@,
                    seq_views(changes.add@),
                    seq_views(changes.remove@),
                    (old(self)@.clock + 1) as u64,
                ),
                clock: (old(self)@.clock + 1) as u64,
                ..old(self)@
            })),
            old(self)@.clock <= final(self)@.clock,
    {
        if self.clock == u64::MAX {
            return Err(Error::Internal);
        }
        let t = self.clock + 1;
        self.clock = t;
        let ghost pre = old(self)@;
        let ghost u = authed@.username;
        let ghost remv = seq_views(changes.remove@);
        let ghost addv = seq_views(changes.add@);
        let m = changes.remove.len();
        let mut k: usize = 0;
        proof {
            assert(remv.skip(0) =~= remv);
        }
        while k < m
            invariant
                k <= m,
                m == changes.remove@.len(),
                remv == seq_views(changes.remove@),
                remv.len() == m,
                u == authed@.username,
                t == pre.clock + 1,
                self@.users == pre.users,
                self@.sessions == pre.sessions,
                self@.devices == pre.devices,
                self@.episodes == pre.episodes,
                self@.clock == t,
                self@.next_session == pre.next_session,
                spec_remove_all(self@.subscriptions, u, device_id@, remv.skip(k as int), t)
                    == spec_remove_all(pre.subscriptions, u, device_id@, remv, t),
                crate::subscription::subs_ok(self@.subscriptions, pre.users, t),
            decreases m - k,
        {
            let ghost cur = self@.subscriptions;
            proof {
                assert(remv.skip(k as int)[0] == remv[k as int]);
                assert(remv[k as int] == changes.remove@[k as int]@);
                assert(remv.skip(k as int).drop_first() =~= remv.skip(k as int + 1));
                crate::subscription::lemma_remove_one_ok(
                    cur,
                    pre.users,
                    t,
                    u,
                    device_id@,
                    remv[k as int],
                    t,
                );
            }
            self.remove_sub(authed.username().as_str(), device_id, changes.remove[k].as_str(), t);
            k = k + 1;
        }
        proof {
            assert(remv.skip(m as int) =~= Seq::<Seq<char>>::empty());
            assert(self@.subscriptions == spec_remove_all(pre.subscriptions, u, device_id@, remv, t));
        }
        let ghost mid = self@.subscriptions;
        let p = changes.add.len();
        let mut k2: usize = 0;
        proof {
            assert(addv.skip(0) =~= addv);
        }
        while k2 < p
            invariant
                k2 <= p,
                p == changes.add@.len(),
                addv == seq_views(changes.add@),
                addv.len() == p,
                u == authed@.username,
                t == pre.clock + 1,
                token_ok(pre, authed@),
                self@.users == pre.users,
                self@.sessions == pre.sessions,
                self@.devices == pre.devices,
                self@.episodes == pre.episodes,
                self@.clock == t,
                self@.next_session == pre.next_session,
                spec_add_all(self@.subscriptions, u, device_id@, addv.skip(k2 as int), t)
                    == spec_add_all(mid, u, device_id@, addv, t),
                crate::subscription::subs_ok(self@.subscriptions, pre.users, t),
            decreases p - k2,
        {
            let ghost cur = self@.subscriptions;
            proof {
                assert(addv.skip(k2 as int)[0] == addv[k2 as int]);
                assert(addv[k2 as int] == changes.add@[k2 as int]@);
                assert(addv.skip(k2 as int).drop_first() =~= addv.skip(k2 as int + 1));
                crate::subscription::lemma_add_one_ok(
                    cur,
                    pre.users,
                    t,
                    u,
                    device_id@,
                    addv[k2 as int],
                    t,
                );
            }
            self.add_sub(authed.username().as_str(), device_id, changes.add[k2].as_str(), t);
            k2 = k2 + 1;
        }
        proof {
            assert(addv.skip(p as int) =~= Seq::<Seq<char>>::empty());
            assert(self@.subscriptions == spec_apply_changes(
                pre.subscriptions,
                u,
                device_id@,
                addv,
                remv,
                t,
            ));
        }
        Ok(UpdatedUrls { timestamp: t, update_urls: Vec::new() })
    }
}

impl PodSync {
    /// Whether the upload's deduplication identity is already in the log.
    fn episode_dup(&self, u: &str, d: &str, up: &EpisodeActionUpload) -> (r: bool)
        ensures
            r == spec_episode_dup(self@.episodes, u@, d@, up@),
    {
        let ghost rows = self@.episodes;
        let n = self.episodes.len();
        let mut i: usize = 0;
        while i < n
            invariant
                i <= n,
                n == self.episodes@.len(),
                rows == self@.episodes,
                rows.len() == n,
                forall|j: int| 0 <= j < i ==> !row_identity_is(rows[j], u@, d@, up@),
            decreases n - i,
        {
            proof {
                assert(self@.episodes[i as int] == self.episodes@[i as int]@);
            }
            let m = str_eq(self.episodes[i].username.as_str(), u) && str_eq(
                self.episodes[i].device.as_str(),
                d,
            ) && str_eq(self.episodes[i].podcast.as_str(), up.podcast.as_str()) && str_eq(
                self.episodes[i].episode.as_str(),
                up.episode.as_str(),
            ) && self.episodes[i].action == up.action && self.episodes[i].timestamp == up.timestamp;
            if m {
                proof {
                    assert(row_identity_is(rows[i as int], u@, d@, up@));
                }
                return true;
            }
            i = i + 1;
        }
        false
    }

    /// One upload inside a batch: appended under cursor `t` unless its
    /// identity is already in the log, in which case nothing changes.
    fn append_episode(&mut self, u: &str, d: &str, up: &EpisodeActionUpload, t: u64)
        ensures
            final(self)@ == (PodSyncV {
                episodes: spec_append_one(old(self)@.episodes, u@, d@, up@, t),
                ..old(self)@
            }),
    {
        let dup = self.episode_dup(u, d, up);
        if !dup {
            let guid = match &up.guid {
                Some(g) => Some(g.clone()),
                None => None,
            };
            let row = EpisodeRow {
                username: u.to_owned(),
                device: d.to_owned(),
                podcast: up.podcast.clone(),
                episode: up.episode.clone(),
                action: up.action,
                timestamp: up.timestamp,
                guid,
                created: t,
            };
            let ghost oldvec = self.episodes@;
            self.episodes.push(row);
            proof {
                let rec = self.episodes@.last();
                assert(self.episodes@ == oldvec.push(rec));
                crate::views::lemma_views_push(oldvec, rec);
                assert(rec@ == crate::episode::spec_row_of(u@, d@, up@, t));
            }
        }
    }

    /// The actions of the user's log written strictly after the cursor, in
    /// ascending effective (server write) time — ties stand in insertion
    /// order — optionally restricted to one podcast. The cursor handed back
    /// is the server's current write cursor.
    pub fn episodes(&self, authed: &Authed, query: QueryEpisodes) -> (r: EpisodeDelta)
        ensures
            seq_views(r.actions@) == spec_episode_delta(
                self@.episodes,
                authed@.username,
                query.since,
                opt_view(query.podcast),
            ),
            r.timestamp == self@.clock,
            self.wf() ==> crate::episode::rows_sorted(seq_views(r.actions@)),
    {
        proof {
            if self.wf() {
                crate::episode::lemma_episode_delta_sorted(
                    self@.episodes,
                    authed@.username,
                    query.since,
                    opt_view(query.podcast),
                );
            }
        }
        let ghost rows = self@.episodes;
        let ghost u = authed@.username;
        let ghost pv = opt_view(query.podcast);
        let mut out: Vec<EpisodeRow> = Vec::new();
        let n = self.episodes.len();
        let mut i: usize = 0;
        proof {
            assert(rows.take(0) =~= Seq::<EpisodeRowV>::empty());
            assert(seq_views(out@) =~= Seq::<EpisodeRowV>::empty());
        }
        while i < n
            invariant
                i <= n,
                n == self.episodes@.len(),
                rows == self@.episodes,
                rows.len() == n,
                u == authed@.username,
                pv == opt_view(query.podcast),
                seq_views(out@) == spec_episode_delta(rows.take(i as int), u, query.since, pv),
            decreases n - i,
        {
            proof {
                assert(rows.take(i as int + 1).drop_last() =~= rows.take(i as int));
                assert(rows.take(i as int + 1).last() == rows[i as int]);
                assert(self@.episodes[i as int] == self.episodes@[i as int]@);
            }
            let owner = str_eq(self.episodes[i].username.as_str(), authed.username().as_str());
            let wanted = match &query.podcast {
                None => true,
                Some(p) => str_eq(self.episodes[i].podcast.as_str(), p.as_str()),
            };
            if owner && self.episodes[i].created > query.since && wanted {
                let guid = match &self.episodes[i].guid {
                    Some(g) => Some(g.clone()),
                    None => None,
                };
                let row = EpisodeRow {
                    username: self.episodes[i].username.clone(),
                    device: self.episodes[i].device.clone(),
                    podcast: self.episodes[i].podcast.clone(),
                    episode: self.episodes[i].episode.clone(),
                    action: self.episodes[i].action,
                    timestamp: self.episodes[i].timestamp,
                    guid,
                    created: self.episodes[i].created,
                };
                let ghost ov = out@;
                out.push(row);
                proof {
                    let rec = out@.last();
                    assert(out@ == ov.push(rec));
                    crate::views::lemma_views_push(ov, rec);
                    assert(rec@ == rows[i as int]);
                }
            }
            i = i + 1;
        }
        proof {
            assert(rows.take(n as int) =~= rows);
        }
        EpisodeDelta { timestamp: self.clock, actions: out }
    }

    /// One uploaded batch of episode actions, applied as one atomic step
    /// under one fresh cursor. Exact duplicates — in the log or earlier in
    /// the same batch — are recognized and not re-inserted, so redelivery
    /// after a dropped response is safe. Succeeds for every batch unless the
    /// write cursor itself can no longer advance.
    pub fn update_episodes(
        &mut self,
        authed: &Authed,
        device_id: &str,
        actions: &Vec<EpisodeActionUpload>,
    ) -> (r: Result<UpdatedUrls, Error>)
        requires
            old(self).wf(),
            token_ok(old(self)@, authed@),
        ensures
            final(self).wf(),
            old(self)@.clock == u64::MAX ==> (r == Err::<UpdatedUrls, Error>(Error::Internal)
                && final(self)@ == old(self)@),
            old(self)@.clock < u64::MAX ==> (r matches Ok(res) && res.timestamp == old(self)@.clock
                + 1 && res.update_urls@.len() == 0 && final(self)@ == (PodSyncV {
                episodes: spec_append_all(
                    old(self)@.episodes,
                    authed@.username,
                    device_id@,
                    seq_views(actions@),
                    (old(self)@.clock + 1) as u64,
                ),
                clock: (old(self)@.clock + 1) as u64,
                ..old(self)@
            })),
            old(self)@.clock <= final(self)@.clock,
    {
        if self.clock == u64::MAX {
            return Err(Error::Internal);
        }
        let t = self.clock + 1;
        self.clock = t;
        let ghost pre = old(self)@;
        let ghost u = authed@.username;
        let ghost upsv = seq_views(actions@);
        let m = actions.len();
        let mut k: usize = 0;
        proof {
            assert(upsv.skip(0) =~= upsv);
        }
        while k < m
            invariant
                k <= m,
                m == actions@.len(),
                upsv == seq_views(actions@),
                upsv.len() == m,
                u == authed@.username,
                t == pre.clock + 1,
                token_ok(pre, authed@),
                self@.users == pre.users,
                self@.sessions == pre.sessions,
                self@.devices == pre.devices,
                self@.subscriptions == pre.subscriptions,
                self@.clock == t,
                self@.next_session == pre.next_session,
                spec_append_all(self@.episodes, u, device_id@, upsv.skip(k as int), t)
                    == spec_append_all(pre.episodes, u, device_id@, upsv, t),
                crate::episode::rows_ok(self@.episodes, pre.users, t),
                forall|j: int|
                    0 <= j < self@.episodes.len() ==> #[trigger] self@.episodes[j].created <= t,
            decreases m - k,
        {
            let ghost cur = self@.episodes;
            proof {
                assert(upsv.skip(k as int)[0] == upsv[k as int]);
                assert(upsv[k as int] == actions@[k as int]@);
                assert(upsv.skip(k as int).drop_first() =~= upsv.skip(k as int + 1));
                crate::episode::lemma_append_one_ok(
                    cur,
                    pre.users,
                    t,
                    u,
                    device_id@,
                    upsv[k as int],
                    t,
                );
            }
            self.append_episode(authed.username().as_str(), device_id, &actions[k], t);
            k = k + 1;
        }
        proof {
            assert(upsv.skip(m as int) =~= Seq::<EpisodeUploadV>::empty());
            assert(self@.episodes == spec_append_all(pre.episodes, u, device_id@, upsv, t));
        }
        Ok(UpdatedUrls { timestamp: t, update_urls: Vec::new() })
    }
}

/// Law: a successful login leaves a session bound to exactly the
/// authenticated username, and presenting that session alone on a later
/// request authorizes as that very user — the same authorization the
/// original basic-auth pair carries.
pub proof fn lemma_login_issues_bound_session(s: PodSyncV, u: Seq<char>)
    requires
        state_wf(s),
        s.next_session < u64::MAX,
    ensures
        ({
            let s1 = PodSyncV {
                sessions: s.sessions.push(SessionV { id: s.next_session, username: u }),
                next_session: (s.next_session + 1) as u64,
                ..s
            };
            &&& spec_session_user(s1.sessions, s.next_session) == Some(u)
            &&& spec_resolve(
                spec_session_presentation(s1.sessions, Some(s.next_session)),
                None,
            ) == Some(u)
        }),
{
    crate::auth::lemma_fresh_session_resolves(s.sessions, s.next_session, u);
}

/// Law: a live session for one user presented together with a verifying
/// basic-auth pair for a different user authorizes nobody — the request is
/// rejected outright, never silently resolved to either account.
pub proof fn lemma_mixed_credentials_rejected(s: PodSyncV, sid: u64, b: BasicAuthV)
    requires
        spec_session_user(s.sessions, sid) is Some,
        spec_verify(s.users, b.username, b.password),
        spec_session_user(s.sessions, sid) != Some(b.username),
    ensures
        spec_resolve(
            spec_session_presentation(s.sessions, Some(sid)),
            spec_basic_presentation(s.users, Some(b)),
        ) is None,
{
}

/// Law: after logout the revoked session identifier is rejected on every
/// subsequent request, while every other session still authorizes exactly
/// as before — sessions are never transferred.
pub proof fn lemma_logout_revokes(s: PodSyncV, sid: u64, other: u64)
    ensures
        spec_session_user(spec_remove_session(s.sessions, sid), sid) is None,
        spec_resolve(
            spec_session_presentation(spec_remove_session(s.sessions, sid), Some(sid)),
            None,
        ) is None,
        other != sid ==> spec_session_user(spec_remove_session(s.sessions, sid), other)
            == spec_session_user(s.sessions, other),
{
    crate::auth::lemma_removed_session_rejected(s.sessions, sid);
    if other != sid {
        crate::auth::lemma_remove_session_keeps_others(s.sessions, sid, other);
    }
}

/// Law: cursors answered by successive writes on the same store strictly
/// increase, whatever timestamps the clients submitted: every write answers
/// the advanced server clock and nothing derived from its input.
pub proof fn lemma_cursors_monotonic(s0: PodSyncV, s1: PodSyncV, s2: PodSyncV, r1: u64, r2: u64)
    requires
        s0.clock < u64::MAX,
        r1 == s0.clock + 1,
        s1.clock == s0.clock + 1,
        s1.clock < u64::MAX,
        r2 == s1.clock + 1,
        s2.clock == s1.clock + 1,
    ensures
        r1 < r2,
        s0.clock < s1.clock < s2.clock,
{
}

} // verus!

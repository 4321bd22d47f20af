//! The episode action log: an append-only record of playback and lifecycle
//! events.
//!
//! A row's identity for deduplication is the protocol-defined quintuple
//! `(podcast, episode, device, action, client timestamp)` within one user's
//! log; replaying an upload — a client retry after a dropped response —
//! inserts nothing new. The client's timestamp is kept as the event's nominal
//! time, but the cursor a write hands back comes from server-observed write
//! order, so a client with a fast clock can hide nothing from anyone.

use vstd::prelude::*;

use crate::text::opt_view;
use crate::user::{UserV, spec_user_exists};

verus! {

/// The query of the episode-delta endpoint: the cursor to read from and an
/// optional single-podcast restriction.
pub struct QueryEpisodes {
    pub since: u64,
    pub podcast: Option<String>,
}

/// The answer: the actions written after the cursor, and the cursor to
/// present next time.
pub struct EpisodeDelta {
    pub timestamp: u64,
    pub actions: Vec<EpisodeRow>,
}

/// What happened to an episode. Only `Play` carries progress; the other
/// kinds carry nothing, so no meaningless zero-filled fields exist.
#[derive(Clone, Copy, Debug, PartialEq, Eq, Structural)]
pub enum EpisodeActionKind {
    New,
    Download,
    Play { started: u64, position: u64, total: u64 },
    Delete,
}

/// One uploaded action, as the boundary layer hands it over.
pub struct EpisodeActionUpload {
    pub podcast: String,
    pub episode: String,
    pub action: EpisodeActionKind,
    pub timestamp: u64,
    pub guid: Option<String>,
}

/// The mathematical view of an uploaded action.
pub struct EpisodeUploadV {
    pub podcast: Seq<char>,
    pub episode: Seq<char>,
    pub action: EpisodeActionKind,
    pub timestamp: u64,
    pub guid: Option<Seq<char>>,
}

impl View for EpisodeActionUpload {
    type V = EpisodeUploadV;

    open spec fn view(&self) -> EpisodeUploadV {
        EpisodeUploadV {
            podcast: self.podcast@,
            episode: self.episode@,
            action: self.action,
            timestamp: self.timestamp,
            guid: opt_view(self.guid),
        }
    }
}

/// One stored row of the log. `timestamp` is the client's nominal event
/// time; `created` is the server cursor under which the row was written.
pub struct EpisodeRow {
    pub username: String,
    pub device: String,
    pub podcast: String,
    pub episode: String,
    pub action: EpisodeActionKind,
    pub timestamp: u64,
    pub guid: Option<String>,
    pub created: u64,
}

/// The mathematical view of a stored row.
pub struct EpisodeRowV {
    pub username: Seq<char>,
    pub device: Seq<char>,
    pub podcast: Seq<char>,
    pub episode: Seq<char>,
    pub action: EpisodeActionKind,
    pub timestamp: u64,
    pub guid: Option<Seq<char>>,
    pub created: u64,
}

impl View for EpisodeRow {
    type V = EpisodeRowV;

    open spec fn view(&self) -> EpisodeRowV {
        EpisodeRowV {
            username: self.username@,
            device: self.device@,
            podcast: self.podcast@,
            episode: self.episode@,
            action: self.action,
            timestamp: self.timestamp,
            guid: opt_view(self.guid),
            created: self.created,
        }
    }
}

/// Whether a stored row answers to an upload's deduplication identity.
pub open spec fn row_identity_is(
    r: EpisodeRowV,
    u: Seq<char>,
    d: Seq<char>,
    up: EpisodeUploadV,
) -> bool {
    r.username == u && r.device == d && r.podcast == up.podcast && r.episode == up.episode
        && r.action == up.action && r.timestamp == up.timestamp
}

/// Whether an upload is already present in the log.
pub open spec fn spec_episode_dup(
    rows: Seq<EpisodeRowV>,
    u: Seq<char>,
    d: Seq<char>,
    up: EpisodeUploadV,
) -> bool {
    exists|i: int| 0 <= i < rows.len() && row_identity_is(rows[i], u, d, up)
}

/// The row a fresh upload is stored as, under server cursor `t`.
pub open spec fn spec_row_of(u: Seq<char>, d: Seq<char>, up: EpisodeUploadV, t: u64) -> EpisodeRowV {
    EpisodeRowV {
        username: u,
        device: d,
        podcast: up.podcast,
        episode: up.episode,
        action: up.action,
        timestamp: up.timestamp,
        guid: up.guid,
        created: t,
    }
}

/// The log after one upload: unchanged if the identity is already present,
/// else the row appended.
pub open spec fn spec_append_one(
    rows: Seq<EpisodeRowV>,
    u: Seq<char>,
    d: Seq<char>,
    up: EpisodeUploadV,
    t: u64,
) -> Seq<EpisodeRowV> {
    if spec_episode_dup(rows, u, d, up) {
        rows
    } else {
        rows.push(spec_row_of(u, d, up, t))
    }
}

/// The log after a whole uploaded batch, applied in order, all under one
/// server cursor.
pub open spec fn spec_append_all(
    rows: Seq<EpisodeRowV>,
    u: Seq<char>,
    d: Seq<char>,
    ups: Seq<EpisodeUploadV>,
    t: u64,
) -> Seq<EpisodeRowV>
    decreases ups.len(),
{
    if ups.len() == 0 {
        rows
    } else {
        spec_append_all(spec_append_one(rows, u, d, ups[0], t), u, d, ups.drop_first(), t)
    }
}

/// No two rows of the log share a deduplication identity.
pub open spec fn rows_unique(rows: Seq<EpisodeRowV>) -> bool {
    forall|i: int, j: int|
        0 <= i < j < rows.len() ==> !(rows[i].username == rows[j].username && rows[i].device
            == rows[j].device && rows[i].podcast == rows[j].podcast && rows[i].episode
            == rows[j].episode && rows[i].action == rows[j].action && rows[i].timestamp
            == rows[j].timestamp)
}

/// Rows stand in server write order.
pub open spec fn rows_sorted(rows: Seq<EpisodeRowV>) -> bool {
    forall|i: int, j: int| 0 <= i < j < rows.len() ==> rows[i].created <= rows[j].created
}

/// The rows of one user's log written strictly after `since`, optionally
/// restricted to one podcast, in row order.
pub open spec fn spec_episode_delta(
    rows: Seq<EpisodeRowV>,
    u: Seq<char>,
    since: u64,
    podcast: Option<Seq<char>>,
) -> Seq<EpisodeRowV>
    decreases rows.len(),
{
    if rows.len() == 0 {
        Seq::empty()
    } else {
        let rest = spec_episode_delta(rows.drop_last(), u, since, podcast);
        let r = rows.last();
        if r.username == u && r.created > since && (podcast is None || podcast == Some(
            r.podcast,
        )) {
            rest.push(r)
        } else {
            rest
        }
    }
}

/// Every row of the delta is a row of the log.
pub proof fn lemma_episode_delta_members(
    rows: Seq<EpisodeRowV>,
    u: Seq<char>,
    since: u64,
    podcast: Option<Seq<char>>,
)
    ensures
        forall|k: int|
            0 <= k < spec_episode_delta(rows, u, since, podcast).len() ==> rows.contains(
                #[trigger] spec_episode_delta(rows, u, since, podcast)[k],
            ),
    decreases rows.len(),
{
    if rows.len() > 0 {
        lemma_episode_delta_members(rows.drop_last(), u, since, podcast);
        let res = spec_episode_delta(rows, u, since, podcast);
        let rest = spec_episode_delta(rows.drop_last(), u, since, podcast);
        assert forall|k: int| 0 <= k < res.len() implies rows.contains(res[k]) by {
            if k < rest.len() {
                assert(rows.drop_last().contains(rest[k]));
                let j = choose|j: int|
                    0 <= j < rows.drop_last().len() && rows.drop_last()[j] == rest[k];
                assert(rows[j] == res[k]);
            } else {
                assert(res[k] == rows.last());
                assert(rows[rows.len() - 1] == rows.last());
            }
        }
    }
}

/// Law: the delta of a log in write order is itself in write order —
/// ascending effective time, ties left in insertion order.
pub proof fn lemma_episode_delta_sorted(
    rows: Seq<EpisodeRowV>,
    u: Seq<char>,
    since: u64,
    podcast: Option<Seq<char>>,
)
    requires
        rows_sorted(rows),
    ensures
        rows_sorted(spec_episode_delta(rows, u, since, podcast)),
    decreases rows.len(),
{
    if rows.len() > 0 {
        assert(forall|i: int| 0 <= i < rows.len() - 1 ==> rows.drop_last()[i] == rows[i]);
        lemma_episode_delta_sorted(rows.drop_last(), u, since, podcast);
        lemma_episode_delta_members(rows.drop_last(), u, since, podcast);
        let res = spec_episode_delta(rows, u, since, podcast);
        let rest = spec_episode_delta(rows.drop_last(), u, since, podcast);
        assert forall|i: int, j: int| 0 <= i < j < res.len() implies res[i].created
            <= res[j].created by {
            if j < rest.len() {
                assert(res[i] == rest[i] && res[j] == rest[j]);
            } else {
                assert(res[i] == rest[i]);
                assert(rows.drop_last().contains(rest[i]));
                let w = choose|w: int|
                    0 <= w < rows.drop_last().len() && rows.drop_last()[w] == rest[i];
                assert(rows[w] == rest[i]);
                assert(rows[rows.len() - 1] == rows.last());
            }
        }
    }
}

/// Appending never removes a row, so an identity once present stays present.
pub proof fn lemma_dup_stable_under_append(
    rows: Seq<EpisodeRowV>,
    u: Seq<char>,
    d: Seq<char>,
    up: EpisodeUploadV,
    u2: Seq<char>,
    d2: Seq<char>,
    up2: EpisodeUploadV,
    t: u64,
)
    requires
        spec_episode_dup(rows, u, d, up),
    ensures
        spec_episode_dup(spec_append_one(rows, u2, d2, up2, t), u, d, up),
{
    let w = choose|i: int| 0 <= i < rows.len() && row_identity_is(rows[i], u, d, up);
    assert(spec_append_one(rows, u2, d2, up2, t)[w] == rows[w]);
}

/// After an upload is appended, its identity is present.
pub proof fn lemma_append_one_makes_dup(
    rows: Seq<EpisodeRowV>,
    u: Seq<char>,
    d: Seq<char>,
    up: EpisodeUploadV,
    t: u64,
)
    ensures
        spec_episode_dup(spec_append_one(rows, u, d, up, t), u, d, up),
{
    if !spec_episode_dup(rows, u, d, up) {
        let res = spec_append_one(rows, u, d, up, t);
        assert(res[rows.len() as int] == spec_row_of(u, d, up, t));
        assert(row_identity_is(spec_row_of(u, d, up, t), u, d, up));
    }
}

/// After a batch is appended, every upload of the batch is present.
pub proof fn lemma_append_all_makes_dup(
    rows: Seq<EpisodeRowV>,
    u: Seq<char>,
    d: Seq<char>,
    ups: Seq<EpisodeUploadV>,
    t: u64,
)
    ensures
        forall|k: int|
            0 <= k < ups.len() ==> spec_episode_dup(
                spec_append_all(rows, u, d, ups, t),
                u,
                d,
                ups[k],
            ),
    decreases ups.len(),
{
    if ups.len() > 0 {
        let rows1 = spec_append_one(rows, u, d, ups[0], t);
        lemma_append_all_makes_dup(rows1, u, d, ups.drop_first(), t);
        lemma_append_one_makes_dup(rows, u, d, ups[0], t);
        lemma_dup_stable_under_append_all(rows1, u, d, ups[0], ups.drop_first(), t);
        assert(forall|k: int| 1 <= k < ups.len() ==> ups.drop_first()[k - 1] == ups[k]);
    }
}

/// An identity present before a batch is still present after it.
pub proof fn lemma_dup_stable_under_append_all(
    rows: Seq<EpisodeRowV>,
    u: Seq<char>,
    d: Seq<char>,
    up: EpisodeUploadV,
    ups: Seq<EpisodeUploadV>,
    t: u64,
)
    requires
        spec_episode_dup(rows, u, d, up),
    ensures
        spec_episode_dup(spec_append_all(rows, u, d, ups, t), u, d, up),
    decreases ups.len(),
{
    if ups.len() > 0 {
        lemma_dup_stable_under_append(rows, u, d, up, u, d, ups[0], t);
        lemma_dup_stable_under_append_all(spec_append_one(rows, u, d, ups[0], t), u, d, up, ups.drop_first(), t);
    }
}

/// Law: replaying an identical upload batch changes nothing — each action
/// yields exactly one row however often the batch is delivered.
pub proof fn lemma_append_all_idempotent(
    rows: Seq<EpisodeRowV>,
    u: Seq<char>,
    d: Seq<char>,
    ups: Seq<EpisodeUploadV>,
    t1: u64,
    t2: u64,
)
    ensures
        spec_append_all(spec_append_all(rows, u, d, ups, t1), u, d, ups, t2) == spec_append_all(
            rows,
            u,
            d,
            ups,
            t1,
        ),
{
    lemma_append_all_makes_dup(rows, u, d, ups, t1);
    lemma_append_all_no_new(spec_append_all(rows, u, d, ups, t1), u, d, ups, t2);
}

/// A batch whose every upload is already present appends nothing.
pub proof fn lemma_append_all_no_new(
    rows: Seq<EpisodeRowV>,
    u: Seq<char>,
    d: Seq<char>,
    ups: Seq<EpisodeUploadV>,
    t: u64,
)
    requires
        forall|k: int| 0 <= k < ups.len() ==> spec_episode_dup(rows, u, d, ups[k]),
    ensures
        spec_append_all(rows, u, d, ups, t) == rows,
    decreases ups.len(),
{
    if ups.len() > 0 {
        assert(spec_episode_dup(rows, u, d, ups[0]));
        assert(spec_append_one(rows, u, d, ups[0], t) == rows);
        assert(forall|k: int| 1 <= k < ups.len() ==> ups.drop_first()[k - 1] == ups[k]);
        lemma_append_all_no_new(rows, u, d, ups.drop_first(), t);
    }
}

/// The log's own well-formedness against the account table and the write
/// cursor: unique identities, write order, owners that exist, write cursors
/// the clock has reached.
pub open spec fn rows_ok(rows: Seq<EpisodeRowV>, users: Seq<UserV>, clock: u64) -> bool {
    &&& rows_unique(rows)
    &&& rows_sorted(rows)
    &&& forall|i: int|
        0 <= i < rows.len() ==> spec_user_exists(users, #[trigger] rows[i].username)
    &&& forall|i: int| 0 <= i < rows.len() ==> #[trigger] rows[i].created <= clock
}

/// An append by an existing user at a cursor the clock has reached keeps the
/// log well-formed.
pub proof fn lemma_append_one_ok(
    rows: Seq<EpisodeRowV>,
    users: Seq<UserV>,
    clock: u64,
    u: Seq<char>,
    d: Seq<char>,
    up: EpisodeUploadV,
    t: u64,
)
    requires
        rows_ok(rows, users, clock),
        t <= clock,
        forall|i: int| 0 <= i < rows.len() ==> #[trigger] rows[i].created <= t,
        spec_user_exists(users, u),
    ensures
        rows_ok(spec_append_one(rows, u, d, up, t), users, clock),
        forall|i: int|
            0 <= i < spec_append_one(rows, u, d, up, t).len() ==> #[trigger] spec_append_one(
                rows,
                u,
                d,
                up,
                t,
            )[i].created <= t,
{
    lemma_append_one_preserves(rows, u, d, up, t);
    let res = spec_append_one(rows, u, d, up, t);
    if !spec_episode_dup(rows, u, d, up) {
        assert(res[rows.len() as int] == spec_row_of(u, d, up, t));
        assert(forall|i: int| 0 <= i < rows.len() ==> res[i] == rows[i]);
        assert forall|i: int| 0 <= i < res.len() implies spec_user_exists(users, res[i].username)
            && res[i].created <= clock by {
            if i < rows.len() {
                assert(res[i] == rows[i]);
            }
        }
    }
}

/// Appending under a cursor at least as new as every row keeps the log in
/// write order and keeps identities unique.
pub proof fn lemma_append_one_preserves(
    rows: Seq<EpisodeRowV>,
    u: Seq<char>,
    d: Seq<char>,
    up: EpisodeUploadV,
    t: u64,
)
    requires
        rows_sorted(rows),
        rows_unique(rows),
        forall|i: int| 0 <= i < rows.len() ==> rows[i].created <= t,
    ensures
        rows_sorted(spec_append_one(rows, u, d, up, t)),
        rows_unique(spec_append_one(rows, u, d, up, t)),
        forall|i: int|
            0 <= i < spec_append_one(rows, u, d, up, t).len() ==> #[trigger] spec_append_one(
                rows,
                u,
                d,
                up,
                t,
            )[i].created <= t,
{
    let res = spec_append_one(rows, u, d, up, t);
    if !spec_episode_dup(rows, u, d, up) {
        assert(res[rows.len() as int] == spec_row_of(u, d, up, t));
        assert(forall|i: int| 0 <= i < rows.len() ==> res[i] == rows[i]);
        assert forall|i: int, j: int| 0 <= i < j < res.len() implies !(res[i].username
            == res[j].username && res[i].device == res[j].device && res[i].podcast
            == res[j].podcast && res[i].episode == res[j].episode && res[i].action
            == res[j].action && res[i].timestamp == res[j].timestamp) by {
            if j == rows.len() {
                assert(!row_identity_is(rows[i], u, d, up));
            }
        }
    }
}

} // verus!

//! The subscription sync engine's state and merge semantics.
//!
//! A subscription row records, per `(username, device, url)` triple, whether
//! the device is currently subscribed and the cursor of the most recent state
//! change. A triple is logically unique; duplicate adds and removes of absent
//! rows are successful no-ops, so client retries stay simple. A batch applies
//! all removals first, then all additions: a URL named on both sides ends up
//! added — latest intent wins.

use vstd::prelude::*;

use crate::user::{UserV, spec_user_exists};

verus! {

/// A submitted change-set: the URLs to add and the URLs to remove.
pub struct SubscriptionChanges {
    pub add: Vec<String>,
    pub remove: Vec<String>,
}

/// The answer to "what changed since T": the split delta and the cursor to
/// present next time.
pub struct SubscriptionDelta {
    pub add: Vec<String>,
    pub remove: Vec<String>,
    pub timestamp: u64,
}

/// The answer to a write: the cursor the batch was committed under. The
/// protocol reserves a slot for rewritten URLs; this server never rewrites
/// any, so the list is always empty.
pub struct UpdatedUrls {
    pub timestamp: u64,
    pub update_urls: Vec<(String, String)>,
}

/// A stored subscription row.
pub struct SubRecord {
    pub username: String,
    pub device: String,
    pub url: String,
    pub subscribed: bool,
    pub changed: u64,
}

/// The mathematical view of a subscription row.
pub struct SubV {
    pub username: Seq<char>,
    pub device: Seq<char>,
    pub url: Seq<char>,
    pub subscribed: bool,
    pub changed: u64,
}

impl View for SubRecord {
    type V = SubV;

    open spec fn view(&self) -> SubV {
        SubV {
            username: self.username@,
            device: self.device@,
            url: self.url@,
            subscribed: self.subscribed,
            changed: self.changed,
        }
    }
}

/// Whether a row carries the given triple.
pub open spec fn sub_key_is(r: SubV, u: Seq<char>, d: Seq<char>, url: Seq<char>) -> bool {
    r.username == u && r.device == d && r.url == url
}

/// Whether two rows carry the same triple.
pub open spec fn sub_same_key(a: SubV, b: SubV) -> bool {
    a.username == b.username && a.device == b.device && a.url == b.url
}

/// No two rows share a triple.
pub open spec fn subs_unique(subs: Seq<SubV>) -> bool {
    forall|i: int, j: int| 0 <= i < j < subs.len() ==> !sub_same_key(subs[i], subs[j])
}

/// Whether any row carries the triple, subscribed or not.
pub open spec fn spec_sub_exists(subs: Seq<SubV>, u: Seq<char>, d: Seq<char>, url: Seq<char>) -> bool {
    exists|i: int| 0 <= i < subs.len() && sub_key_is(subs[i], u, d, url)
}

/// The table after removing one URL: a currently subscribed row of the triple
/// flips to unsubscribed at cursor `t`; anything else — other rows, or a row
/// already unsubscribed, or no row at all — stays exactly as it was.
pub open spec fn spec_remove_one(
    subs: Seq<SubV>,
    u: Seq<char>,
    d: Seq<char>,
    url: Seq<char>,
    t: u64,
) -> Seq<SubV> {
    subs.map_values(
        |r: SubV|
            if sub_key_is(r, u, d, url) && r.subscribed {
                SubV {
                    username: r.username,
                    device: r.device,
                    url: r.url,
                    subscribed: false,
                    changed: t,
                }
            } else {
                r
            },
    )
}

/// The table after adding one URL: an unsubscribed row of the triple flips to
/// subscribed at cursor `t`; a row already subscribed stays untouched — the
/// duplicate add is a no-op that does not even move the row's change cursor —
/// and an absent triple is appended as a fresh subscribed row.
pub open spec fn spec_add_one(
    subs: Seq<SubV>,
    u: Seq<char>,
    d: Seq<char>,
    url: Seq<char>,
    t: u64,
) -> Seq<SubV> {
    if spec_sub_exists(subs, u, d, url) {
        subs.map_values(
            |r: SubV|
                if sub_key_is(r, u, d, url) && !r.subscribed {
                    SubV {
                        username: r.username,
                        device: r.device,
                        url: r.url,
                        subscribed: true,
                        changed: t,
                    }
                } else {
                    r
                },
        )
    } else {
        subs.push(SubV { username: u, device: d, url: url, subscribed: true, changed: t })
    }
}

/// A batch of removals, applied left to right.
pub open spec fn spec_remove_all(
    subs: Seq<SubV>,
    u: Seq<char>,
    d: Seq<char>,
    urls: Seq<Seq<char>>,
    t: u64,
) -> Seq<SubV>
    decreases urls.len(),
{
    if urls.len() == 0 {
        subs
    } else {
        spec_remove_all(spec_remove_one(subs, u, d, urls[0], t), u, d, urls.drop_first(), t)
    }
}

/// A batch of additions, applied left to right.
pub open spec fn spec_add_all(
    subs: Seq<SubV>,
    u: Seq<char>,
    d: Seq<char>,
    urls: Seq<Seq<char>>,
    t: u64,
) -> Seq<SubV>
    decreases urls.len(),
{
    if urls.len() == 0 {
        subs
    } else {
        spec_add_all(spec_add_one(subs, u, d, urls[0], t), u, d, urls.drop_first(), t)
    }
}

/// One whole submitted change-set: all removals, then all additions, all at
/// the same server cursor.
pub open spec fn spec_apply_changes(
    subs: Seq<SubV>,
    u: Seq<char>,
    d: Seq<char>,
    add: Seq<Seq<char>>,
    remove: Seq<Seq<char>>,
    t: u64,
) -> Seq<SubV> {
    spec_add_all(spec_remove_all(subs, u, d, remove, t), u, d, add, t)
}

/// The URLs of the device's rows whose most recent state change is strictly
/// newer than `since` and whose current state is `subscribed`, in row order.
pub open spec fn spec_sub_delta(
    subs: Seq<SubV>,
    u: Seq<char>,
    d: Seq<char>,
    since: u64,
    subscribed: bool,
) -> Seq<Seq<char>>
    decreases subs.len(),
{
    if subs.len() == 0 {
        Seq::empty()
    } else {
        let rest = spec_sub_delta(subs.drop_last(), u, d, since, subscribed);
        let r = subs.last();
        if r.username == u && r.device == d && r.changed > since && r.subscribed == subscribed {
            rest.push(r.url)
        } else {
            rest
        }
    }
}

/// The subscription table's own well-formedness against the account table
/// and the write cursor: unique triples, owners that exist, change cursors
/// that never run ahead of the clock.
pub open spec fn subs_ok(subs: Seq<SubV>, users: Seq<UserV>, clock: u64) -> bool {
    &&& subs_unique(subs)
    &&& forall|i: int|
        0 <= i < subs.len() ==> spec_user_exists(users, #[trigger] subs[i].username)
    &&& forall|i: int| 0 <= i < subs.len() ==> #[trigger] subs[i].changed <= clock
}

/// A removal at a cursor the clock has reached keeps the table well-formed.
pub proof fn lemma_remove_one_ok(
    subs: Seq<SubV>,
    users: Seq<UserV>,
    clock: u64,
    u: Seq<char>,
    d: Seq<char>,
    url: Seq<char>,
    t: u64,
)
    requires
        subs_ok(subs, users, clock),
        t <= clock,
    ensures
        subs_ok(spec_remove_one(subs, u, d, url, t), users, clock),
{
    lemma_remove_one_preserves(subs, u, d, url, t);
    let res = spec_remove_one(subs, u, d, url, t);
    assert forall|i: int| 0 <= i < res.len() implies spec_user_exists(users, res[i].username)
        && res[i].changed <= clock by {
        assert(sub_same_key(res[i], subs[i]));
    }
}

/// An addition by an existing user at a cursor the clock has reached keeps
/// the table well-formed.
pub proof fn lemma_add_one_ok(
    subs: Seq<SubV>,
    users: Seq<UserV>,
    clock: u64,
    u: Seq<char>,
    d: Seq<char>,
    url: Seq<char>,
    t: u64,
)
    requires
        subs_ok(subs, users, clock),
        t <= clock,
        spec_user_exists(users, u),
    ensures
        subs_ok(spec_add_one(subs, u, d, url, t), users, clock),
{
    lemma_add_one_preserves(subs, u, d, url, t);
    let res = spec_add_one(subs, u, d, url, t);
    assert forall|i: int| 0 <= i < res.len() implies spec_user_exists(users, res[i].username)
        && res[i].changed <= clock by {
        if sub_key_is(res[i], u, d, url) {
            assert(res[i].username == u);
            if i < subs.len() && res[i] == subs[i] {
            } else {
            }
        } else {
            assert(res[i] == subs[i]);
        }
        if spec_sub_exists(subs, u, d, url) {
            assert(sub_same_key(res[i], subs[i]));
            assert(res[i].changed == subs[i].changed || res[i].changed == t);
        } else {
            if i < subs.len() {
                assert(res[i] == subs[i]);
            } else {
                assert(res[i].changed == t);
            }
        }
    }
}

/// A URL stands in the delta exactly when some row of the device carries it
/// in the asked-for state, changed after `since`.
pub proof fn lemma_sub_delta_contains(
    subs: Seq<SubV>,
    u: Seq<char>,
    d: Seq<char>,
    since: u64,
    subscribed: bool,
    url: Seq<char>,
)
    ensures
        spec_sub_delta(subs, u, d, since, subscribed).contains(url) <==> exists|i: int|
            0 <= i < subs.len() && sub_key_is(subs[i], u, d, url) && subs[i].changed > since
                && subs[i].subscribed == subscribed,
    decreases subs.len(),
{
    if subs.len() > 0 {
        lemma_sub_delta_contains(subs.drop_last(), u, d, since, subscribed, url);
        let rest = spec_sub_delta(subs.drop_last(), u, d, since, subscribed);
        let r = subs.last();
        assert(subs[subs.len() - 1] == r);
        assert(forall|i: int| 0 <= i < subs.len() - 1 ==> subs.drop_last()[i] == subs[i]);
        if r.username == u && r.device == d && r.changed > since && r.subscribed == subscribed {
            assert forall|x: Seq<char>| rest.push(r.url).contains(x) implies rest.contains(x) || x
                == r.url by {
                let k = choose|k: int| 0 <= k < rest.push(r.url).len() && rest.push(r.url)[k] == x;
                if k < rest.len() {
                    assert(rest[k] == x);
                }
            }
            assert(rest.push(r.url)[rest.len() as int] == r.url);
            assert(rest.push(r.url).contains(r.url));
            assert(forall|k: int| 0 <= k < rest.len() ==> rest.push(r.url)[k] == rest[k]);
            assert(forall|x: Seq<char>| rest.contains(x) ==> rest.push(r.url).contains(x));
        }
    }
}

/// Removing then adding keeps triples pointwise, so uniqueness survives.
pub proof fn lemma_remove_one_preserves(
    subs: Seq<SubV>,
    u: Seq<char>,
    d: Seq<char>,
    url: Seq<char>,
    t: u64,
)
    ensures
        spec_remove_one(subs, u, d, url, t).len() == subs.len(),
        forall|i: int|
            0 <= i < subs.len() ==> sub_same_key(
                #[trigger] spec_remove_one(subs, u, d, url, t)[i],
                subs[i],
            ),
        subs_unique(subs) ==> subs_unique(spec_remove_one(subs, u, d, url, t)),
{
    let res = spec_remove_one(subs, u, d, url, t);
    if subs_unique(subs) {
        assert forall|i: int, j: int| 0 <= i < j < res.len() implies !sub_same_key(
            res[i],
            res[j],
        ) by {
            assert(sub_same_key(res[i], subs[i]));
            assert(sub_same_key(res[j], subs[j]));
            assert(!sub_same_key(subs[i], subs[j]));
        }
    }
}

/// Adding keeps the triples of the rows already present and appends at most
/// one fresh triple, so uniqueness survives.
pub proof fn lemma_add_one_preserves(
    subs: Seq<SubV>,
    u: Seq<char>,
    d: Seq<char>,
    url: Seq<char>,
    t: u64,
)
    requires
        subs_unique(subs),
    ensures
        subs_unique(spec_add_one(subs, u, d, url, t)),
        spec_sub_exists(spec_add_one(subs, u, d, url, t), u, d, url),
        forall|i: int|
            0 <= i < spec_add_one(subs, u, d, url, t).len() ==> (sub_key_is(
                #[trigger] spec_add_one(subs, u, d, url, t)[i],
                u,
                d,
                url,
            ) ==> spec_add_one(subs, u, d, url, t)[i].subscribed),
        forall|i: int|
            0 <= i < spec_add_one(subs, u, d, url, t).len() ==> (!sub_key_is(
                #[trigger] spec_add_one(subs, u, d, url, t)[i],
                u,
                d,
                url,
            ) ==> 0 <= i < subs.len() && spec_add_one(subs, u, d, url, t)[i] == subs[i]),
{
    let res = spec_add_one(subs, u, d, url, t);
    if spec_sub_exists(subs, u, d, url) {
        let w = choose|i: int| 0 <= i < subs.len() && sub_key_is(subs[i], u, d, url);
        assert(sub_key_is(res[w], u, d, url) && res[w].subscribed);
        assert forall|i: int, j: int| 0 <= i < j < res.len() implies !sub_same_key(
            res[i],
            res[j],
        ) by {
            assert(sub_same_key(res[i], subs[i]));
            assert(sub_same_key(res[j], subs[j]));
            assert(!sub_same_key(subs[i], subs[j]));
        }
    } else {
        assert(res[subs.len() as int] == SubV {
            username: u,
            device: d,
            url: url,
            subscribed: true,
            changed: t,
        });
        assert(forall|i: int| 0 <= i < subs.len() ==> res[i] == subs[i]);
        assert forall|i: int, j: int| 0 <= i < j < res.len() implies !sub_same_key(
            res[i],
            res[j],
        ) by {
            if j < subs.len() {
                assert(!sub_same_key(subs[i], subs[j]));
            } else {
                assert(res[i] == subs[i]);
                assert(!sub_key_is(subs[i], u, d, url));
            }
        }
    }
}

/// Law: adding the same URL twice in sequence changes nothing the second
/// time — no duplicate row, no error, not even a moved change cursor — and
/// the table still has exactly one row for the triple.
pub proof fn lemma_add_twice_no_duplicate(
    subs: Seq<SubV>,
    u: Seq<char>,
    d: Seq<char>,
    url: Seq<char>,
    t1: u64,
    t2: u64,
)
    requires
        subs_unique(subs),
    ensures
        spec_add_one(spec_add_one(subs, u, d, url, t1), u, d, url, t2) == spec_add_one(
            subs,
            u,
            d,
            url,
            t1,
        ),
        subs_unique(spec_add_one(subs, u, d, url, t1)),
{
    lemma_add_one_preserves(subs, u, d, url, t1);
    let s1 = spec_add_one(subs, u, d, url, t1);
    assert(spec_add_one(s1, u, d, url, t2) =~= s1);
}

/// Law, phrased over whole submitted change-sets: submitting `add=[x]` a
/// second time changes nothing — no duplicate row, no error, no moved
/// change cursor.
pub proof fn lemma_apply_add_twice(
    subs: Seq<SubV>,
    u: Seq<char>,
    d: Seq<char>,
    x: Seq<char>,
    t1: u64,
    t2: u64,
)
    requires
        subs_unique(subs),
    ensures
        spec_apply_changes(
            spec_apply_changes(subs, u, d, seq![x], seq![], t1),
            u,
            d,
            seq![x],
            seq![],
            t2,
        ) == spec_apply_changes(subs, u, d, seq![x], seq![], t1),
{
    lemma_apply_singleton_add(subs, u, d, x, t1);
    lemma_apply_singleton_add(spec_add_one(subs, u, d, x, t1), u, d, x, t2);
    lemma_add_twice_no_duplicate(subs, u, d, x, t1, t2);
}

/// A change-set of one added URL is exactly one addition.
pub proof fn lemma_apply_singleton_add(
    subs: Seq<SubV>,
    u: Seq<char>,
    d: Seq<char>,
    x: Seq<char>,
    t: u64,
)
    ensures
        spec_apply_changes(subs, u, d, seq![x], seq![], t) == spec_add_one(subs, u, d, x, t),
{
    assert(spec_remove_all(subs, u, d, seq![], t) == subs);
    let one = seq![x];
    assert(one[0] == x);
    assert(one.drop_first() =~= Seq::<Seq<char>>::empty());
    assert(spec_add_all(subs, u, d, one, t) == spec_add_all(
        spec_add_one(subs, u, d, x, t),
        u,
        d,
        one.drop_first(),
        t,
    ));
}

/// A change-set of one removed URL is exactly one removal.
pub proof fn lemma_apply_singleton_remove(
    subs: Seq<SubV>,
    u: Seq<char>,
    d: Seq<char>,
    x: Seq<char>,
    t: u64,
)
    ensures
        spec_apply_changes(subs, u, d, seq![], seq![x], t) == spec_remove_one(subs, u, d, x, t),
{
    let one = seq![x];
    assert(one[0] == x);
    assert(one.drop_first() =~= Seq::<Seq<char>>::empty());
    assert(spec_remove_all(subs, u, d, one, t) == spec_remove_all(
        spec_remove_one(subs, u, d, x, t),
        u,
        d,
        one.drop_first(),
        t,
    ));
    assert(spec_add_all(spec_remove_one(subs, u, d, x, t), u, d, seq![], t) == spec_remove_one(
        subs,
        u,
        d,
        x,
        t,
    ));
}

/// Law, phrased over whole submitted change-sets: `add=[x]`, then
/// `remove=[x]`, then reading from a cursor taken before the first write
/// reports `x` among the removed and not among the added.
pub proof fn lemma_apply_add_then_remove_delta(
    subs: Seq<SubV>,
    u: Seq<char>,
    d: Seq<char>,
    x: Seq<char>,
    t1: u64,
    t2: u64,
    since: u64,
)
    requires
        subs_unique(subs),
        since < t2,
    ensures
        ({
            let s1 = spec_apply_changes(subs, u, d, seq![x], seq![], t1);
            let s2 = spec_apply_changes(s1, u, d, seq![], seq![x], t2);
            spec_sub_delta(s2, u, d, since, false).contains(x) && !spec_sub_delta(
                s2,
                u,
                d,
                since,
                true,
            ).contains(x)
        }),
{
    lemma_apply_singleton_add(subs, u, d, x, t1);
    lemma_apply_singleton_remove(spec_add_one(subs, u, d, x, t1), u, d, x, t2);
    lemma_add_then_remove_reports_removed(subs, u, d, x, t1, t2, since);
}

/// Law: adding a URL and then removing it reports the URL among the removed
/// — and not among the added — to any reader whose cursor predates the
/// removal.
pub proof fn lemma_add_then_remove_reports_removed(
    subs: Seq<SubV>,
    u: Seq<char>,
    d: Seq<char>,
    url: Seq<char>,
    t1: u64,
    t2: u64,
    since: u64,
)
    requires
        subs_unique(subs),
        since < t2,
    ensures
        ({
            let s2 = spec_remove_one(spec_add_one(subs, u, d, url, t1), u, d, url, t2);
            spec_sub_delta(s2, u, d, since, false).contains(url) && !spec_sub_delta(
                s2,
                u,
                d,
                since,
                true,
            ).contains(url)
        }),
{
    lemma_add_one_preserves(subs, u, d, url, t1);
    let s1 = spec_add_one(subs, u, d, url, t1);
    lemma_remove_one_preserves(s1, u, d, url, t2);
    let s2 = spec_remove_one(s1, u, d, url, t2);
    let w = choose|i: int| 0 <= i < s1.len() && sub_key_is(s1[i], u, d, url);
    assert(s2[w] == SubV {
        username: s1[w].username,
        device: s1[w].device,
        url: s1[w].url,
        subscribed: false,
        changed: t2,
    });
    lemma_sub_delta_contains(s2, u, d, since, false, url);
    lemma_sub_delta_contains(s2, u, d, since, true, url);
    assert forall|i: int|
        0 <= i < s2.len() && sub_key_is(s2[i], u, d, url) implies !s2[i].subscribed by {
        if i != w {
            assert(sub_same_key(s2[i], s1[i]));
            assert(sub_same_key(s2[w], s1[w]));
            assert(sub_key_is(s1[i], u, d, url));
            assert(sub_key_is(s1[w], u, d, url));
            if i < w {
                assert(!sub_same_key(s1[i], s1[w]));
            } else {
                assert(!sub_same_key(s1[w], s1[i]));
            }
            assert(false);
        }
    }
}

} // verus!

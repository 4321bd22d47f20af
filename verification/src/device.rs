//! The device registry: the records a user's clients register under.
//!
//! A device is unique per `(username, slug)` pair; the slug is the
//! client-chosen identifier segment of the URL path. The first update under a
//! new slug creates the record; later updates are partial — a field the
//! client omits is left as it stands, never reset to a default — so two
//! concurrent identical requests are safe, the second simply applying the
//! same partial update again.

use vstd::prelude::*;

use crate::subscription::SubV;
use crate::text::opt_view;

verus! {

/// What kind of client a device says it is.
#[derive(Clone, Copy, Debug, PartialEq, Eq, Structural)]
pub enum DeviceType {
    Mobile,
    Unknown,
}

/// A stored device row.
pub struct DeviceRecord {
    pub username: String,
    pub id: String,
    pub caption: String,
    pub dtype: DeviceType,
}

/// The mathematical view of a device row.
pub struct DeviceV {
    pub username: Seq<char>,
    pub id: Seq<char>,
    pub caption: Seq<char>,
    pub dtype: DeviceType,
}

impl View for DeviceRecord {
    type V = DeviceV;

    open spec fn view(&self) -> DeviceV {
        DeviceV {
            username: self.username@,
            id: self.id@,
            caption: self.caption@,
            dtype: self.dtype,
        }
    }
}

/// A partial update, as the update endpoint's body carries it: omitted
/// fields mean "leave as is".
pub struct DeviceUpdate {
    pub caption: Option<String>,
    pub dtype: Option<DeviceType>,
}

/// The mathematical view of a partial update.
pub struct DeviceUpdateV {
    pub caption: Option<Seq<char>>,
    pub dtype: Option<DeviceType>,
}

impl View for DeviceUpdate {
    type V = DeviceUpdateV;

    open spec fn view(&self) -> DeviceUpdateV {
        DeviceUpdateV { caption: opt_view(self.caption), dtype: self.dtype }
    }
}

/// One listed device, as the listing endpoint answers it: the row's fields
/// plus how many feeds the device is currently subscribed to.
pub struct DeviceEntry {
    pub id: String,
    pub caption: String,
    pub dtype: DeviceType,
    pub subscriptions: u64,
}

/// The mathematical view of a listed device.
pub struct DeviceEntryV {
    pub id: Seq<char>,
    pub caption: Seq<char>,
    pub dtype: DeviceType,
    pub subscriptions: u64,
}

impl View for DeviceEntry {
    type V = DeviceEntryV;

    open spec fn view(&self) -> DeviceEntryV {
        DeviceEntryV {
            id: self.id@,
            caption: self.caption@,
            dtype: self.dtype,
            subscriptions: self.subscriptions,
        }
    }
}

/// Whether a row carries the given owner and slug.
pub open spec fn device_key_is(r: DeviceV, u: Seq<char>, id: Seq<char>) -> bool {
    r.username == u && r.id == id
}

/// No two rows share an owner and slug.
pub open spec fn devices_unique(devs: Seq<DeviceV>) -> bool {
    forall|i: int, j: int|
        0 <= i < j < devs.len() ==> !(devs[i].username == devs[j].username && devs[i].id
            == devs[j].id)
}

pub open spec fn spec_device_exists(devs: Seq<DeviceV>, u: Seq<char>, id: Seq<char>) -> bool {
    exists|i: int| 0 <= i < devs.len() && device_key_is(devs[i], u, id)
}

/// A row as a partial update leaves it.
pub open spec fn spec_device_updated(r: DeviceV, up: DeviceUpdateV) -> DeviceV {
    DeviceV {
        username: r.username,
        id: r.id,
        caption: match up.caption {
            Some(c) => c,
            None => r.caption,
        },
        dtype: match up.dtype {
            Some(t) => t,
            None => r.dtype,
        },
    }
}

/// The row a first update under a new slug creates: supplied fields taken,
/// omitted ones defaulted.
pub open spec fn spec_device_fresh(u: Seq<char>, id: Seq<char>, up: DeviceUpdateV) -> DeviceV {
    DeviceV {
        username: u,
        id: id,
        caption: match up.caption {
            Some(c) => c,
            None => Seq::empty(),
        },
        dtype: match up.dtype {
            Some(t) => t,
            None => DeviceType::Unknown,
        },
    }
}

/// The registry after an upsert: the existing row partially updated in
/// place, or a fresh row appended.
pub open spec fn spec_device_upsert(
    devs: Seq<DeviceV>,
    u: Seq<char>,
    id: Seq<char>,
    up: DeviceUpdateV,
) -> Seq<DeviceV> {
    if spec_device_exists(devs, u, id) {
        devs.map_values(
            |r: DeviceV|
                if device_key_is(r, u, id) {
                    spec_device_updated(r, up)
                } else {
                    r
                },
        )
    } else {
        devs.push(spec_device_fresh(u, id, up))
    }
}

/// How many feeds a device is currently subscribed to.
pub open spec fn spec_sub_count(subs: Seq<SubV>, u: Seq<char>, id: Seq<char>) -> nat
    decreases subs.len(),
{
    if subs.len() == 0 {
        0
    } else {
        spec_sub_count(subs.drop_last(), u, id) + if subs.last().username == u && subs.last().device
            == id && subs.last().subscribed {
            1nat
        } else {
            0nat
        }
    }
}

/// The listing of one user's devices, in creation order.
pub open spec fn spec_device_list(devs: Seq<DeviceV>, subs: Seq<SubV>, u: Seq<char>) -> Seq<
    DeviceEntryV,
>
    decreases devs.len(),
{
    if devs.len() == 0 {
        Seq::empty()
    } else {
        let rest = spec_device_list(devs.drop_last(), subs, u);
        let r = devs.last();
        if r.username == u {
            rest.push(
                DeviceEntryV {
                    id: r.id,
                    caption: r.caption,
                    dtype: r.dtype,
                    subscriptions: spec_sub_count(subs, u, r.id) as u64,
                },
            )
        } else {
            rest
        }
    }
}

/// The count never exceeds the table's length, so it fits the listing's
/// fixed-width field.
pub proof fn lemma_sub_count_bounded(subs: Seq<SubV>, u: Seq<char>, id: Seq<char>)
    ensures
        spec_sub_count(subs, u, id) <= subs.len(),
    decreases subs.len(),
{
    if subs.len() > 0 {
        lemma_sub_count_bounded(subs.drop_last(), u, id);
    }
}

/// Upserting keeps owners and slugs pointwise (or appends one fresh pair),
/// so uniqueness survives.
pub proof fn lemma_device_upsert_preserves(
    devs: Seq<DeviceV>,
    u: Seq<char>,
    id: Seq<char>,
    up: DeviceUpdateV,
)
    requires
        devices_unique(devs),
    ensures
        devices_unique(spec_device_upsert(devs, u, id, up)),
{
    let res = spec_device_upsert(devs, u, id, up);
    if spec_device_exists(devs, u, id) {
        assert forall|i: int, j: int| 0 <= i < j < res.len() implies !(res[i].username
            == res[j].username && res[i].id == res[j].id) by {
            assert(res[i].username == devs[i].username && res[i].id == devs[i].id);
            assert(res[j].username == devs[j].username && res[j].id == devs[j].id);
        }
    } else {
        assert(res[devs.len() as int] == spec_device_fresh(u, id, up));
        assert(forall|i: int| 0 <= i < devs.len() ==> res[i] == devs[i]);
        assert forall|i: int, j: int| 0 <= i < j < res.len() implies !(res[i].username
            == res[j].username && res[i].id == res[j].id) by {
            if j == devs.len() {
                assert(!device_key_is(devs[i], u, id));
            }
        }
    }
}

} // verus!

//! Loading a device's full before-state (its snapshot) from the store.
//!
//! The snapshot holds the device's key information joined with its location
//! name and last-updated timestamp, its column values, and its non-deleted
//! components and attachments. The store's uniqueness constraints carry over
//! to the snapshot, which is what lets the diff engine key by identifier.

use vstd::prelude::*;

use crate::diff::{unique_att_ids, unique_comp_ids, unique_data_cols, Snapshot};
use crate::models::{
    DeviceAttachmentMetadata, DeviceAttachmentRow, DeviceChange, DeviceComponent,
    DeviceComponentRow, DeviceData, DeviceInfo, LocationDefinition,
};
use crate::store::{lemma_device_index, lemma_location_index, spec_device_index, spec_location_index, Store};

verus! {

// Spec twins of the per-device projections

/// The column values of the device with surrogate key `dki`, in store order.
pub open spec fn spec_data_of(rows: Seq<DeviceData>, dki: i32) -> Seq<DeviceData>
    decreases rows.len(),
{
    if rows.len() == 0 {
        Seq::empty()
    } else {
        let rest = spec_data_of(rows.drop_last(), dki);
        if rows.last().device_key_info_id == dki {
            rest.push(rows.last())
        } else {
            rest
        }
    }
}

/// The live (non-deleted) components of the device with surrogate key `dki`,
/// in store order.
pub open spec fn spec_live_components_of(rows: Seq<DeviceComponentRow>, dki: i32) -> Seq<
    DeviceComponent,
>
    decreases rows.len(),
{
    if rows.len() == 0 {
        Seq::empty()
    } else {
        let rest = spec_live_components_of(rows.drop_last(), dki);
        let c = rows.last();
        if c.device_key_info_id == dki && !c.deleted {
            rest.push(
                DeviceComponent {
                    id: c.id,
                    device_key_info_id: c.device_key_info_id,
                    component_id: c.component_id,
                    component_type: c.component_type,
                },
            )
        } else {
            rest
        }
    }
}

/// The live (non-deleted) attachments of the device with surrogate key
/// `dki`, without their payloads, in store order.
pub open spec fn spec_live_attachments_of(rows: Seq<DeviceAttachmentRow>, dki: i32) -> Seq<
    DeviceAttachmentMetadata,
>
    decreases rows.len(),
{
    if rows.len() == 0 {
        Seq::empty()
    } else {
        let rest = spec_live_attachments_of(rows.drop_last(), dki);
        let a = rows.last();
        if a.device_key_info_id == dki && !a.deleted {
            rest.push(
                DeviceAttachmentMetadata {
                    id: a.id,
                    device_key_info_id: a.device_key_info_id,
                    attachment_id: a.attachment_id,
                    description: a.description,
                    file_name: a.file_name,
                },
            )
        } else {
            rest
        }
    }
}

/// The change-log rows of the device with surrogate key `dki`, in store
/// order (which is chronological order of insertion).
pub open spec fn spec_changes_of(rows: Seq<DeviceChange>, dki: i32) -> Seq<DeviceChange>
    decreases rows.len(),
{
    if rows.len() == 0 {
        Seq::empty()
    } else {
        let rest = spec_changes_of(rows.drop_last(), dki);
        if rows.last().device_key_info_id == dki {
            rest.push(rows.last())
        } else {
            rest
        }
    }
}

/// The greatest timestamp of the device's user-initiated (non-automatic)
/// change-log rows; zero when there is none.
pub open spec fn spec_last_updated(rows: Seq<DeviceChange>, dki: i32) -> i64
    decreases rows.len(),
{
    if rows.len() == 0 {
        0
    } else {
        let rest = spec_last_updated(rows.drop_last(), dki);
        let c = rows.last();
        if c.device_key_info_id == dki && !c.done_automatically && c.timestamp > rest {
            c.timestamp
        } else {
            rest
        }
    }
}

/// The name of the location with identifier `id`; empty when there is none.
pub open spec fn spec_location_name(rows: Seq<LocationDefinition>, id: i32) -> Seq<char> {
    let idx = spec_location_index(rows, id);
    if idx == -1 {
        Seq::empty()
    } else {
        rows[idx].name@
    }
}

// The store's uniqueness constraints carry over to the projections.

/// Every projected column value belongs to the device, comes from the store,
/// and no column identifier repeats.
pub proof fn lemma_data_of_unique(rows: Seq<DeviceData>, dki: i32)
    requires
        forall|i: int, j: int|
            0 <= i < j < rows.len() ==> !((#[trigger] rows[i]).device_key_info_id == (
            #[trigger] rows[j]).device_key_info_id && rows[i].column_definition_id
                == rows[j].column_definition_id),
    ensures
        unique_data_cols(spec_data_of(rows, dki)),
        forall|e: DeviceData|
            spec_data_of(rows, dki).contains(e) ==> e.device_key_info_id == dki && exists|k: int|
                0 <= k < rows.len() && rows[k] == e,
    decreases rows.len(),
{
    if rows.len() > 0 {
        let dropped = rows.drop_last();
        assert forall|i: int| 0 <= i < dropped.len() implies #[trigger] dropped[i] == rows[i] by {}
        lemma_data_of_unique(dropped, dki);
        let rest = spec_data_of(dropped, dki);
        let full = spec_data_of(rows, dki);
        assert forall|e: DeviceData| full.contains(e) implies e.device_key_info_id == dki && exists|
            k: int,
        | 0 <= k < rows.len() && rows[k] == e by {
            let i = choose|i: int| 0 <= i < full.len() && full[i] == e;
            if rows.last().device_key_info_id == dki {
                if i < rest.len() {
                    assert(rest.contains(e));
                    let k = choose|k: int| 0 <= k < dropped.len() && dropped[k] == e;
                    assert(rows[k] == e);
                } else {
                    assert(e == rows.last());
                    assert(rows[rows.len() - 1] == e);
                }
            } else {
                assert(rest.contains(e));
                let k = choose|k: int| 0 <= k < dropped.len() && dropped[k] == e;
                assert(rows[k] == e);
            }
        }
        if rows.last().device_key_info_id == dki {
            assert forall|i: int, j: int| 0 <= i < j < full.len() implies (
            #[trigger] full[i]).column_definition_id != (
            #[trigger] full[j]).column_definition_id by {
                if j < rest.len() {
                    assert(rest[i] == full[i] && rest[j] == full[j]);
                } else {
                    assert(full[j] == rows.last());
                    assert(rest.contains(rest[i]));
                    let k = choose|k: int| 0 <= k < dropped.len() && dropped[k] == rest[i];
                    assert(!(rows[k].device_key_info_id == rows[rows.len() - 1].device_key_info_id
                        && rows[k].column_definition_id == rows[rows.len()
                        - 1].column_definition_id));
                }
            }
        }
    }
}

/// Every projected component is live, belongs to the device, comes from the
/// store, and no component identifier repeats.
pub proof fn lemma_components_of_unique(rows: Seq<DeviceComponentRow>, dki: i32)
    requires
        forall|i: int, j: int|
            0 <= i < j < rows.len() ==> !((#[trigger] rows[i]).device_key_info_id == (
            #[trigger] rows[j]).device_key_info_id && rows[i].component_id@
                == rows[j].component_id@),
    ensures
        unique_comp_ids(spec_live_components_of(rows, dki)),
        forall|e: DeviceComponent|
            spec_live_components_of(rows, dki).contains(e) ==> e.device_key_info_id == dki
                && exists|k: int|
                0 <= k < rows.len() && (#[trigger] rows[k]).device_key_info_id == dki
                    && !rows[k].deleted && rows[k].component_id == e.component_id
                    && rows[k].component_type == e.component_type,
    decreases rows.len(),
{
    if rows.len() > 0 {
        let dropped = rows.drop_last();
        assert forall|i: int| 0 <= i < dropped.len() implies #[trigger] dropped[i] == rows[i] by {}
        lemma_components_of_unique(dropped, dki);
        let rest = spec_live_components_of(dropped, dki);
        let full = spec_live_components_of(rows, dki);
        let c = rows.last();
        assert forall|e: DeviceComponent| full.contains(e) implies e.device_key_info_id == dki
            && exists|k: int|
            0 <= k < rows.len() && (#[trigger] rows[k]).device_key_info_id == dki
                && !rows[k].deleted && rows[k].component_id == e.component_id
                && rows[k].component_type == e.component_type by {
            let i = choose|i: int| 0 <= i < full.len() && full[i] == e;
            if c.device_key_info_id == dki && !c.deleted && i == full.len() - 1 {
                assert((#[trigger] rows[rows.len() - 1]).device_key_info_id == dki);
            } else {
                assert(rest.contains(e));
                let k = choose|k: int|
                    0 <= k < dropped.len() && (#[trigger] dropped[k]).device_key_info_id == dki
                        && !dropped[k].deleted && dropped[k].component_id == e.component_id
                        && dropped[k].component_type == e.component_type;
                assert((#[trigger] rows[k]).device_key_info_id == dki);
            }
        }
        if c.device_key_info_id == dki && !c.deleted {
            assert forall|i: int, j: int| 0 <= i < j < full.len() implies (
            #[trigger] full[i]).component_id@ != (#[trigger] full[j]).component_id@ by {
                if j < rest.len() {
                    assert(rest[i] == full[i] && rest[j] == full[j]);
                } else {
                    assert(rest.contains(rest[i]));
                    let k = choose|k: int|
                        0 <= k < dropped.len() && (#[trigger] dropped[k]).device_key_info_id == dki
                            && !dropped[k].deleted && dropped[k].component_id == rest[i].component_id
                            && dropped[k].component_type == rest[i].component_type;
                    assert(!(rows[k].device_key_info_id == rows[rows.len() - 1].device_key_info_id
                        && rows[k].component_id@ == rows[rows.len() - 1].component_id@));
                }
            }
        }
    }
}

/// Every projected attachment is live, belongs to the device, comes from the
/// store, and no attachment identifier repeats.
pub proof fn lemma_attachments_of_unique(rows: Seq<DeviceAttachmentRow>, dki: i32)
    requires
        forall|i: int, j: int|
            0 <= i < j < rows.len() ==> !((#[trigger] rows[i]).device_key_info_id == (
            #[trigger] rows[j]).device_key_info_id && rows[i].attachment_id@
                == rows[j].attachment_id@),
    ensures
        unique_att_ids(spec_live_attachments_of(rows, dki)),
        forall|e: DeviceAttachmentMetadata|
            spec_live_attachments_of(rows, dki).contains(e) ==> e.device_key_info_id == dki
                && exists|k: int|
                0 <= k < rows.len() && (#[trigger] rows[k]).device_key_info_id == dki
                    && !rows[k].deleted && rows[k].attachment_id == e.attachment_id
                    && rows[k].description == e.description && rows[k].file_name == e.file_name,
    decreases rows.len(),
{
    if rows.len() > 0 {
        let dropped = rows.drop_last();
        assert forall|i: int| 0 <= i < dropped.len() implies #[trigger] dropped[i] == rows[i] by {}
        lemma_attachments_of_unique(dropped, dki);
        let rest = spec_live_attachments_of(dropped, dki);
        let full = spec_live_attachments_of(rows, dki);
        let a = rows.last();
        assert forall|e: DeviceAttachmentMetadata| full.contains(e) implies e.device_key_info_id
            == dki && exists|k: int|
            0 <= k < rows.len() && (#[trigger] rows[k]).device_key_info_id == dki
                && !rows[k].deleted && rows[k].attachment_id == e.attachment_id
                && rows[k].description == e.description && rows[k].file_name == e.file_name by {
            let i = choose|i: int| 0 <= i < full.len() && full[i] == e;
            if a.device_key_info_id == dki && !a.deleted && i == full.len() - 1 {
                assert((#[trigger] rows[rows.len() - 1]).device_key_info_id == dki);
            } else {
                assert(rest.contains(e));
                let k = choose|k: int|
                    0 <= k < dropped.len() && (#[trigger] dropped[k]).device_key_info_id == dki
                        && !dropped[k].deleted && dropped[k].attachment_id == e.attachment_id
                        && dropped[k].description == e.description && dropped[k].file_name
                        == e.file_name;
                assert((#[trigger] rows[k]).device_key_info_id == dki);
            }
        }
        if a.device_key_info_id == dki && !a.deleted {
            assert forall|i: int, j: int| 0 <= i < j < full.len() implies (
            #[trigger] full[i]).attachment_id@ != (#[trigger] full[j]).attachment_id@ by {
                if j < rest.len() {
                    assert(rest[i] == full[i] && rest[j] == full[j]);
                } else {
                    assert(rest.contains(rest[i]));
                    let k = choose|k: int|
                        0 <= k < dropped.len() && (#[trigger] dropped[k]).device_key_info_id == dki
                            && !dropped[k].deleted && dropped[k].attachment_id == rest[
                            i
                        ].attachment_id && dropped[k].description == rest[i].description
                            && dropped[k].file_name == rest[i].file_name;
                    assert(!(rows[k].device_key_info_id == rows[rows.len() - 1].device_key_info_id
                        && rows[k].attachment_id@ == rows[rows.len() - 1].attachment_id@));
                }
            }
        }
    }
}

// Executable projections

impl Store {
    /// The name of the location with identifier `id`, or empty.
    pub fn location_name(&self, id: i32) -> (r: String)
        ensures
            r@ == spec_location_name(self.locations@, id),
    {
        match self.find_location_index(id) {
            Some(idx) => {
                proof {
                    lemma_location_index(self.locations@, id);
                }
                self.locations[idx].name.clone()
            },
            None => String::new(),
        }
    }

    /// The greatest timestamp of the device's user-initiated change-log rows.
    pub fn last_updated(&self, dki: i32) -> (r: i64)
        ensures
            r == spec_last_updated(self.changes@, dki),
    {
        let mut best: i64 = 0;
        let mut i: usize = 0;
        while i < self.changes.len()
            invariant
                i <= self.changes@.len(),
                best == spec_last_updated(self.changes@.take(i as int), dki),
            decreases self.changes@.len() - i,
        {
            let c = &self.changes[i];
            if c.device_key_info_id == dki && !c.done_automatically && c.timestamp > best {
                best = c.timestamp;
            }
            proof {
                assert(self.changes@.take(i + 1).drop_last() =~= self.changes@.take(i as int));
                assert(self.changes@.take(i + 1).last() == self.changes@[i as int]);
            }
            i += 1;
        }
        proof {
            assert(self.changes@.take(self.changes@.len() as int) =~= self.changes@);
        }
        best
    }

    /// The column values of the device with surrogate key `dki`.
    pub fn data_of(&self, dki: i32) -> (r: Vec<DeviceData>)
        ensures
            r@ == spec_data_of(self.device_data@, dki),
    {
        let mut out: Vec<DeviceData> = Vec::new();
        let mut i: usize = 0;
        while i < self.device_data.len()
            invariant
                i <= self.device_data@.len(),
                out@ == spec_data_of(self.device_data@.take(i as int), dki),
            decreases self.device_data@.len() - i,
        {
            let row = &self.device_data[i];
            if row.device_key_info_id == dki {
                out.push(row.clone());
            }
            proof {
                assert(self.device_data@.take(i + 1).drop_last() =~= self.device_data@.take(
                    i as int,
                ));
                assert(self.device_data@.take(i + 1).last() == self.device_data@[i as int]);
            }
            i += 1;
        }
        proof {
            assert(self.device_data@.take(self.device_data@.len() as int) =~= self.device_data@);
        }
        out
    }

    /// The live components of the device with surrogate key `dki`.
    pub fn live_components_of(&self, dki: i32) -> (r: Vec<DeviceComponent>)
        ensures
            r@ == spec_live_components_of(self.components@, dki),
    {
        let mut out: Vec<DeviceComponent> = Vec::new();
        let mut i: usize = 0;
        while i < self.components.len()
            invariant
                i <= self.components@.len(),
                out@ == spec_live_components_of(self.components@.take(i as int), dki),
            decreases self.components@.len() - i,
        {
            let row = &self.components[i];
            if row.device_key_info_id == dki && !row.deleted {
                out.push(
                    DeviceComponent {
                        id: row.id,
                        device_key_info_id: row.device_key_info_id,
                        component_id: row.component_id.clone(),
                        component_type: row.component_type.clone(),
                    },
                );
            }
            proof {
                assert(self.components@.take(i + 1).drop_last() =~= self.components@.take(
                    i as int,
                ));
                assert(self.components@.take(i + 1).last() == self.components@[i as int]);
            }
            i += 1;
        }
        proof {
            assert(self.components@.take(self.components@.len() as int) =~= self.components@);
        }
        out
    }

    /// The live attachments of the device with surrogate key `dki`, without
    /// their payloads.
    pub fn live_attachments_of(&self, dki: i32) -> (r: Vec<DeviceAttachmentMetadata>)
        ensures
            r@ == spec_live_attachments_of(self.attachments@, dki),
    {
        let mut out: Vec<DeviceAttachmentMetadata> = Vec::new();
        let mut i: usize = 0;
        while i < self.attachments.len()
            invariant
                i <= self.attachments@.len(),
                out@ == spec_live_attachments_of(self.attachments@.take(i as int), dki),
            decreases self.attachments@.len() - i,
        {
            let row = &self.attachments[i];
            if row.device_key_info_id == dki && !row.deleted {
                out.push(
                    DeviceAttachmentMetadata {
                        id: row.id,
                        device_key_info_id: row.device_key_info_id,
                        attachment_id: row.attachment_id.clone(),
                        description: row.description.clone(),
                        file_name: row.file_name.clone(),
                    },
                );
            }
            proof {
                assert(self.attachments@.take(i + 1).drop_last() =~= self.attachments@.take(
                    i as int,
                ));
                assert(self.attachments@.take(i + 1).last() == self.attachments@[i as int]);
            }
            i += 1;
        }
        proof {
            assert(self.attachments@.take(self.attachments@.len() as int) =~= self.attachments@);
        }
        out
    }

    /// The change-log rows of the device with surrogate key `dki`, in store
    /// order.
    pub fn changes_of(&self, dki: i32) -> (r: Vec<DeviceChange>)
        ensures
            r@ == spec_changes_of(self.changes@, dki),
    {
        let mut out: Vec<DeviceChange> = Vec::new();
        let mut i: usize = 0;
        while i < self.changes.len()
            invariant
                i <= self.changes@.len(),
                out@ == spec_changes_of(self.changes@.take(i as int), dki),
            decreases self.changes@.len() - i,
        {
            let row = &self.changes[i];
            if row.device_key_info_id == dki {
                out.push(row.clone());
            }
            proof {
                assert(self.changes@.take(i + 1).drop_last() =~= self.changes@.take(i as int));
                assert(self.changes@.take(i + 1).last() == self.changes@[i as int]);
            }
            i += 1;
        }
        proof {
            assert(self.changes@.take(self.changes@.len() as int) =~= self.changes@);
        }
        out
    }

    /// Loads the full before-state of the device with the given public
    /// identifier, or `None` if there is no such device. The projections are
    /// exactly the store's rows for that device, and their identifiers are
    /// unique, which is what the diff engine's keyed matching requires.
    pub fn get_device_snapshot(&self, device_id: &String) -> (r: Option<Snapshot>)
        requires
            self.wf(),
        ensures
            match r {
                Some(snap) => ({
                    let idx = spec_device_index(self.devices@, device_id@);
                    let dev = self.devices@[idx];
                    &&& idx != -1
                    &&& snap.key_info.id == dev.id
                    &&& snap.key_info.device_id == dev.device_id
                    &&& snap.key_info.deleted == dev.deleted
                    &&& snap.key_info.location_id == dev.location_id
                    &&& snap.key_info.location@ == spec_location_name(
                        self.locations@,
                        dev.location_id,
                    )
                    &&& snap.key_info.last_updated == spec_last_updated(self.changes@, dev.id)
                    &&& snap.data@ == spec_data_of(self.device_data@, dev.id)
                    &&& snap.components@ == spec_live_components_of(self.components@, dev.id)
                    &&& snap.attachments@ == spec_live_attachments_of(self.attachments@, dev.id)
                    &&& unique_data_cols(snap.data@)
                    &&& unique_comp_ids(snap.components@)
                    &&& unique_att_ids(snap.attachments@)
                }),
                None => spec_device_index(self.devices@, device_id@) == -1,
            },
    {
        match self.find_device_index(device_id) {
            Some(idx) => {
                proof {
                    lemma_device_index(self.devices@, device_id@);
                }
                let dev = &self.devices[idx];
                let dki = dev.id;
                let key_info = DeviceInfo {
                    id: dev.id,
                    device_id: dev.device_id.clone(),
                    deleted: dev.deleted,
                    location_id: dev.location_id,
                    location: self.location_name(dev.location_id),
                    last_updated: self.last_updated(dki),
                };
                let snap = Snapshot {
                    key_info,
                    data: self.data_of(dki),
                    components: self.live_components_of(dki),
                    attachments: self.live_attachments_of(dki),
                };
                proof {
                    lemma_data_of_unique(self.device_data@, dki);
                    lemma_components_of_unique(self.components@, dki);
                    lemma_attachments_of_unique(self.attachments@, dki);
                }
                Some(snap)
            },
            None => None,
        }
    }
}

} // verus!

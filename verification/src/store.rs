//! The entity store: an in-memory model of the transactional relational
//! tables the engine reconciles against, with the uniqueness invariants the
//! real store enforces as constraints.
//!
//! Every mutation states its exact effect, so the reconciliation on top can
//! prove transactional behaviour: a failed operation leaves the store
//! untouched.

use vstd::prelude::*;

use crate::error::{Error, InternalError};
use crate::models::{
    DeviceAttachmentRow, DeviceChange, DeviceComponentRow, DeviceData, DeviceKeyInfo,
    LocationDefinition, User,
};

verus! {

/// The persistent tables the engine works against. `next_id` feeds surrogate
/// keys; it is strictly above every device's surrogate key.
pub struct Store {
    pub locations: Vec<LocationDefinition>,
    pub users: Vec<User>,
    pub devices: Vec<DeviceKeyInfo>,
    pub device_data: Vec<DeviceData>,
    pub components: Vec<DeviceComponentRow>,
    pub attachments: Vec<DeviceAttachmentRow>,
    pub changes: Vec<DeviceChange>,
    pub next_id: i32,
}

impl Store {
    /// The uniqueness constraints of the store: device surrogate keys and
    /// public identifiers are unique, and so are the upsert conflict keys of
    /// column values, components and attachments.
    pub open spec fn wf(&self) -> bool {
        &&& 0 < self.next_id
        &&& forall|i: int, j: int|
            0 <= i < j < self.devices@.len() ==> (#[trigger] self.devices@[i]).id != (
            #[trigger] self.devices@[j]).id
        &&& forall|i: int, j: int|
            0 <= i < j < self.devices@.len() ==> (#[trigger] self.devices@[i]).device_id@ != (
            #[trigger] self.devices@[j]).device_id@
        &&& forall|i: int|
            0 <= i < self.devices@.len() ==> 0 < (#[trigger] self.devices@[i]).id < self.next_id
        &&& forall|i: int, j: int|
            0 <= i < j < self.device_data@.len() ==> !((#[trigger] self.device_data@[i]).device_key_info_id
                == (#[trigger] self.device_data@[j]).device_key_info_id
                && self.device_data@[i].column_definition_id
                == self.device_data@[j].column_definition_id)
        &&& forall|i: int, j: int|
            0 <= i < j < self.components@.len() ==> !((#[trigger] self.components@[i]).device_key_info_id
                == (#[trigger] self.components@[j]).device_key_info_id
                && self.components@[i].component_id@ == self.components@[j].component_id@)
        &&& forall|i: int, j: int|
            0 <= i < j < self.attachments@.len() ==> !((#[trigger] self.attachments@[i]).device_key_info_id
                == (#[trigger] self.attachments@[j]).device_key_info_id
                && self.attachments@[i].attachment_id@ == self.attachments@[j].attachment_id@)
    }

    /// An empty store.
    pub fn new() -> (r: Store)
        ensures
            r.wf(),
            r.locations@.len() == 0,
            r.users@.len() == 0,
            r.devices@.len() == 0,
            r.device_data@.len() == 0,
            r.components@.len() == 0,
            r.attachments@.len() == 0,
            r.changes@.len() == 0,
    {
        Store {
            locations: Vec::new(),
            users: Vec::new(),
            devices: Vec::new(),
            device_data: Vec::new(),
            components: Vec::new(),
            attachments: Vec::new(),
            changes: Vec::new(),
            next_id: 1,
        }
    }
}

// Spec-level finders (first match, or -1)

/// The index of the location with identifier `id`, or -1.
pub open spec fn spec_location_index(rows: Seq<LocationDefinition>, id: i32) -> int
    decreases rows.len(),
{
    if rows.len() == 0 {
        -1
    } else if rows[0].id == id {
        0
    } else {
        let r = spec_location_index(rows.drop_first(), id);
        if r == -1 {
            -1
        } else {
            r + 1
        }
    }
}

/// The index of the device with public identifier `device_id`, or -1.
pub open spec fn spec_device_index(rows: Seq<DeviceKeyInfo>, device_id: Seq<char>) -> int
    decreases rows.len(),
{
    if rows.len() == 0 {
        -1
    } else if rows[0].device_id@ == device_id {
        0
    } else {
        let r = spec_device_index(rows.drop_first(), device_id);
        if r == -1 {
            -1
        } else {
            r + 1
        }
    }
}

/// The index of the column value row keyed by (`dki`, `col`), or -1.
pub open spec fn spec_data_index(rows: Seq<DeviceData>, dki: i32, col: i32) -> int
    decreases rows.len(),
{
    if rows.len() == 0 {
        -1
    } else if rows[0].device_key_info_id == dki && rows[0].column_definition_id == col {
        0
    } else {
        let r = spec_data_index(rows.drop_first(), dki, col);
        if r == -1 {
            -1
        } else {
            r + 1
        }
    }
}

/// The index of the component row keyed by (`dki`, `key`), or -1.
pub open spec fn spec_component_index(rows: Seq<DeviceComponentRow>, dki: i32, key: Seq<char>) -> int
    decreases rows.len(),
{
    if rows.len() == 0 {
        -1
    } else if rows[0].device_key_info_id == dki && rows[0].component_id@ == key {
        0
    } else {
        let r = spec_component_index(rows.drop_first(), dki, key);
        if r == -1 {
            -1
        } else {
            r + 1
        }
    }
}

/// The index of the attachment row keyed by (`dki`, `key`), or -1.
pub open spec fn spec_attachment_index(
    rows: Seq<DeviceAttachmentRow>,
    dki: i32,
    key: Seq<char>,
) -> int
    decreases rows.len(),
{
    if rows.len() == 0 {
        -1
    } else if rows[0].device_key_info_id == dki && rows[0].attachment_id@ == key {
        0
    } else {
        let r = spec_attachment_index(rows.drop_first(), dki, key);
        if r == -1 {
            -1
        } else {
            r + 1
        }
    }
}

/// The index of the user with surrogate key `id`, or -1.
pub open spec fn spec_user_index(rows: Seq<User>, id: i32) -> int
    decreases rows.len(),
{
    if rows.len() == 0 {
        -1
    } else if rows[0].id == id {
        0
    } else {
        let r = spec_user_index(rows.drop_first(), id);
        if r == -1 {
            -1
        } else {
            r + 1
        }
    }
}

/// The index of the user with the given unique identifier, or -1.
pub open spec fn spec_user_ident_index(rows: Seq<User>, ident: Seq<char>) -> int
    decreases rows.len(),
{
    if rows.len() == 0 {
        -1
    } else if rows[0].unique_identifier@ == ident {
        0
    } else {
        let r = spec_user_ident_index(rows.drop_first(), ident);
        if r == -1 {
            -1
        } else {
            r + 1
        }
    }
}

// What a first-match index means

/// Facts about `spec_location_index`.
pub proof fn lemma_location_index(rows: Seq<LocationDefinition>, id: i32)
    ensures
        ({
            let r = spec_location_index(rows, id);
            &&& r == -1 ==> forall|i: int| 0 <= i < rows.len() ==> (#[trigger] rows[i]).id != id
            &&& r != -1 ==> 0 <= r < rows.len() && rows[r].id == id && forall|i: int|
                0 <= i < r ==> (#[trigger] rows[i]).id != id
        }),
    decreases rows.len(),
{
    if rows.len() > 0 && rows[0].id != id {
        lemma_location_index(rows.drop_first(), id);
        let dropped = rows.drop_first();
        assert forall|i: int| 0 < i < rows.len() implies #[trigger] rows[i] == dropped[i - 1] by {}
    }
}

/// Facts about `spec_device_index`.
pub proof fn lemma_device_index(rows: Seq<DeviceKeyInfo>, device_id: Seq<char>)
    ensures
        ({
            let r = spec_device_index(rows, device_id);
            &&& r == -1 ==> forall|i: int|
                0 <= i < rows.len() ==> (#[trigger] rows[i]).device_id@ != device_id
            &&& r != -1 ==> 0 <= r < rows.len() && rows[r].device_id@ == device_id && forall|i: int|
                0 <= i < r ==> (#[trigger] rows[i]).device_id@ != device_id
        }),
    decreases rows.len(),
{
    if rows.len() > 0 && rows[0].device_id@ != device_id {
        lemma_device_index(rows.drop_first(), device_id);
        let dropped = rows.drop_first();
        assert forall|i: int| 0 < i < rows.len() implies #[trigger] rows[i] == dropped[i - 1] by {}
    }
}

/// Facts about `spec_data_index`.
pub proof fn lemma_data_index(rows: Seq<DeviceData>, dki: i32, col: i32)
    ensures
        ({
            let r = spec_data_index(rows, dki, col);
            &&& r == -1 ==> forall|i: int|
                0 <= i < rows.len() ==> !((#[trigger] rows[i]).device_key_info_id == dki
                    && rows[i].column_definition_id == col)
            &&& r != -1 ==> 0 <= r < rows.len() && rows[r].device_key_info_id == dki
                && rows[r].column_definition_id == col && forall|i: int|
                0 <= i < r ==> !((#[trigger] rows[i]).device_key_info_id == dki
                    && rows[i].column_definition_id == col)
        }),
    decreases rows.len(),
{
    if rows.len() > 0 && !(rows[0].device_key_info_id == dki && rows[0].column_definition_id
        == col) {
        lemma_data_index(rows.drop_first(), dki, col);
        let dropped = rows.drop_first();
        assert forall|i: int| 0 < i < rows.len() implies #[trigger] rows[i] == dropped[i - 1] by {}
    }
}

/// Facts about `spec_component_index`.
pub proof fn lemma_component_index(rows: Seq<DeviceComponentRow>, dki: i32, key: Seq<char>)
    ensures
        ({
            let r = spec_component_index(rows, dki, key);
            &&& r == -1 ==> forall|i: int|
                0 <= i < rows.len() ==> !((#[trigger] rows[i]).device_key_info_id == dki
                    && rows[i].component_id@ == key)
            &&& r != -1 ==> 0 <= r < rows.len() && rows[r].device_key_info_id == dki
                && rows[r].component_id@ == key && forall|i: int|
                0 <= i < r ==> !((#[trigger] rows[i]).device_key_info_id == dki
                    && rows[i].component_id@ == key)
        }),
    decreases rows.len(),
{
    if rows.len() > 0 && !(rows[0].device_key_info_id == dki && rows[0].component_id@ == key) {
        lemma_component_index(rows.drop_first(), dki, key);
        let dropped = rows.drop_first();
        assert forall|i: int| 0 < i < rows.len() implies #[trigger] rows[i] == dropped[i - 1] by {}
    }
}

/// Facts about `spec_attachment_index`.
pub proof fn lemma_attachment_index(rows: Seq<DeviceAttachmentRow>, dki: i32, key: Seq<char>)
    ensures
        ({
            let r = spec_attachment_index(rows, dki, key);
            &&& r == -1 ==> forall|i: int|
                0 <= i < rows.len() ==> !((#[trigger] rows[i]).device_key_info_id == dki
                    && rows[i].attachment_id@ == key)
            &&& r != -1 ==> 0 <= r < rows.len() && rows[r].device_key_info_id == dki
                && rows[r].attachment_id@ == key && forall|i: int|
                0 <= i < r ==> !((#[trigger] rows[i]).device_key_info_id == dki
                    && rows[i].attachment_id@ == key)
        }),
    decreases rows.len(),
{
    if rows.len() > 0 && !(rows[0].device_key_info_id == dki && rows[0].attachment_id@ == key) {
        lemma_attachment_index(rows.drop_first(), dki, key);
        let dropped = rows.drop_first();
        assert forall|i: int| 0 < i < rows.len() implies #[trigger] rows[i] == dropped[i - 1] by {}
    }
}

/// Facts about `spec_user_index`.
pub proof fn lemma_user_index(rows: Seq<User>, id: i32)
    ensures
        ({
            let r = spec_user_index(rows, id);
            &&& r == -1 ==> forall|i: int| 0 <= i < rows.len() ==> (#[trigger] rows[i]).id != id
            &&& r != -1 ==> 0 <= r < rows.len() && rows[r].id == id && forall|i: int|
                0 <= i < r ==> (#[trigger] rows[i]).id != id
        }),
    decreases rows.len(),
{
    if rows.len() > 0 && rows[0].id != id {
        lemma_user_index(rows.drop_first(), id);
        let dropped = rows.drop_first();
        assert forall|i: int| 0 < i < rows.len() implies #[trigger] rows[i] == dropped[i - 1] by {}
    }
}

/// Facts about `spec_user_ident_index`.
pub proof fn lemma_user_ident_index(rows: Seq<User>, ident: Seq<char>)
    ensures
        ({
            let r = spec_user_ident_index(rows, ident);
            &&& r == -1 ==> forall|i: int|
                0 <= i < rows.len() ==> (#[trigger] rows[i]).unique_identifier@ != ident
            &&& r != -1 ==> 0 <= r < rows.len() && rows[r].unique_identifier@ == ident && forall|
                i: int,
            |
                0 <= i < r ==> (#[trigger] rows[i]).unique_identifier@ != ident
        }),
    decreases rows.len(),
{
    if rows.len() > 0 && rows[0].unique_identifier@ != ident {
        lemma_user_ident_index(rows.drop_first(), ident);
        let dropped = rows.drop_first();
        assert forall|i: int| 0 < i < rows.len() implies #[trigger] rows[i] == dropped[i - 1] by {}
    }
}

// Executable finders

impl Store {
    /// Finds the index of the location with identifier `id`.
    pub fn find_location_index(&self, id: i32) -> (r: Option<usize>)
        ensures
            match r {
                Some(idx) => idx as int == spec_location_index(self.locations@, id),
                None => spec_location_index(self.locations@, id) == -1,
            },
    {
        let mut i: usize = 0;
        while i < self.locations.len()
            invariant
                i <= self.locations@.len(),
                forall|j: int| 0 <= j < i ==> (#[trigger] self.locations@[j]).id != id,
            decreases self.locations@.len() - i,
        {
            if self.locations[i].id == id {
                proof {
                    lemma_location_index(self.locations@, id);
                }
                return Some(i);
            }
            i += 1;
        }
        proof {
            lemma_location_index(self.locations@, id);
        }
        None
    }

    /// Finds the index of the device with public identifier `device_id`.
    pub fn find_device_index(&self, device_id: &String) -> (r: Option<usize>)
        ensures
            match r {
                Some(idx) => idx as int == spec_device_index(self.devices@, device_id@),
                None => spec_device_index(self.devices@, device_id@) == -1,
            },
    {
        let mut i: usize = 0;
        while i < self.devices.len()
            invariant
                i <= self.devices@.len(),
                forall|j: int| 0 <= j < i ==> (#[trigger] self.devices@[j]).device_id@ != device_id@,
            decreases self.devices@.len() - i,
        {
            if self.devices[i].device_id.eq(device_id) {
                proof {
                    lemma_device_index(self.devices@, device_id@);
                }
                return Some(i);
            }
            i += 1;
        }
        proof {
            lemma_device_index(self.devices@, device_id@);
        }
        None
    }

    /// Finds the index of the column value row keyed by (`dki`, `col`).
    pub fn find_data_index(&self, dki: i32, col: i32) -> (r: Option<usize>)
        ensures
            match r {
                Some(idx) => idx as int == spec_data_index(self.device_data@, dki, col),
                None => spec_data_index(self.device_data@, dki, col) == -1,
            },
    {
        let mut i: usize = 0;
        while i < self.device_data.len()
            invariant
                i <= self.device_data@.len(),
                forall|j: int|
                    0 <= j < i ==> !((#[trigger] self.device_data@[j]).device_key_info_id == dki
                        && self.device_data@[j].column_definition_id == col),
            decreases self.device_data@.len() - i,
        {
            if self.device_data[i].device_key_info_id == dki
                && self.device_data[i].column_definition_id == col {
                proof {
                    lemma_data_index(self.device_data@, dki, col);
                }
                return Some(i);
            }
            i += 1;
        }
        proof {
            lemma_data_index(self.device_data@, dki, col);
        }
        None
    }

    /// Finds the index of the component row keyed by (`dki`, `key`).
    pub fn find_component_index(&self, dki: i32, key: &String) -> (r: Option<usize>)
        ensures
            match r {
                Some(idx) => idx as int == spec_component_index(self.components@, dki, key@),
                None => spec_component_index(self.components@, dki, key@) == -1,
            },
    {
        let mut i: usize = 0;
        while i < self.components.len()
            invariant
                i <= self.components@.len(),
                forall|j: int|
                    0 <= j < i ==> !((#[trigger] self.components@[j]).device_key_info_id == dki
                        && self.components@[j].component_id@ == key@),
            decreases self.components@.len() - i,
        {
            if self.components[i].device_key_info_id == dki && self.components[i].component_id.eq(
                key,
            ) {
                proof {
                    lemma_component_index(self.components@, dki, key@);
                }
                return Some(i);
            }
            i += 1;
        }
        proof {
            lemma_component_index(self.components@, dki, key@);
        }
        None
    }

    /// Finds the index of the attachment row keyed by (`dki`, `key`).
    pub fn find_attachment_index(&self, dki: i32, key: &String) -> (r: Option<usize>)
        ensures
            match r {
                Some(idx) => idx as int == spec_attachment_index(self.attachments@, dki, key@),
                None => spec_attachment_index(self.attachments@, dki, key@) == -1,
            },
    {
        let mut i: usize = 0;
        while i < self.attachments.len()
            invariant
                i <= self.attachments@.len(),
                forall|j: int|
                    0 <= j < i ==> !((#[trigger] self.attachments@[j]).device_key_info_id == dki
                        && self.attachments@[j].attachment_id@ == key@),
            decreases self.attachments@.len() - i,
        {
            if self.attachments[i].device_key_info_id == dki && self.attachments[i].attachment_id
                .eq(key) {
                proof {
                    lemma_attachment_index(self.attachments@, dki, key@);
                }
                return Some(i);
            }
            i += 1;
        }
        proof {
            lemma_attachment_index(self.attachments@, dki, key@);
        }
        None
    }

    /// Whether a location with identifier `id` exists.
    pub fn location_exists(&self, id: i32) -> (r: bool)
        ensures
            r == (spec_location_index(self.locations@, id) != -1),
    {
        self.find_location_index(id).is_some()
    }

    /// Whether a device with public identifier `device_id` exists.
    pub fn device_id_exists(&self, device_id: &String) -> (r: bool)
        ensures
            r == (spec_device_index(self.devices@, device_id@) != -1),
    {
        self.find_device_index(device_id).is_some()
    }

    /// Whether a component with identifier `key` exists for the device with
    /// surrogate key `dki`.
    pub fn component_id_exists(&self, dki: i32, key: &String) -> (r: bool)
        ensures
            r == (spec_component_index(self.components@, dki, key@) != -1),
    {
        self.find_component_index(dki, key).is_some()
    }

    /// Whether an attachment with identifier `key` exists for the device with
    /// surrogate key `dki`.
    pub fn attachment_id_exists(&self, dki: i32, key: &String) -> (r: bool)
        ensures
            r == (spec_attachment_index(self.attachments@, dki, key@) != -1),
    {
        self.find_attachment_index(dki, key).is_some()
    }
}

// Mutations. Each states its exact effect and preserves well-formedness.

impl Store {
    /// Inserts the key information of a new device, or updates the location
    /// of the existing device with the same public identifier (upsert keyed
    /// by the public identifier). Returns the device's surrogate key.
    pub fn upsert_key_info(&mut self, new: &crate::models::DeviceKeyInfoNew) -> (r: Result<
        i32,
        Error,
    >)
        requires
            old(self).wf(),
        ensures
            final(self).wf(),
            ({
                let idx = spec_device_index(old(self).devices@, new.device_id@);
                match r {
                    Ok(id) => {
                        &&& (idx != -1 ==> {
                            &&& id == old(self).devices@[idx].id
                            &&& final(self).devices@ == old(self).devices@.update(
                                idx,
                                DeviceKeyInfo {
                                    location_id: new.location_id,
                                    ..old(self).devices@[idx]
                                },
                            )
                            &&& final(self).next_id == old(self).next_id
                        })
                        &&& (idx == -1 ==> {
                            &&& id == old(self).next_id
                            &&& final(self).devices@ == old(self).devices@.push(
                                DeviceKeyInfo {
                                    id: old(self).next_id,
                                    device_id: new.device_id,
                                    deleted: false,
                                    location_id: new.location_id,
                                },
                            )
                            &&& final(self).next_id == old(self).next_id + 1
                        })
                        &&& final(self).locations@ == old(self).locations@
                        &&& final(self).users@ == old(self).users@
                        &&& final(self).device_data@ == old(self).device_data@
                        &&& final(self).components@ == old(self).components@
                        &&& final(self).attachments@ == old(self).attachments@
                        &&& final(self).changes@ == old(self).changes@
                    },
                    Err(_) => *final(self) == *old(self) && idx == -1 && old(self).next_id
                        == i32::MAX,
                }
            }),
    {
        match self.find_device_index(&new.device_id) {
            Some(idx) => {
                proof {
                    lemma_device_index(old(self).devices@, new.device_id@);
                }
                let id = self.devices[idx].id;
                self.devices[idx].location_id = new.location_id;
                Ok(id)
            },
            None => {
                if self.next_id == i32::MAX {
                    return Err(Error::NoContext(InternalError::Storage(
                        "the surrogate key space is exhausted",
                    )));
                }
                let id = self.next_id;
                proof {
                    lemma_device_index(old(self).devices@, new.device_id@);
                }
                self.devices.push(
                    DeviceKeyInfo {
                        id,
                        device_id: new.device_id.clone(),
                        deleted: false,
                        location_id: new.location_id,
                    },
                );
                self.next_id = id + 1;
                Ok(id)
            },
        }
    }

    /// Inserts a column value, or updates the value of the existing row with
    /// the same (device, column) key (upsert keyed by that pair).
    pub fn upsert_column_value(&mut self, row: &crate::models::DeviceDataNew) -> (r: Result<
        (),
        Error,
    >)
        requires
            old(self).wf(),
        ensures
            final(self).wf(),
            ({
                let idx = spec_data_index(
                    old(self).device_data@,
                    row.device_key_info_id,
                    row.column_definition_id,
                );
                match r {
                    Ok(_) => {
                        &&& (idx != -1 ==> final(self).device_data@ == old(
                            self,
                        ).device_data@.update(
                            idx,
                            DeviceData { data_value: row.data_value, ..old(self).device_data@[idx] },
                        ) && final(self).next_id == old(self).next_id)
                        &&& (idx == -1 ==> final(self).device_data@ == old(
                            self,
                        ).device_data@.push(
                            DeviceData {
                                id: old(self).next_id,
                                device_key_info_id: row.device_key_info_id,
                                column_definition_id: row.column_definition_id,
                                data_value: row.data_value,
                            },
                        ) && final(self).next_id == old(self).next_id + 1)
                        &&& final(self).locations@ == old(self).locations@
                        &&& final(self).users@ == old(self).users@
                        &&& final(self).devices@ == old(self).devices@
                        &&& final(self).components@ == old(self).components@
                        &&& final(self).attachments@ == old(self).attachments@
                        &&& final(self).changes@ == old(self).changes@
                    },
                    Err(_) => *final(self) == *old(self) && idx == -1 && old(self).next_id
                        == i32::MAX,
                }
            }),
    {
        match self.find_data_index(row.device_key_info_id, row.column_definition_id) {
            Some(idx) => {
                proof {
                    lemma_data_index(
                        old(self).device_data@,
                        row.device_key_info_id,
                        row.column_definition_id,
                    );
                }
                self.device_data[idx].data_value = row.data_value.clone();
                Ok(())
            },
            None => {
                if self.next_id == i32::MAX {
                    return Err(Error::NoContext(InternalError::Storage(
                        "the surrogate key space is exhausted",
                    )));
                }
                let id = self.next_id;
                proof {
                    lemma_data_index(
                        old(self).device_data@,
                        row.device_key_info_id,
                        row.column_definition_id,
                    );
                }
                self.device_data.push(
                    DeviceData {
                        id,
                        device_key_info_id: row.device_key_info_id,
                        column_definition_id: row.column_definition_id,
                        data_value: row.data_value.clone(),
                    },
                );
                self.next_id = id + 1;
                Ok(())
            },
        }
    }

    /// Inserts a component, or updates the type of the existing row with the
    /// same (device, component identifier) key. An update touches only the
    /// type; a previously soft-deleted row keeps its deletion flag.
    pub fn upsert_component(&mut self, new: &crate::models::DeviceComponentNew) -> (r: Result<
        (),
        Error,
    >)
        requires
            old(self).wf(),
        ensures
            final(self).wf(),
            ({
                let idx = spec_component_index(
                    old(self).components@,
                    new.device_key_info_id,
                    new.component_id@,
                );
                match r {
                    Ok(_) => {
                        &&& (idx != -1 ==> final(self).components@ == old(self).components@.update(
                            idx,
                            DeviceComponentRow {
                                component_type: new.component_type,
                                ..old(self).components@[idx]
                            },
                        ) && final(self).next_id == old(self).next_id)
                        &&& (idx == -1 ==> final(self).components@ == old(self).components@.push(
                            DeviceComponentRow {
                                id: old(self).next_id,
                                device_key_info_id: new.device_key_info_id,
                                component_id: new.component_id,
                                component_type: new.component_type,
                                deleted: false,
                            },
                        ) && final(self).next_id == old(self).next_id + 1)
                        &&& final(self).locations@ == old(self).locations@
                        &&& final(self).users@ == old(self).users@
                        &&& final(self).devices@ == old(self).devices@
                        &&& final(self).device_data@ == old(self).device_data@
                        &&& final(self).attachments@ == old(self).attachments@
                        &&& final(self).changes@ == old(self).changes@
                    },
                    Err(_) => *final(self) == *old(self) && idx == -1 && old(self).next_id
                        == i32::MAX,
                }
            }),
    {
        match self.find_component_index(new.device_key_info_id, &new.component_id) {
            Some(idx) => {
                proof {
                    lemma_component_index(
                        old(self).components@,
                        new.device_key_info_id,
                        new.component_id@,
                    );
                }
                self.components[idx].component_type = new.component_type.clone();
                Ok(())
            },
            None => {
                if self.next_id == i32::MAX {
                    return Err(Error::NoContext(InternalError::Storage(
                        "the surrogate key space is exhausted",
                    )));
                }
                let id = self.next_id;
                proof {
                    lemma_component_index(
                        old(self).components@,
                        new.device_key_info_id,
                        new.component_id@,
                    );
                }
                self.components.push(
                    DeviceComponentRow {
                        id,
                        device_key_info_id: new.device_key_info_id,
                        component_id: new.component_id.clone(),
                        component_type: new.component_type.clone(),
                        deleted: false,
                    },
                );
                self.next_id = id + 1;
                Ok(())
            },
        }
    }

    /// Soft-deletes the component with the given key, if present.
    pub fn soft_delete_component(&mut self, dki: i32, key: &String)
        requires
            old(self).wf(),
        ensures
            final(self).wf(),
            ({
                let idx = spec_component_index(old(self).components@, dki, key@);
                &&& (idx != -1 ==> final(self).components@ == old(self).components@.update(
                    idx,
                    DeviceComponentRow { deleted: true, ..old(self).components@[idx] },
                ))
                &&& (idx == -1 ==> final(self).components@ == old(self).components@)
            }),
            final(self).locations@ == old(self).locations@,
            final(self).users@ == old(self).users@,
            final(self).devices@ == old(self).devices@,
            final(self).device_data@ == old(self).device_data@,
            final(self).attachments@ == old(self).attachments@,
            final(self).changes@ == old(self).changes@,
            final(self).next_id == old(self).next_id,
    {
        match self.find_component_index(dki, key) {
            Some(idx) => {
                proof {
                    lemma_component_index(old(self).components@, dki, key@);
                }
                self.components[idx].deleted = true;
            },
            None => (),
        }
    }

    /// Inserts a new attachment. The (device, attachment identifier) key must
    /// be unused; a collision is reported as a storage failure, mirroring the
    /// store's unique constraint.
    pub fn insert_attachment(&mut self, new: &crate::models::DeviceAttachmentNew) -> (r: Result<
        (),
        Error,
    >)
        requires
            old(self).wf(),
        ensures
            final(self).wf(),
            ({
                let idx = spec_attachment_index(
                    old(self).attachments@,
                    new.device_key_info_id,
                    new.attachment_id@,
                );
                match r {
                    Ok(_) => {
                        &&& idx == -1
                        &&& final(self).attachments@.drop_last() == old(self).attachments@
                        &&& final(self).attachments@.len() == old(self).attachments@.len() + 1
                        &&& ({
                            let row = final(self).attachments@.last();
                            &&& row.id == old(self).next_id
                            &&& row.device_key_info_id == new.device_key_info_id
                            &&& row.attachment_id == new.attachment_id
                            &&& row.description == new.description
                            &&& row.file_name == new.file_name
                            &&& row.file_data@ == new.file_data@
                            &&& row.deleted == false
                        })
                        &&& final(self).next_id == old(self).next_id + 1
                        &&& final(self).locations@ == old(self).locations@
                        &&& final(self).users@ == old(self).users@
                        &&& final(self).devices@ == old(self).devices@
                        &&& final(self).device_data@ == old(self).device_data@
                        &&& final(self).components@ == old(self).components@
                        &&& final(self).changes@ == old(self).changes@
                    },
                    Err(_) => *final(self) == *old(self) && (idx != -1 || old(self).next_id
                        == i32::MAX),
                }
            }),
    {
        if self.find_attachment_index(new.device_key_info_id, &new.attachment_id).is_some() {
            return Err(Error::NoContext(InternalError::Storage(
                "an attachment with this identifier already exists",
            )));
        }
        if self.next_id == i32::MAX {
            return Err(Error::NoContext(InternalError::Storage(
                "the surrogate key space is exhausted",
            )));
        }
        let id = self.next_id;
        proof {
            lemma_attachment_index(
                old(self).attachments@,
                new.device_key_info_id,
                new.attachment_id@,
            );
        }
        self.attachments.push(
            DeviceAttachmentRow {
                id,
                device_key_info_id: new.device_key_info_id,
                attachment_id: new.attachment_id.clone(),
                description: new.description.clone(),
                file_name: new.file_name.clone(),
                file_data: clone_bytes(&new.file_data),
                deleted: false,
            },
        );
        self.next_id = id + 1;
        proof {
            assert(self.attachments@.drop_last() =~= old(self).attachments@);
        }
        Ok(())
    }

    /// Updates the description of the attachment with the given key, if
    /// present. Only the description ever changes; the payload and file name
    /// of an existing attachment are immutable.
    pub fn update_attachment_description(&mut self, dki: i32, key: &String, description: &String)
        requires
            old(self).wf(),
        ensures
            final(self).wf(),
            ({
                let idx = spec_attachment_index(old(self).attachments@, dki, key@);
                &&& (idx != -1 ==> final(self).attachments@ == old(self).attachments@.update(
                    idx,
                    DeviceAttachmentRow { description: *description, ..old(self).attachments@[idx] },
                ))
                &&& (idx == -1 ==> final(self).attachments@ == old(self).attachments@)
            }),
            final(self).locations@ == old(self).locations@,
            final(self).users@ == old(self).users@,
            final(self).devices@ == old(self).devices@,
            final(self).device_data@ == old(self).device_data@,
            final(self).components@ == old(self).components@,
            final(self).changes@ == old(self).changes@,
            final(self).next_id == old(self).next_id,
    {
        match self.find_attachment_index(dki, key) {
            Some(idx) => {
                proof {
                    lemma_attachment_index(old(self).attachments@, dki, key@);
                }
                self.attachments[idx].description = description.clone();
            },
            None => (),
        }
    }

    /// Soft-deletes the attachment with the given key, if present.
    pub fn soft_delete_attachment(&mut self, dki: i32, key: &String)
        requires
            old(self).wf(),
        ensures
            final(self).wf(),
            ({
                let idx = spec_attachment_index(old(self).attachments@, dki, key@);
                &&& (idx != -1 ==> final(self).attachments@ == old(self).attachments@.update(
                    idx,
                    DeviceAttachmentRow { deleted: true, ..old(self).attachments@[idx] },
                ))
                &&& (idx == -1 ==> final(self).attachments@ == old(self).attachments@)
            }),
            final(self).locations@ == old(self).locations@,
            final(self).users@ == old(self).users@,
            final(self).devices@ == old(self).devices@,
            final(self).device_data@ == old(self).device_data@,
            final(self).components@ == old(self).components@,
            final(self).changes@ == old(self).changes@,
            final(self).next_id == old(self).next_id,
    {
        match self.find_attachment_index(dki, key) {
            Some(idx) => {
                proof {
                    lemma_attachment_index(old(self).attachments@, dki, key@);
                }
                self.attachments[idx].deleted = true;
            },
            None => (),
        }
    }

    /// Appends an immutable change-log row.
    pub fn insert_change_log(&mut self, entry: &crate::models::DeviceChangeNew) -> (r: Result<
        (),
        Error,
    >)
        requires
            old(self).wf(),
        ensures
            final(self).wf(),
            match r {
                Ok(_) => {
                    &&& final(self).changes@ == old(self).changes@.push(
                        DeviceChange {
                            id: old(self).next_id,
                            device_key_info_id: entry.device_key_info_id,
                            timestamp: entry.timestamp,
                            done_automatically: entry.done_automatically,
                            user_id: Some(entry.user_id),
                            change: entry.change,
                        },
                    )
                    &&& final(self).next_id == old(self).next_id + 1
                    &&& final(self).locations@ == old(self).locations@
                    &&& final(self).users@ == old(self).users@
                    &&& final(self).devices@ == old(self).devices@
                    &&& final(self).device_data@ == old(self).device_data@
                    &&& final(self).components@ == old(self).components@
                    &&& final(self).attachments@ == old(self).attachments@
                },
                Err(_) => *final(self) == *old(self) && old(self).next_id == i32::MAX,
            },
    {
        if self.next_id == i32::MAX {
            return Err(Error::NoContext(InternalError::Storage(
                "the surrogate key space is exhausted",
            )));
        }
        let id = self.next_id;
        self.changes.push(
            DeviceChange {
                id,
                device_key_info_id: entry.device_key_info_id,
                timestamp: entry.timestamp,
                done_automatically: entry.done_automatically,
                user_id: Some(entry.user_id),
                change: entry.change.clone(),
            },
        );
        self.next_id = id + 1;
        Ok(())
    }

    /// Sets the soft-deletion flag of the device at `idx`.
    pub fn set_device_deleted(&mut self, idx: usize, deleted: bool)
        requires
            old(self).wf(),
            idx < old(self).devices@.len(),
        ensures
            final(self).wf(),
            final(self).devices@ == old(self).devices@.update(
                idx as int,
                DeviceKeyInfo { deleted, ..old(self).devices@[idx as int] },
            ),
            final(self).locations@ == old(self).locations@,
            final(self).users@ == old(self).users@,
            final(self).device_data@ == old(self).device_data@,
            final(self).components@ == old(self).components@,
            final(self).attachments@ == old(self).attachments@,
            final(self).changes@ == old(self).changes@,
            final(self).next_id == old(self).next_id,
    {
        self.devices[idx].deleted = deleted;
    }

    /// Sets the location of the device at `idx`.
    pub fn set_device_location(&mut self, idx: usize, location_id: i32)
        requires
            old(self).wf(),
            idx < old(self).devices@.len(),
        ensures
            final(self).wf(),
            final(self).devices@ == old(self).devices@.update(
                idx as int,
                DeviceKeyInfo { location_id, ..old(self).devices@[idx as int] },
            ),
            final(self).locations@ == old(self).locations@,
            final(self).users@ == old(self).users@,
            final(self).device_data@ == old(self).device_data@,
            final(self).components@ == old(self).components@,
            final(self).attachments@ == old(self).attachments@,
            final(self).changes@ == old(self).changes@,
            final(self).next_id == old(self).next_id,
    {
        self.devices[idx].location_id = location_id;
    }

    /// Inserts a location definition, assigning it a fresh identifier.
    pub fn insert_location(&mut self, name: &String) -> (r: Result<i32, Error>)
        requires
            old(self).wf(),
        ensures
            final(self).wf(),
            match r {
                Ok(id) => {
                    &&& id == old(self).next_id
                    &&& final(self).locations@ == old(self).locations@.push(
                        LocationDefinition { id: old(self).next_id, name: *name },
                    )
                    &&& final(self).next_id == old(self).next_id + 1
                    &&& final(self).users@ == old(self).users@
                    &&& final(self).devices@ == old(self).devices@
                    &&& final(self).device_data@ == old(self).device_data@
                    &&& final(self).components@ == old(self).components@
                    &&& final(self).attachments@ == old(self).attachments@
                    &&& final(self).changes@ == old(self).changes@
                },
                Err(_) => *final(self) == *old(self) && old(self).next_id == i32::MAX,
            },
    {
        if self.next_id == i32::MAX {
            return Err(Error::NoContext(InternalError::Storage(
                "the surrogate key space is exhausted",
            )));
        }
        let id = self.next_id;
        self.locations.push(LocationDefinition { id, name: name.clone() });
        self.next_id = id + 1;
        Ok(id)
    }

    /// Inserts a user account, assigning it a fresh identifier.
    pub fn insert_user(&mut self, new: &crate::models::UserNew) -> (r: Result<i32, Error>)
        requires
            old(self).wf(),
        ensures
            final(self).wf(),
            match r {
                Ok(id) => {
                    &&& id == old(self).next_id
                    &&& final(self).users@ == old(self).users@.push(
                        User {
                            id: old(self).next_id,
                            source: new.source,
                            unique_identifier: new.unique_identifier,
                            display_name: new.display_name,
                            associated_location_id: None,
                        },
                    )
                    &&& final(self).next_id == old(self).next_id + 1
                    &&& final(self).locations@ == old(self).locations@
                    &&& final(self).devices@ == old(self).devices@
                    &&& final(self).device_data@ == old(self).device_data@
                    &&& final(self).components@ == old(self).components@
                    &&& final(self).attachments@ == old(self).attachments@
                    &&& final(self).changes@ == old(self).changes@
                },
                Err(_) => *final(self) == *old(self) && old(self).next_id == i32::MAX,
            },
    {
        if self.next_id == i32::MAX {
            return Err(Error::NoContext(InternalError::Storage(
                "the surrogate key space is exhausted",
            )));
        }
        let id = self.next_id;
        self.users.push(
            User {
                id,
                source: new.source,
                unique_identifier: new.unique_identifier.clone(),
                display_name: new.display_name.clone(),
                associated_location_id: None,
            },
        );
        self.next_id = id + 1;
        Ok(id)
    }
}

/// Copies a byte vector, preserving its contents.
fn clone_bytes(v: &Vec<u8>) -> (r: Vec<u8>)
    ensures
        r@ == v@,
{
    let mut out: Vec<u8> = Vec::new();
    let mut i: usize = 0;
    while i < v.len()
        invariant
            i <= v@.len(),
            out@ == v@.take(i as int),
        decreases v@.len() - i,
    {
        out.push(v[i]);
        proof {
            assert(v@.take(i + 1).drop_last() =~= v@.take(i as int));
            assert(v@.take(i + 1) =~= v@.take(i as int).push(v@[i as int]));
        }
        i += 1;
    }
    proof {
        assert(v@.take(v@.len() as int) =~= v@);
    }
    out
}


// Index stability under key-preserving updates and appends

/// Two tables with the same keys row for row have the same first-match index.
pub proof fn lemma_data_index_same_keys(r1: Seq<DeviceData>, r2: Seq<DeviceData>, dki: i32, col: i32)
    requires
        r1.len() == r2.len(),
        forall|m: int|
            0 <= m < r1.len() ==> (#[trigger] r1[m]).device_key_info_id == (
            #[trigger] r2[m]).device_key_info_id && r1[m].column_definition_id
                == r2[m].column_definition_id,
    ensures
        spec_data_index(r1, dki, col) == spec_data_index(r2, dki, col),
    decreases r1.len(),
{
    if r1.len() > 0 {
        assert(r1[0].device_key_info_id == r2[0].device_key_info_id && r1[0].column_definition_id
            == r2[0].column_definition_id);
        let d1 = r1.drop_first();
        let d2 = r2.drop_first();
        assert(forall|m: int| 0 <= m < d1.len() ==> #[trigger] d1[m] == r1[m + 1]);
        assert(forall|m: int| 0 <= m < d2.len() ==> #[trigger] d2[m] == r2[m + 1]);
        lemma_data_index_same_keys(d1, d2, dki, col);
    }
}

/// Appending a row moves no existing first match and introduces one only for
/// the appended key.
pub proof fn lemma_data_index_push(rows: Seq<DeviceData>, x: DeviceData, dki: i32, col: i32)
    ensures
        spec_data_index(rows, dki, col) != -1 ==> spec_data_index(rows.push(x), dki, col)
            == spec_data_index(rows, dki, col),
        spec_data_index(rows, dki, col) == -1 ==> spec_data_index(rows.push(x), dki, col) == (
        if x.device_key_info_id == dki && x.column_definition_id == col {
            rows.len() as int
        } else {
            -1
        }),
{
    lemma_data_index(rows, dki, col);
    lemma_data_index(rows.push(x), dki, col);
    let full = rows.push(x);
    assert(forall|m: int| 0 <= m < rows.len() ==> #[trigger] full[m] == rows[m]);
    assert(full[rows.len() as int] == x);
    let k = spec_data_index(rows, dki, col);
    let kp = spec_data_index(full, dki, col);
    if k != -1 {
        assert(full[k].device_key_info_id == dki && full[k].column_definition_id == col);
        assert(kp != -1);
        if kp < k {
            assert(rows[kp].device_key_info_id == dki && rows[kp].column_definition_id == col);
            assert(false);
        }
        if kp > k {
            assert(!((#[trigger] full[k]).device_key_info_id == dki && full[k].column_definition_id
                == col));
            assert(false);
        }
    } else {
        if x.device_key_info_id == dki && x.column_definition_id == col {
            assert(kp != -1);
            if kp < rows.len() {
                assert(rows[kp].device_key_info_id == dki && rows[kp].column_definition_id == col);
                assert(false);
            }
            assert(kp == rows.len() as int);
        } else {
            if kp != -1 {
                if kp < rows.len() {
                    assert(rows[kp].device_key_info_id == dki && rows[kp].column_definition_id
                        == col);
                } else {
                    assert(full[kp] == x);
                }
                assert(false);
            }
        }
    }
}

/// Two component tables with the same keys row for row have the same
/// first-match index.
pub proof fn lemma_component_index_same_keys(
    r1: Seq<DeviceComponentRow>,
    r2: Seq<DeviceComponentRow>,
    dki: i32,
    key: Seq<char>,
)
    requires
        r1.len() == r2.len(),
        forall|m: int|
            0 <= m < r1.len() ==> (#[trigger] r1[m]).device_key_info_id == (
            #[trigger] r2[m]).device_key_info_id && r1[m].component_id@ == r2[m].component_id@,
    ensures
        spec_component_index(r1, dki, key) == spec_component_index(r2, dki, key),
    decreases r1.len(),
{
    if r1.len() > 0 {
        assert(r1[0].device_key_info_id == r2[0].device_key_info_id && r1[0].component_id@
            == r2[0].component_id@);
        let d1 = r1.drop_first();
        let d2 = r2.drop_first();
        assert(forall|m: int| 0 <= m < d1.len() ==> #[trigger] d1[m] == r1[m + 1]);
        assert(forall|m: int| 0 <= m < d2.len() ==> #[trigger] d2[m] == r2[m + 1]);
        lemma_component_index_same_keys(d1, d2, dki, key);
    }
}

/// Appending a component row moves no existing first match and introduces
/// one only for the appended key.
pub proof fn lemma_component_index_push(
    rows: Seq<DeviceComponentRow>,
    x: DeviceComponentRow,
    dki: i32,
    key: Seq<char>,
)
    ensures
        spec_component_index(rows, dki, key) != -1 ==> spec_component_index(rows.push(x), dki, key)
            == spec_component_index(rows, dki, key),
        spec_component_index(rows, dki, key) == -1 ==> spec_component_index(rows.push(x), dki, key)
            == (if x.device_key_info_id == dki && x.component_id@ == key {
            rows.len() as int
        } else {
            -1
        }),
{
    lemma_component_index(rows, dki, key);
    lemma_component_index(rows.push(x), dki, key);
    let full = rows.push(x);
    assert(forall|m: int| 0 <= m < rows.len() ==> #[trigger] full[m] == rows[m]);
    assert(full[rows.len() as int] == x);
    let k = spec_component_index(rows, dki, key);
    let kp = spec_component_index(full, dki, key);
    if k != -1 {
        assert(full[k].device_key_info_id == dki && full[k].component_id@ == key);
        assert(kp != -1);
        if kp < k {
            assert(rows[kp].device_key_info_id == dki && rows[kp].component_id@ == key);
            assert(false);
        }
        if kp > k {
            assert(!((#[trigger] full[k]).device_key_info_id == dki && full[k].component_id@
                == key));
            assert(false);
        }
    } else {
        if x.device_key_info_id == dki && x.component_id@ == key {
            assert(kp != -1);
            if kp < rows.len() {
                assert(rows[kp].device_key_info_id == dki && rows[kp].component_id@ == key);
                assert(false);
            }
            assert(kp == rows.len() as int);
        } else {
            if kp != -1 {
                if kp < rows.len() {
                    assert(rows[kp].device_key_info_id == dki && rows[kp].component_id@
                        == key);
                } else {
                    assert(full[kp] == x);
                }
                assert(false);
            }
        }
    }
}

/// Two attachment tables with the same keys row for row have the same
/// first-match index.
pub proof fn lemma_attachment_index_same_keys(
    r1: Seq<DeviceAttachmentRow>,
    r2: Seq<DeviceAttachmentRow>,
    dki: i32,
    key: Seq<char>,
)
    requires
        r1.len() == r2.len(),
        forall|m: int|
            0 <= m < r1.len() ==> (#[trigger] r1[m]).device_key_info_id == (
            #[trigger] r2[m]).device_key_info_id && r1[m].attachment_id@ == r2[m].attachment_id@,
    ensures
        spec_attachment_index(r1, dki, key) == spec_attachment_index(r2, dki, key),
    decreases r1.len(),
{
    if r1.len() > 0 {
        assert(r1[0].device_key_info_id == r2[0].device_key_info_id && r1[0].attachment_id@
            == r2[0].attachment_id@);
        let d1 = r1.drop_first();
        let d2 = r2.drop_first();
        assert(forall|m: int| 0 <= m < d1.len() ==> #[trigger] d1[m] == r1[m + 1]);
        assert(forall|m: int| 0 <= m < d2.len() ==> #[trigger] d2[m] == r2[m + 1]);
        lemma_attachment_index_same_keys(d1, d2, dki, key);
    }
}

/// Appending an attachment row moves no existing first match and introduces
/// one only for the appended key.
pub proof fn lemma_attachment_index_push(
    rows: Seq<DeviceAttachmentRow>,
    x: DeviceAttachmentRow,
    dki: i32,
    key: Seq<char>,
)
    ensures
        spec_attachment_index(rows, dki, key) != -1 ==> spec_attachment_index(
            rows.push(x),
            dki,
            key,
        ) == spec_attachment_index(rows, dki, key),
        spec_attachment_index(rows, dki, key) == -1 ==> spec_attachment_index(
            rows.push(x),
            dki,
            key,
        ) == (if x.device_key_info_id == dki && x.attachment_id@ == key {
            rows.len() as int
        } else {
            -1
        }),
{
    lemma_attachment_index(rows, dki, key);
    lemma_attachment_index(rows.push(x), dki, key);
    let full = rows.push(x);
    assert(forall|m: int| 0 <= m < rows.len() ==> #[trigger] full[m] == rows[m]);
    assert(full[rows.len() as int] == x);
    let k = spec_attachment_index(rows, dki, key);
    let kp = spec_attachment_index(full, dki, key);
    if k != -1 {
        assert(full[k].device_key_info_id == dki && full[k].attachment_id@ == key);
        assert(kp != -1);
        if kp < k {
            assert(rows[kp].device_key_info_id == dki && rows[kp].attachment_id@ == key);
            assert(false);
        }
        if kp > k {
            assert(!((#[trigger] full[k]).device_key_info_id == dki && full[k].attachment_id@
                == key));
            assert(false);
        }
    } else {
        if x.device_key_info_id == dki && x.attachment_id@ == key {
            assert(kp != -1);
            if kp < rows.len() {
                assert(rows[kp].device_key_info_id == dki && rows[kp].attachment_id@ == key);
                assert(false);
            }
            assert(kp == rows.len() as int);
        } else {
            if kp != -1 {
                if kp < rows.len() {
                    assert(rows[kp].device_key_info_id == dki && rows[kp].attachment_id@
                        == key);
                } else {
                    assert(full[kp] == x);
                }
                assert(false);
            }
        }
    }
}

} // verus!

//! The diff engine: computes a minimal structured diff between a device's
//! previous snapshot and a normalized submission.
//!
//! Comparison is structural (by value) and keyed by identifier, never by
//! position. Every executable function is proved equal to a spec twin, so the
//! laws about diffing are stated and proved over the spec functions.

use vstd::prelude::*;

use crate::models::{
    DeviceAttachmentMetadata, DeviceAttachmentUpsert, DeviceComponent, DeviceComponentUpsert,
    DeviceData, DeviceDataNew, DeviceInfo, DeviceKeyInfoNew,
};

verus! {

// Diff value types (the persisted audit shape)

/// A set of changes to one device: up to four optional sections.
#[derive(Debug, PartialEq, Eq)]
pub struct DeviceDiff {
    pub device_key_info: Option<DeviceKeyInfoDiff>,
    pub device_data: Option<DeviceDataDiff>,
    pub device_components: Option<DeviceComponentsDiff>,
    pub device_attachments: Option<DeviceAttachmentsDiff>,
}

/// A change to the key information of a device.
#[derive(Debug, PartialEq, Eq)]
pub enum DeviceKeyInfoDiff {
    Add(DeviceKeyInfoDiffData),
    Edit(DeviceKeyInfoDiffData),
    Delete,
    Restore,
}

/// The changed key-information fields; absent fields did not change.
#[derive(Debug, PartialEq, Eq)]
pub struct DeviceKeyInfoDiffData {
    pub location_id: Option<i32>,
}

/// The changed column values of a device.
#[derive(Debug, PartialEq, Eq)]
pub struct DeviceDataDiff(pub Vec<DeviceDataColumnDiff>);

/// A change to a single column value.
#[derive(Debug, PartialEq, Eq)]
pub struct DeviceDataColumnDiff {
    pub column_definition_id: i32,
    pub data_value: Option<String>,
}

/// The changed components of a device.
#[derive(Debug, PartialEq, Eq)]
pub struct DeviceComponentsDiff(pub Vec<DeviceComponentsComponentDiff>);

/// A change to a single component, keyed by its component identifier.
#[derive(Debug, PartialEq, Eq)]
pub enum DeviceComponentsComponentDiff {
    Add(DeviceComponentsComponentDiffData),
    Edit(DeviceComponentsComponentDiffData),
    Delete { component_id: String },
    Restore { component_id: String },
}

/// The changed component fields; an absent type did not change.
#[derive(Debug, PartialEq, Eq)]
pub struct DeviceComponentsComponentDiffData {
    pub component_id: String,
    pub component_type: Option<String>,
}

/// The changed attachments of a device.
#[derive(Debug, PartialEq, Eq)]
pub struct DeviceAttachmentsDiff(pub Vec<DeviceAttachmentsAttachmentDiff>);

/// A change to a single attachment, keyed by its attachment identifier.
#[derive(Debug, PartialEq, Eq)]
pub enum DeviceAttachmentsAttachmentDiff {
    Add(DeviceAttachmentsAttachmentDiffData),
    Edit(DeviceAttachmentsAttachmentDiffData),
    Delete { attachment_id: String },
    Restore { attachment_id: String },
}

/// The changed attachment fields; absent fields did not change.
#[derive(Debug, PartialEq, Eq)]
pub struct DeviceAttachmentsAttachmentDiffData {
    pub attachment_id: String,
    pub description: Option<String>,
    pub file_name: Option<String>,
}

/// The full before-state of a device, loaded at the start of an upsert.
#[derive(Debug, PartialEq, Eq)]
pub struct Snapshot {
    pub key_info: DeviceInfo,
    pub data: Vec<DeviceData>,
    pub components: Vec<DeviceComponent>,
    pub attachments: Vec<DeviceAttachmentMetadata>,
}

/// The normalized after-state of a device: every component and new attachment
/// already carries its identifier and every payload is decoded.
#[derive(Debug, PartialEq, Eq)]
pub struct AfterState {
    pub key_info: DeviceKeyInfoNew,
    pub data: Vec<DeviceDataNew>,
    pub components: Vec<DeviceComponentUpsert>,
    pub attachments: Vec<DeviceAttachmentUpsert>,
}

// Emptiness

/// A diff value that can report whether it records no useful change.
pub trait Diff: Sized {
    /// Whether this diff records no change.
    spec fn spec_is_empty(&self) -> bool;

    /// Whether this diff records no change.
    fn is_empty(&self) -> (r: bool)
        ensures
            r == self.spec_is_empty(),
    ;
}

/// Discards a diff that records no change.
pub fn none_if_empty<D: Diff>(diff: D) -> (r: Option<D>)
    ensures
        diff.spec_is_empty() ==> r is None,
        !diff.spec_is_empty() ==> r == Some(diff),
{
    if diff.is_empty() {
        None
    } else {
        Some(diff)
    }
}

impl Diff for DeviceKeyInfoDiff {
    open spec fn spec_is_empty(&self) -> bool {
        match self {
            DeviceKeyInfoDiff::Add(d) | DeviceKeyInfoDiff::Edit(d) => d.location_id is None,
            DeviceKeyInfoDiff::Delete | DeviceKeyInfoDiff::Restore => false,
        }
    }

    fn is_empty(&self) -> (r: bool) {
        match self {
            DeviceKeyInfoDiff::Add(d) | DeviceKeyInfoDiff::Edit(d) => d.location_id.is_none(),
            DeviceKeyInfoDiff::Delete | DeviceKeyInfoDiff::Restore => false,
        }
    }
}

impl Diff for DeviceDataColumnDiff {
    open spec fn spec_is_empty(&self) -> bool {
        self.data_value is None
    }

    fn is_empty(&self) -> (r: bool) {
        self.data_value.is_none()
    }
}

impl Diff for DeviceComponentsComponentDiff {
    open spec fn spec_is_empty(&self) -> bool {
        match self {
            DeviceComponentsComponentDiff::Add(d) | DeviceComponentsComponentDiff::Edit(d) => {
                d.component_type is None
            },
            DeviceComponentsComponentDiff::Delete { .. }
            | DeviceComponentsComponentDiff::Restore { .. } => false,
        }
    }

    fn is_empty(&self) -> (r: bool) {
        match self {
            DeviceComponentsComponentDiff::Add(d) | DeviceComponentsComponentDiff::Edit(d) => {
                d.component_type.is_none()
            },
            DeviceComponentsComponentDiff::Delete { .. }
            | DeviceComponentsComponentDiff::Restore { .. } => false,
        }
    }
}

impl Diff for DeviceAttachmentsAttachmentDiff {
    open spec fn spec_is_empty(&self) -> bool {
        match self {
            DeviceAttachmentsAttachmentDiff::Add(d) | DeviceAttachmentsAttachmentDiff::Edit(d) => {
                d.description is None && d.file_name is None
            },
            DeviceAttachmentsAttachmentDiff::Delete { .. }
            | DeviceAttachmentsAttachmentDiff::Restore { .. } => false,
        }
    }

    fn is_empty(&self) -> (r: bool) {
        match self {
            DeviceAttachmentsAttachmentDiff::Add(d) | DeviceAttachmentsAttachmentDiff::Edit(d) => {
                d.description.is_none() && d.file_name.is_none()
            },
            DeviceAttachmentsAttachmentDiff::Delete { .. }
            | DeviceAttachmentsAttachmentDiff::Restore { .. } => false,
        }
    }
}

impl Diff for DeviceDiff {
    open spec fn spec_is_empty(&self) -> bool {
        self.device_key_info is None && self.device_data is None
            && self.device_components is None && self.device_attachments is None
    }

    fn is_empty(&self) -> (r: bool) {
        self.device_key_info.is_none() && self.device_data.is_none()
            && self.device_components.is_none() && self.device_attachments.is_none()
    }
}

// Keys and lookups

/// The identifier a component operation is keyed by.
pub open spec fn spec_comp_key(a: DeviceComponentUpsert) -> Seq<char> {
    match a {
        DeviceComponentUpsert::NewExisting(n) => n.component_id@,
        DeviceComponentUpsert::Delete(id) => id@,
    }
}

/// The identifier an attachment operation is keyed by.
pub open spec fn spec_att_key(a: DeviceAttachmentUpsert) -> Seq<char> {
    match a {
        DeviceAttachmentUpsert::New(n) => n.attachment_id@,
        DeviceAttachmentUpsert::Existing(e) => e.attachment_id@,
        DeviceAttachmentUpsert::Delete(id) => id@,
    }
}

/// The first stored column value for `col`, if any.
pub open spec fn spec_find_data(rows: Seq<DeviceData>, col: i32) -> Option<DeviceData>
    decreases rows.len(),
{
    if rows.len() == 0 {
        None
    } else if rows[0].column_definition_id == col {
        Some(rows[0])
    } else {
        spec_find_data(rows.drop_first(), col)
    }
}

/// The first component with identifier `key`, if any.
pub open spec fn spec_find_comp(rows: Seq<DeviceComponent>, key: Seq<char>) -> Option<
    DeviceComponent,
>
    decreases rows.len(),
{
    if rows.len() == 0 {
        None
    } else if rows[0].component_id@ == key {
        Some(rows[0])
    } else {
        spec_find_comp(rows.drop_first(), key)
    }
}

/// The first attachment with identifier `key`, if any.
pub open spec fn spec_find_att(rows: Seq<DeviceAttachmentMetadata>, key: Seq<char>) -> Option<
    DeviceAttachmentMetadata,
>
    decreases rows.len(),
{
    if rows.len() == 0 {
        None
    } else if rows[0].attachment_id@ == key {
        Some(rows[0])
    } else {
        spec_find_att(rows.drop_first(), key)
    }
}

/// Whether a column identifier occurs in a submitted column list.
pub open spec fn col_in_news(after: Seq<DeviceDataNew>, col: i32) -> bool {
    exists|i: int| 0 <= i < after.len() && after[i].column_definition_id == col
}

/// Whether a component identifier occurs in a submitted operation list.
pub open spec fn comp_key_in_upserts(after: Seq<DeviceComponentUpsert>, key: Seq<char>) -> bool {
    exists|i: int| 0 <= i < after.len() && spec_comp_key(after[i]) == key
}

/// Whether an attachment identifier occurs in a submitted operation list.
pub open spec fn att_key_in_upserts(after: Seq<DeviceAttachmentUpsert>, key: Seq<char>) -> bool {
    exists|i: int| 0 <= i < after.len() && spec_att_key(after[i]) == key
}

// Uniqueness of identifiers within one list

pub open spec fn unique_data_cols(rows: Seq<DeviceData>) -> bool {
    forall|i: int, j: int|
        0 <= i < j < rows.len() ==> rows[i].column_definition_id != rows[j].column_definition_id
}

pub open spec fn unique_new_cols(rows: Seq<DeviceDataNew>) -> bool {
    forall|i: int, j: int|
        0 <= i < j < rows.len() ==> rows[i].column_definition_id != rows[j].column_definition_id
}

pub open spec fn unique_comp_ids(rows: Seq<DeviceComponent>) -> bool {
    forall|i: int, j: int| 0 <= i < j < rows.len() ==> rows[i].component_id@ != rows[j].component_id@
}

pub open spec fn unique_comp_upsert_keys(rows: Seq<DeviceComponentUpsert>) -> bool {
    forall|i: int, j: int| 0 <= i < j < rows.len() ==> spec_comp_key(rows[i]) != spec_comp_key(rows[j])
}

pub open spec fn unique_att_ids(rows: Seq<DeviceAttachmentMetadata>) -> bool {
    forall|i: int, j: int|
        0 <= i < j < rows.len() ==> rows[i].attachment_id@ != rows[j].attachment_id@
}

pub open spec fn unique_att_upsert_keys(rows: Seq<DeviceAttachmentUpsert>) -> bool {
    forall|i: int, j: int| 0 <= i < j < rows.len() ==> spec_att_key(rows[i]) != spec_att_key(rows[j])
}

// Spec twins of the per-category diffs

/// The key-information diff of an existing device at the given location: an
/// edit of the location, or nothing.
pub open spec fn spec_key_info_edit_loc(before_location_id: i32, after: DeviceKeyInfoNew) -> Option<
    DeviceKeyInfoDiff,
> {
    if before_location_id == after.location_id {
        None
    } else {
        Some(
            DeviceKeyInfoDiff::Edit(
                DeviceKeyInfoDiffData { location_id: Some(after.location_id) },
            ),
        )
    }
}

/// The key-information diff of an existing device: an edit of the location,
/// or nothing.
pub open spec fn spec_key_info_edit(before: DeviceInfo, after: DeviceKeyInfoNew) -> Option<
    DeviceKeyInfoDiff,
> {
    spec_key_info_edit_loc(before.location_id, after)
}

/// The key-information diff of a brand-new device.
pub open spec fn spec_key_info_add(after: DeviceKeyInfoNew) -> DeviceKeyInfoDiff {
    DeviceKeyInfoDiff::Add(DeviceKeyInfoDiffData { location_id: Some(after.location_id) })
}

/// The diff entry one submitted column value produces, if any.
pub open spec fn spec_col_entry(before: Seq<DeviceData>, a: DeviceDataNew) -> Option<
    DeviceDataColumnDiff,
> {
    match spec_find_data(before, a.column_definition_id) {
        Some(b) => {
            if b.data_value@ == a.data_value@ {
                None
            } else {
                Some(
                    DeviceDataColumnDiff {
                        column_definition_id: a.column_definition_id,
                        data_value: Some(a.data_value),
                    },
                )
            }
        },
        None => Some(
            DeviceDataColumnDiff {
                column_definition_id: a.column_definition_id,
                data_value: Some(a.data_value),
            },
        ),
    }
}

/// All column diff entries, in submission order. Columns present before but
/// absent from the submission are retained, not treated as deletions.
pub open spec fn spec_col_diffs(before: Seq<DeviceData>, after: Seq<DeviceDataNew>) -> Seq<
    DeviceDataColumnDiff,
>
    decreases after.len(),
{
    if after.len() == 0 {
        Seq::empty()
    } else {
        let rest = spec_col_diffs(before, after.drop_last());
        match spec_col_entry(before, after.last()) {
            Some(d) => rest.push(d),
            None => rest,
        }
    }
}

/// The diff entry one submitted component operation produces, if any.
///
/// A `Delete` of an identifier absent from `before` never reaches this diff:
/// the reconciliation rejects such a submission beforehand.
pub open spec fn spec_comp_entry(before: Seq<DeviceComponent>, a: DeviceComponentUpsert) -> Option<
    DeviceComponentsComponentDiff,
> {
    match spec_find_comp(before, spec_comp_key(a)) {
        Some(b) => match a {
            DeviceComponentUpsert::NewExisting(n) => {
                if b.component_type@ == n.component_type@ {
                    None
                } else {
                    Some(
                        DeviceComponentsComponentDiff::Edit(
                            DeviceComponentsComponentDiffData {
                                component_id: n.component_id,
                                component_type: Some(n.component_type),
                            },
                        ),
                    )
                }
            },
            DeviceComponentUpsert::Delete(id) => Some(
                DeviceComponentsComponentDiff::Delete { component_id: id },
            ),
        },
        None => match a {
            DeviceComponentUpsert::NewExisting(n) => Some(
                DeviceComponentsComponentDiff::Add(
                    DeviceComponentsComponentDiffData {
                        component_id: n.component_id,
                        component_type: Some(n.component_type),
                    },
                ),
            ),
            DeviceComponentUpsert::Delete(id) => Some(
                DeviceComponentsComponentDiff::Delete { component_id: id },
            ),
        },
    }
}

/// The component diff entries produced by the submitted operations,
/// in submission order.
pub open spec fn spec_comp_after_diffs(
    before: Seq<DeviceComponent>,
    after: Seq<DeviceComponentUpsert>,
) -> Seq<DeviceComponentsComponentDiff>
    decreases after.len(),
{
    if after.len() == 0 {
        Seq::empty()
    } else {
        let rest = spec_comp_after_diffs(before, after.drop_last());
        match spec_comp_entry(before, after.last()) {
            Some(d) => rest.push(d),
            None => rest,
        }
    }
}

/// Delete entries for components present before but absent from the
/// submission, in before order.
pub open spec fn spec_comp_removed_diffs(
    before: Seq<DeviceComponent>,
    after: Seq<DeviceComponentUpsert>,
) -> Seq<DeviceComponentsComponentDiff>
    decreases before.len(),
{
    if before.len() == 0 {
        Seq::empty()
    } else {
        let rest = spec_comp_removed_diffs(before.drop_last(), after);
        if comp_key_in_upserts(after, before.last().component_id@) {
            rest
        } else {
            rest.push(
                DeviceComponentsComponentDiff::Delete {
                    component_id: before.last().component_id,
                },
            )
        }
    }
}

/// All component diff entries: submitted operations first, then deletions of
/// components left out of the submission.
pub open spec fn spec_comp_diffs(
    before: Seq<DeviceComponent>,
    after: Seq<DeviceComponentUpsert>,
) -> Seq<DeviceComponentsComponentDiff> {
    spec_comp_after_diffs(before, after) + spec_comp_removed_diffs(before, after)
}

/// The diff entry one matched attachment operation produces, if any.
pub open spec fn spec_att_pair_entry(
    b: DeviceAttachmentMetadata,
    a: DeviceAttachmentUpsert,
) -> Option<DeviceAttachmentsAttachmentDiff> {
    match a {
        DeviceAttachmentUpsert::New(n) => {
            let description = if b.description@ == n.description@ {
                None
            } else {
                Some(n.description)
            };
            let file_name = if b.file_name@ == n.file_name@ {
                None
            } else {
                Some(n.file_name)
            };
            if description is None && file_name is None {
                None
            } else {
                Some(
                    DeviceAttachmentsAttachmentDiff::Edit(
                        DeviceAttachmentsAttachmentDiffData {
                            attachment_id: n.attachment_id,
                            description,
                            file_name,
                        },
                    ),
                )
            }
        },
        DeviceAttachmentUpsert::Existing(e) => {
            if b.description@ == e.description@ {
                None
            } else {
                Some(
                    DeviceAttachmentsAttachmentDiff::Edit(
                        DeviceAttachmentsAttachmentDiffData {
                            attachment_id: e.attachment_id,
                            description: Some(e.description),
                            file_name: None,
                        },
                    ),
                )
            }
        },
        DeviceAttachmentUpsert::Delete(id) => Some(
            DeviceAttachmentsAttachmentDiff::Delete { attachment_id: id },
        ),
    }
}

/// The diff entry one unmatched attachment operation produces.
///
/// Only `New` operations are ever unmatched in a valid submission: the
/// reconciliation rejects `Existing` and `Delete` operations whose identifier
/// is absent from the before-snapshot.
pub open spec fn spec_att_new_entry(a: DeviceAttachmentUpsert) -> Option<
    DeviceAttachmentsAttachmentDiff,
> {
    match a {
        DeviceAttachmentUpsert::New(n) => Some(
            DeviceAttachmentsAttachmentDiff::Add(
                DeviceAttachmentsAttachmentDiffData {
                    attachment_id: n.attachment_id,
                    description: Some(n.description),
                    file_name: Some(n.file_name),
                },
            ),
        ),
        DeviceAttachmentUpsert::Existing(e) => Some(
            DeviceAttachmentsAttachmentDiff::Add(
                DeviceAttachmentsAttachmentDiffData {
                    attachment_id: e.attachment_id,
                    description: Some(e.description),
                    file_name: None,
                },
            ),
        ),
        DeviceAttachmentUpsert::Delete(id) => Some(
            DeviceAttachmentsAttachmentDiff::Delete { attachment_id: id },
        ),
    }
}

/// The diff entry one submitted attachment operation produces, if any.
pub open spec fn spec_att_entry(
    before: Seq<DeviceAttachmentMetadata>,
    a: DeviceAttachmentUpsert,
) -> Option<DeviceAttachmentsAttachmentDiff> {
    match spec_find_att(before, spec_att_key(a)) {
        Some(b) => spec_att_pair_entry(b, a),
        None => spec_att_new_entry(a),
    }
}

/// The attachment diff entries produced by the submitted operations,
/// in submission order.
pub open spec fn spec_att_after_diffs(
    before: Seq<DeviceAttachmentMetadata>,
    after: Seq<DeviceAttachmentUpsert>,
) -> Seq<DeviceAttachmentsAttachmentDiff>
    decreases after.len(),
{
    if after.len() == 0 {
        Seq::empty()
    } else {
        let rest = spec_att_after_diffs(before, after.drop_last());
        match spec_att_entry(before, after.last()) {
            Some(d) => rest.push(d),
            None => rest,
        }
    }
}

/// Delete entries for attachments present before but absent from the
/// submission, in before order.
pub open spec fn spec_att_removed_diffs(
    before: Seq<DeviceAttachmentMetadata>,
    after: Seq<DeviceAttachmentUpsert>,
) -> Seq<DeviceAttachmentsAttachmentDiff>
    decreases before.len(),
{
    if before.len() == 0 {
        Seq::empty()
    } else {
        let rest = spec_att_removed_diffs(before.drop_last(), after);
        if att_key_in_upserts(after, before.last().attachment_id@) {
            rest
        } else {
            rest.push(
                DeviceAttachmentsAttachmentDiff::Delete {
                    attachment_id: before.last().attachment_id,
                },
            )
        }
    }
}

/// All attachment diff entries: submitted operations first, then deletions of
/// attachments left out of the submission.
pub open spec fn spec_att_diffs(
    before: Seq<DeviceAttachmentMetadata>,
    after: Seq<DeviceAttachmentUpsert>,
) -> Seq<DeviceAttachmentsAttachmentDiff> {
    spec_att_after_diffs(before, after) + spec_att_removed_diffs(before, after)
}

// Spec twin of the whole diff

/// Whether a snapshot and a normalized after-state differ nowhere, that is,
/// whether the whole operation is a no-op.
pub open spec fn spec_no_change(before: Snapshot, after: AfterState) -> bool {
    &&& spec_key_info_edit(before.key_info, after.key_info) is None
    &&& spec_col_diffs(before.data@, after.data@).len() == 0
    &&& spec_comp_diffs(before.components@, after.components@).len() == 0
    &&& spec_att_diffs(before.attachments@, after.attachments@).len() == 0
}

/// Well-keyed inputs for an existing device: identifiers are unique within
/// each list, and operations on existing entities resolve in the snapshot.
pub open spec fn diff_inputs_well_keyed(before: Snapshot, after: AfterState) -> bool {
    &&& unique_data_cols(before.data@)
    &&& unique_comp_ids(before.components@)
    &&& unique_att_ids(before.attachments@)
    &&& unique_new_cols(after.data@)
    &&& unique_comp_upsert_keys(after.components@)
    &&& unique_att_upsert_keys(after.attachments@)
    &&& forall|i: int|
        0 <= i < after.components@.len() && after.components@[i] is Delete
            ==> spec_find_comp(before.components@, spec_comp_key(#[trigger] after.components@[i]))
            is Some
    &&& forall|i: int|
        0 <= i < after.attachments@.len() && !(after.attachments@[i] is New)
            ==> spec_find_att(before.attachments@, spec_att_key(#[trigger] after.attachments@[i]))
            is Some
}

/// Well-keyed inputs for a brand-new device: identifiers are unique and no
/// operation refers to an existing entity.
pub open spec fn new_inputs_well_keyed(after: AfterState) -> bool {
    &&& unique_new_cols(after.data@)
    &&& unique_comp_upsert_keys(after.components@)
    &&& unique_att_upsert_keys(after.attachments@)
    &&& forall|i: int| 0 <= i < after.components@.len() ==> !(#[trigger] after.components@[i] is Delete)
    &&& forall|i: int| 0 <= i < after.attachments@.len() ==> #[trigger] after.attachments@[i] is New
}

// Executable lookups

/// Finds the index of the stored column value for `col`, if any.
pub fn find_data_index(rows: &Vec<DeviceData>, col: i32) -> (r: Option<usize>)
    ensures
        match r {
            Some(idx) => idx < rows@.len() && spec_find_data(rows@, col) == Some(rows@[idx as int]),
            None => spec_find_data(rows@, col) is None,
        },
{
    let mut i: usize = 0;
    while i < rows.len()
        invariant
            i <= rows@.len(),
            forall|j: int| 0 <= j < i ==> rows@[j].column_definition_id != col,
        decreases rows@.len() - i,
    {
        if rows[i].column_definition_id == col {
            proof {
                lemma_find_data_skip(rows@, col, i as int);
                assert(rows@.skip(i as int)[0] == rows@[i as int]);
            }
            return Some(i);
        }
        i += 1;
    }
    proof {
        lemma_find_data_skip(rows@, col, rows@.len() as int);
    }
    None
}

proof fn lemma_find_data_skip(rows: Seq<DeviceData>, col: i32, i: int)
    requires
        0 <= i <= rows.len(),
        forall|j: int| 0 <= j < i ==> rows[j].column_definition_id != col,
    ensures
        spec_find_data(rows, col) == spec_find_data(rows.skip(i), col),
    decreases i,
{
    if i > 0 {
        lemma_find_data_skip(rows, col, i - 1);
        assert(rows.skip(i - 1).drop_first() =~= rows.skip(i));
        assert(rows.skip(i - 1)[0] == rows[i - 1]);
    } else {
        assert(rows.skip(0) =~= rows);
    }
}

/// Finds the index of the component with identifier `key`, if any.
pub fn find_comp_index(rows: &Vec<DeviceComponent>, key: &String) -> (r: Option<usize>)
    ensures
        match r {
            Some(idx) => idx < rows@.len() && spec_find_comp(rows@, key@) == Some(
                rows@[idx as int],
            ),
            None => spec_find_comp(rows@, key@) is None,
        },
{
    let mut i: usize = 0;
    while i < rows.len()
        invariant
            i <= rows@.len(),
            forall|j: int| 0 <= j < i ==> rows@[j].component_id@ != key@,
        decreases rows@.len() - i,
    {
        if rows[i].component_id.eq(key) {
            proof {
                lemma_find_comp_skip(rows@, key@, i as int);
                assert(rows@.skip(i as int)[0] == rows@[i as int]);
            }
            return Some(i);
        }
        i += 1;
    }
    proof {
        lemma_find_comp_skip(rows@, key@, rows@.len() as int);
    }
    None
}

proof fn lemma_find_comp_skip(rows: Seq<DeviceComponent>, key: Seq<char>, i: int)
    requires
        0 <= i <= rows.len(),
        forall|j: int| 0 <= j < i ==> rows[j].component_id@ != key,
    ensures
        spec_find_comp(rows, key) == spec_find_comp(rows.skip(i), key),
    decreases i,
{
    if i > 0 {
        lemma_find_comp_skip(rows, key, i - 1);
        assert(rows.skip(i - 1).drop_first() =~= rows.skip(i));
        assert(rows.skip(i - 1)[0] == rows[i - 1]);
    } else {
        assert(rows.skip(0) =~= rows);
    }
}

/// Finds the index of the attachment with identifier `key`, if any.
pub fn find_att_index(rows: &Vec<DeviceAttachmentMetadata>, key: &String) -> (r: Option<usize>)
    ensures
        match r {
            Some(idx) => idx < rows@.len() && spec_find_att(rows@, key@) == Some(rows@[idx as int]),
            None => spec_find_att(rows@, key@) is None,
        },
{
    let mut i: usize = 0;
    while i < rows.len()
        invariant
            i <= rows@.len(),
            forall|j: int| 0 <= j < i ==> rows@[j].attachment_id@ != key@,
        decreases rows@.len() - i,
    {
        if rows[i].attachment_id.eq(key) {
            proof {
                lemma_find_att_skip(rows@, key@, i as int);
                assert(rows@.skip(i as int)[0] == rows@[i as int]);
            }
            return Some(i);
        }
        i += 1;
    }
    proof {
        lemma_find_att_skip(rows@, key@, rows@.len() as int);
    }
    None
}

proof fn lemma_find_att_skip(rows: Seq<DeviceAttachmentMetadata>, key: Seq<char>, i: int)
    requires
        0 <= i <= rows.len(),
        forall|j: int| 0 <= j < i ==> rows[j].attachment_id@ != key,
    ensures
        spec_find_att(rows, key) == spec_find_att(rows.skip(i), key),
    decreases i,
{
    if i > 0 {
        lemma_find_att_skip(rows, key, i - 1);
        assert(rows.skip(i - 1).drop_first() =~= rows.skip(i));
        assert(rows.skip(i - 1)[0] == rows[i - 1]);
    } else {
        assert(rows.skip(0) =~= rows);
    }
}

/// The identifier a submitted component operation is keyed by.
pub fn comp_key_of(a: &DeviceComponentUpsert) -> (r: &String)
    ensures
        r@ == spec_comp_key(*a),
{
    match a {
        DeviceComponentUpsert::NewExisting(n) => &n.component_id,
        DeviceComponentUpsert::Delete(id) => id,
    }
}

/// The identifier a submitted attachment operation is keyed by.
pub fn att_key_of(a: &DeviceAttachmentUpsert) -> (r: &String)
    ensures
        r@ == spec_att_key(*a),
{
    match a {
        DeviceAttachmentUpsert::New(n) => &n.attachment_id,
        DeviceAttachmentUpsert::Existing(e) => &e.attachment_id,
        DeviceAttachmentUpsert::Delete(id) => id,
    }
}

/// Whether a component identifier occurs among the submitted operations.
pub fn comp_key_present(after: &Vec<DeviceComponentUpsert>, key: &String) -> (r: bool)
    ensures
        r == comp_key_in_upserts(after@, key@),
{
    let mut i: usize = 0;
    while i < after.len()
        invariant
            i <= after@.len(),
            forall|j: int| 0 <= j < i ==> spec_comp_key(after@[j]) != key@,
        decreases after@.len() - i,
    {
        if comp_key_of(&after[i]).eq(key) {
            assert(spec_comp_key(after@[i as int]) == key@);
            return true;
        }
        i += 1;
    }
    false
}

/// Whether an attachment identifier occurs among the submitted operations.
pub fn att_key_present(after: &Vec<DeviceAttachmentUpsert>, key: &String) -> (r: bool)
    ensures
        r == att_key_in_upserts(after@, key@),
{
    let mut i: usize = 0;
    while i < after.len()
        invariant
            i <= after@.len(),
            forall|j: int| 0 <= j < i ==> spec_att_key(after@[j]) != key@,
        decreases after@.len() - i,
    {
        if att_key_of(&after[i]).eq(key) {
            assert(spec_att_key(after@[i as int]) == key@);
            return true;
        }
        i += 1;
    }
    false
}

// Executable per-category diffs

impl DeviceKeyInfoDiff {
    /// Compares the key information of an existing device with a submission.
    pub fn calculate_diff(before: &DeviceInfo, after: &DeviceKeyInfoNew) -> (r: Option<Self>)
        ensures
            r == spec_key_info_edit(*before, *after),
    {
        if before.location_id == after.location_id {
            None
        } else {
            Some(
                DeviceKeyInfoDiff::Edit(
                    DeviceKeyInfoDiffData { location_id: Some(after.location_id) },
                ),
            )
        }
    }

    /// The key-information diff of a brand-new device.
    pub fn new_device(after: &DeviceKeyInfoNew) -> (r: Self)
        ensures
            r == spec_key_info_add(*after),
    {
        DeviceKeyInfoDiff::Add(DeviceKeyInfoDiffData { location_id: Some(after.location_id) })
    }
}

impl DeviceDataDiff {
    /// Compares the stored column values with the submitted ones, keyed by
    /// column identifier.
    pub fn calculate_diff(before: &Vec<DeviceData>, after: &Vec<DeviceDataNew>) -> (r: Option<
        Self,
    >)
        requires
            unique_data_cols(before@),
            unique_new_cols(after@),
        ensures
            match r {
                Some(d) => d.0@ == spec_col_diffs(before@, after@) && d.0@.len() > 0,
                None => spec_col_diffs(before@, after@).len() == 0,
            },
    {
        let mut out: Vec<DeviceDataColumnDiff> = Vec::new();
        let mut i: usize = 0;
        while i < after.len()
            invariant
                i <= after@.len(),
                out@ == spec_col_diffs(before@, after@.take(i as int)),
            decreases after@.len() - i,
        {
            let a = &after[i];
            let changed = match find_data_index(before, a.column_definition_id) {
                Some(idx) => !before[idx].data_value.eq(&a.data_value),
                None => true,
            };
            if changed {
                out.push(
                    DeviceDataColumnDiff {
                        column_definition_id: a.column_definition_id,
                        data_value: Some(a.data_value.clone()),
                    },
                );
            }
            proof {
                assert(after@.take(i + 1).drop_last() =~= after@.take(i as int));
                assert(after@.take(i + 1).last() == after@[i as int]);
            }
            i += 1;
        }
        proof {
            assert(after@.take(after@.len() as int) =~= after@);
        }
        if out.len() == 0 {
            None
        } else {
            Some(DeviceDataDiff(out))
        }
    }
}

impl DeviceComponentsDiff {
    /// Compares the stored components with the submitted operations, keyed by
    /// component identifier.
    pub fn calculate_diff(
        before: &Vec<DeviceComponent>,
        after: &Vec<DeviceComponentUpsert>,
    ) -> (r: Option<Self>)
        requires
            unique_comp_ids(before@),
            unique_comp_upsert_keys(after@),
        ensures
            match r {
                Some(d) => d.0@ == spec_comp_diffs(before@, after@) && d.0@.len() > 0,
                None => spec_comp_diffs(before@, after@).len() == 0,
            },
    {
        let mut out: Vec<DeviceComponentsComponentDiff> = Vec::new();
        let mut i: usize = 0;
        while i < after.len()
            invariant
                i <= after@.len(),
                out@ == spec_comp_after_diffs(before@, after@.take(i as int)),
            decreases after@.len() - i,
        {
            let a = &after[i];
            let key = comp_key_of(a).clone();
            let entry = match find_comp_index(before, &key) {
                Some(idx) => {
                    match a {
                        DeviceComponentUpsert::NewExisting(n) => {
                            if before[idx].component_type.eq(&n.component_type) {
                                None
                            } else {
                                Some(
                                    DeviceComponentsComponentDiff::Edit(
                                        DeviceComponentsComponentDiffData {
                                            component_id: n.component_id.clone(),
                                            component_type: Some(n.component_type.clone()),
                                        },
                                    ),
                                )
                            }
                        },
                        DeviceComponentUpsert::Delete(id) => Some(
                            DeviceComponentsComponentDiff::Delete { component_id: id.clone() },
                        ),
                    }
                },
                None => {
                    match a {
                        DeviceComponentUpsert::NewExisting(n) => Some(
                            DeviceComponentsComponentDiff::Add(
                                DeviceComponentsComponentDiffData {
                                    component_id: n.component_id.clone(),
                                    component_type: Some(n.component_type.clone()),
                                },
                            ),
                        ),
                        DeviceComponentUpsert::Delete(id) => Some(
                            DeviceComponentsComponentDiff::Delete { component_id: id.clone() },
                        ),
                    }
                },
            };
            if let Some(d) = entry {
                out.push(d);
            }
            proof {
                assert(after@.take(i + 1).drop_last() =~= after@.take(i as int));
                assert(after@.take(i + 1).last() == after@[i as int]);
            }
            i += 1;
        }
        proof {
            assert(after@.take(after@.len() as int) =~= after@);
        }
        let ghost after_part = out@;
        let mut j: usize = 0;
        while j < before.len()
            invariant
                j <= before@.len(),
                out@ == after_part + spec_comp_removed_diffs(before@.take(j as int), after@),
            decreases before@.len() - j,
        {
            let b = &before[j];
            if !comp_key_present(after, &b.component_id) {
                out.push(
                    DeviceComponentsComponentDiff::Delete { component_id: b.component_id.clone() },
                );
            }
            proof {
                assert(before@.take(j + 1).drop_last() =~= before@.take(j as int));
                assert(before@.take(j + 1).last() == before@[j as int]);
            }
            j += 1;
        }
        proof {
            assert(before@.take(before@.len() as int) =~= before@);
        }
        if out.len() == 0 {
            None
        } else {
            Some(DeviceComponentsDiff(out))
        }
    }
}

impl DeviceAttachmentsDiff {
    /// Compares the stored attachments with the submitted operations, keyed
    /// by attachment identifier.
    pub fn calculate_diff(
        before: &Vec<DeviceAttachmentMetadata>,
        after: &Vec<DeviceAttachmentUpsert>,
    ) -> (r: Option<Self>)
        requires
            unique_att_ids(before@),
            unique_att_upsert_keys(after@),
        ensures
            match r {
                Some(d) => d.0@ == spec_att_diffs(before@, after@) && d.0@.len() > 0,
                None => spec_att_diffs(before@, after@).len() == 0,
            },
    {
        let mut out: Vec<DeviceAttachmentsAttachmentDiff> = Vec::new();
        let mut i: usize = 0;
        while i < after.len()
            invariant
                i <= after@.len(),
                out@ == spec_att_after_diffs(before@, after@.take(i as int)),
            decreases after@.len() - i,
        {
            let a = &after[i];
            let key = att_key_of(a).clone();
            let entry = match find_att_index(before, &key) {
                Some(idx) => Self::pair_entry(&before[idx], a),
                None => Self::new_entry(a),
            };
            if let Some(d) = entry {
                out.push(d);
            }
            proof {
                assert(after@.take(i + 1).drop_last() =~= after@.take(i as int));
                assert(after@.take(i + 1).last() == after@[i as int]);
            }
            i += 1;
        }
        proof {
            assert(after@.take(after@.len() as int) =~= after@);
        }
        let ghost after_part = out@;
        let mut j: usize = 0;
        while j < before.len()
            invariant
                j <= before@.len(),
                out@ == after_part + spec_att_removed_diffs(before@.take(j as int), after@),
            decreases before@.len() - j,
        {
            let b = &before[j];
            if !att_key_present(after, &b.attachment_id) {
                out.push(
                    DeviceAttachmentsAttachmentDiff::Delete {
                        attachment_id: b.attachment_id.clone(),
                    },
                );
            }
            proof {
                assert(before@.take(j + 1).drop_last() =~= before@.take(j as int));
                assert(before@.take(j + 1).last() == before@[j as int]);
            }
            j += 1;
        }
        proof {
            assert(before@.take(before@.len() as int) =~= before@);
        }
        if out.len() == 0 {
            None
        } else {
            Some(DeviceAttachmentsDiff(out))
        }
    }

    /// The diff entry for an attachment operation matched in the snapshot.
    fn pair_entry(b: &DeviceAttachmentMetadata, a: &DeviceAttachmentUpsert) -> (r: Option<
        DeviceAttachmentsAttachmentDiff,
    >)
        ensures
            r == spec_att_pair_entry(*b, *a),
    {
        match a {
            DeviceAttachmentUpsert::New(n) => {
                let description = if b.description.eq(&n.description) {
                    None
                } else {
                    Some(n.description.clone())
                };
                let file_name = if b.file_name.eq(&n.file_name) {
                    None
                } else {
                    Some(n.file_name.clone())
                };
                if description.is_none() && file_name.is_none() {
                    None
                } else {
                    Some(
                        DeviceAttachmentsAttachmentDiff::Edit(
                            DeviceAttachmentsAttachmentDiffData {
                                attachment_id: n.attachment_id.clone(),
                                description,
                                file_name,
                            },
                        ),
                    )
                }
            },
            DeviceAttachmentUpsert::Existing(e) => {
                if b.description.eq(&e.description) {
                    None
                } else {
                    Some(
                        DeviceAttachmentsAttachmentDiff::Edit(
                            DeviceAttachmentsAttachmentDiffData {
                                attachment_id: e.attachment_id.clone(),
                                description: Some(e.description.clone()),
                                file_name: None,
                            },
                        ),
                    )
                }
            },
            DeviceAttachmentUpsert::Delete(id) => Some(
                DeviceAttachmentsAttachmentDiff::Delete { attachment_id: id.clone() },
            ),
        }
    }

    /// The diff entry for an attachment operation unmatched in the snapshot.
    fn new_entry(a: &DeviceAttachmentUpsert) -> (r: Option<DeviceAttachmentsAttachmentDiff>)
        ensures
            r == spec_att_new_entry(*a),
    {
        match a {
            DeviceAttachmentUpsert::New(n) => Some(
                DeviceAttachmentsAttachmentDiff::Add(
                    DeviceAttachmentsAttachmentDiffData {
                        attachment_id: n.attachment_id.clone(),
                        description: Some(n.description.clone()),
                        file_name: Some(n.file_name.clone()),
                    },
                ),
            ),
            DeviceAttachmentUpsert::Existing(e) => Some(
                DeviceAttachmentsAttachmentDiff::Add(
                    DeviceAttachmentsAttachmentDiffData {
                        attachment_id: e.attachment_id.clone(),
                        description: Some(e.description.clone()),
                        file_name: None,
                    },
                ),
            ),
            DeviceAttachmentUpsert::Delete(id) => Some(
                DeviceAttachmentsAttachmentDiff::Delete { attachment_id: id.clone() },
            ),
        }
    }
}

impl DeviceDiff {
    /// Compares the full snapshot of an existing device with a normalized
    /// submission; `None` means the whole operation is a no-op.
    pub fn calculate_diff(before: &Snapshot, after: &AfterState) -> (r: Option<Self>)
        requires
            diff_inputs_well_keyed(*before, *after),
        ensures
            r is None <==> spec_no_change(*before, *after),
            r matches Some(d) ==> {
                &&& d.device_key_info == spec_key_info_edit(before.key_info, after.key_info)
                &&& (match d.device_data {
                    Some(dd) => dd.0@ == spec_col_diffs(before.data@, after.data@)
                        && dd.0@.len() > 0,
                    None => spec_col_diffs(before.data@, after.data@).len() == 0,
                })
                &&& (match d.device_components {
                    Some(dc) => dc.0@ == spec_comp_diffs(before.components@, after.components@)
                        && dc.0@.len() > 0,
                    None => spec_comp_diffs(before.components@, after.components@).len() == 0,
                })
                &&& (match d.device_attachments {
                    Some(da) => da.0@ == spec_att_diffs(before.attachments@, after.attachments@)
                        && da.0@.len() > 0,
                    None => spec_att_diffs(before.attachments@, after.attachments@).len() == 0,
                })
            },
    {
        let diff = DeviceDiff {
            device_key_info: DeviceKeyInfoDiff::calculate_diff(&before.key_info, &after.key_info),
            device_data: DeviceDataDiff::calculate_diff(&before.data, &after.data),
            device_components: DeviceComponentsDiff::calculate_diff(
                &before.components,
                &after.components,
            ),
            device_attachments: DeviceAttachmentsDiff::calculate_diff(
                &before.attachments,
                &after.attachments,
            ),
        };
        none_if_empty(diff)
    }

    /// The diff recorded for a brand-new device: every populated category
    /// appears as an addition. Never empty, since the key information is
    /// always populated.
    pub fn new_device(after: &AfterState) -> (r: Self)
        requires
            new_inputs_well_keyed(*after),
        ensures
            r.device_key_info == Some(spec_key_info_add(after.key_info)),
            (match r.device_data {
                Some(dd) => dd.0@ == spec_col_diffs(Seq::empty(), after.data@) && dd.0@.len() > 0,
                None => spec_col_diffs(Seq::empty(), after.data@).len() == 0,
            }),
            (match r.device_components {
                Some(dc) => dc.0@ == spec_comp_diffs(Seq::empty(), after.components@)
                    && dc.0@.len() > 0,
                None => spec_comp_diffs(Seq::empty(), after.components@).len() == 0,
            }),
            (match r.device_attachments {
                Some(da) => da.0@ == spec_att_diffs(Seq::empty(), after.attachments@)
                    && da.0@.len() > 0,
                None => spec_att_diffs(Seq::empty(), after.attachments@).len() == 0,
            }),
            !r.spec_is_empty(),
    {
        let empty_data: Vec<DeviceData> = Vec::new();
        let empty_comps: Vec<DeviceComponent> = Vec::new();
        let empty_atts: Vec<DeviceAttachmentMetadata> = Vec::new();
        DeviceDiff {
            device_key_info: Some(DeviceKeyInfoDiff::new_device(&after.key_info)),
            device_data: DeviceDataDiff::calculate_diff(&empty_data, &after.data),
            device_components: DeviceComponentsDiff::calculate_diff(
                &empty_comps,
                &after.components,
            ),
            device_attachments: DeviceAttachmentsDiff::calculate_diff(
                &empty_atts,
                &after.attachments,
            ),
        }
    }
}

/// Whether `d` is exactly the diff of the given before-state — location,
/// column values, live components and live attachments — against a normalized
/// submission: each section equals its spec twin, with empty sections
/// omitted.
pub open spec fn diff_reflects_parts(
    d: DeviceDiff,
    before_location_id: i32,
    before_data: Seq<DeviceData>,
    before_comps: Seq<DeviceComponent>,
    before_atts: Seq<DeviceAttachmentMetadata>,
    after: AfterState,
) -> bool {
    &&& d.device_key_info == spec_key_info_edit_loc(before_location_id, after.key_info)
    &&& (match d.device_data {
        Some(dd) => dd.0@ == spec_col_diffs(before_data, after.data@) && dd.0@.len() > 0,
        None => spec_col_diffs(before_data, after.data@).len() == 0,
    })
    &&& (match d.device_components {
        Some(dc) => dc.0@ == spec_comp_diffs(before_comps, after.components@) && dc.0@.len() > 0,
        None => spec_comp_diffs(before_comps, after.components@).len() == 0,
    })
    &&& (match d.device_attachments {
        Some(da) => da.0@ == spec_att_diffs(before_atts, after.attachments@) && da.0@.len() > 0,
        None => spec_att_diffs(before_atts, after.attachments@).len() == 0,
    })
}

/// Whether `d` is exactly the diff of an existing device's snapshot against a
/// normalized submission.
pub open spec fn diff_reflects(d: DeviceDiff, before: Snapshot, after: AfterState) -> bool {
    diff_reflects_parts(
        d,
        before.key_info.location_id,
        before.data@,
        before.components@,
        before.attachments@,
        after,
    )
}

/// Whether `d` is exactly the diff recorded for a brand-new device: every
/// populated category appears as additions.
pub open spec fn diff_reflects_new(d: DeviceDiff, after: AfterState) -> bool {
    &&& d.device_key_info == Some(spec_key_info_add(after.key_info))
    &&& (match d.device_data {
        Some(dd) => dd.0@ == spec_col_diffs(Seq::empty(), after.data@) && dd.0@.len() > 0,
        None => spec_col_diffs(Seq::empty(), after.data@).len() == 0,
    })
    &&& (match d.device_components {
        Some(dc) => dc.0@ == spec_comp_diffs(Seq::empty(), after.components@) && dc.0@.len() > 0,
        None => spec_comp_diffs(Seq::empty(), after.components@).len() == 0,
    })
    &&& (match d.device_attachments {
        Some(da) => da.0@ == spec_att_diffs(Seq::empty(), after.attachments@) && da.0@.len() > 0,
        None => spec_att_diffs(Seq::empty(), after.attachments@).len() == 0,
    })
}

/// Computes the structured diff between a device's previous state and a
/// normalized submission.
///
/// `None` as the before-state means the device is brand new: the result is
/// then always `Some`, with every populated category recorded as an addition.
/// For an existing device the result is `None` exactly when nothing changed.
pub fn compute_diff(before: Option<&Snapshot>, after: &AfterState) -> (r: Option<DeviceDiff>)
    requires
        before matches Some(b) ==> diff_inputs_well_keyed(*b, *after),
        before is None ==> new_inputs_well_keyed(*after),
    ensures
        match before {
            Some(b) => {
                &&& (r is None <==> spec_no_change(*b, *after))
                &&& r matches Some(d) ==> {
                    &&& d.device_key_info == spec_key_info_edit(b.key_info, after.key_info)
                    &&& (match d.device_data {
                        Some(dd) => dd.0@ == spec_col_diffs(b.data@, after.data@)
                            && dd.0@.len() > 0,
                        None => spec_col_diffs(b.data@, after.data@).len() == 0,
                    })
                    &&& (match d.device_components {
                        Some(dc) => dc.0@ == spec_comp_diffs(b.components@, after.components@)
                            && dc.0@.len() > 0,
                        None => spec_comp_diffs(b.components@, after.components@).len() == 0,
                    })
                    &&& (match d.device_attachments {
                        Some(da) => da.0@ == spec_att_diffs(b.attachments@, after.attachments@)
                            && da.0@.len() > 0,
                        None => spec_att_diffs(b.attachments@, after.attachments@).len() == 0,
                    })
                }
            },
            None => r matches Some(d) ==> {
                &&& d.device_key_info == Some(spec_key_info_add(after.key_info))
                &&& (match d.device_data {
                    Some(dd) => dd.0@ == spec_col_diffs(Seq::empty(), after.data@)
                        && dd.0@.len() > 0,
                    None => spec_col_diffs(Seq::empty(), after.data@).len() == 0,
                })
                &&& (match d.device_components {
                    Some(dc) => dc.0@ == spec_comp_diffs(Seq::empty(), after.components@)
                        && dc.0@.len() > 0,
                    None => spec_comp_diffs(Seq::empty(), after.components@).len() == 0,
                })
                &&& (match d.device_attachments {
                    Some(da) => da.0@ == spec_att_diffs(Seq::empty(), after.attachments@)
                        && da.0@.len() > 0,
                    None => spec_att_diffs(Seq::empty(), after.attachments@).len() == 0,
                })
            },
        },
        before is None ==> r is Some,
{
    match before {
        Some(b) => DeviceDiff::calculate_diff(b, after),
        None => Some(DeviceDiff::new_device(after)),
    }
}

} // verus!

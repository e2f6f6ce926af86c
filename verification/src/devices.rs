//! The reconciliation orchestrator: validates a submission against the
//! store, normalizes it into canonical after-state records, writes every
//! category through the store's upsert operations, computes the diff and
//! appends the audit row — all of it behaving transactionally: any failure
//! leaves the store exactly as it was.

use vstd::prelude::*;

use crate::diff::{
    att_key_in_upserts, comp_key_in_upserts, att_key_present, comp_key_present, find_att_index,
    find_comp_index, spec_find_att, spec_find_comp,
};
use crate::error::{Error, InternalError, UserError};
use crate::id_gen::{all_digits, gen_new_id};
use crate::models::{
    CheckoutInfo, DeviceAttachmentExisting, DeviceAttachmentNew, DeviceAttachmentUpsert,
    DeviceComponentNew, DeviceComponentUpsert, DeviceDataNew,
};
use crate::diff::{
    compute_diff, diff_inputs_well_keyed, diff_reflects, diff_reflects_new, diff_reflects_parts,
    new_inputs_well_keyed,
    spec_att_diffs, spec_att_key, spec_col_diffs, spec_comp_diffs, spec_comp_key,
    spec_key_info_edit, spec_no_change, unique_att_upsert_keys, unique_comp_upsert_keys,
    unique_new_cols, AfterState, DeviceDiff, Snapshot,
};
use crate::diff::{DeviceKeyInfoDiff, DeviceKeyInfoDiffData};
use crate::json::{diff_to_json, spec_device_diff_json};
use crate::models::{DeviceChangeNew, DeviceKeyInfo};
use crate::store::{
    lemma_attachment_index, lemma_attachment_index_push, lemma_attachment_index_same_keys,
    lemma_component_index_push, lemma_component_index_same_keys, lemma_data_index_push,
    lemma_data_index_same_keys, spec_location_index,
};
use crate::diff::col_in_news;
use crate::snapshot::{spec_data_of, spec_live_attachments_of, spec_live_components_of};
use crate::models::DeviceKeyInfoNew;
use crate::text::{default_file_name, spec_trimmed, trim_ascii};
use crate::store::{spec_attachment_index, spec_component_index, spec_data_index, spec_device_index, Store};
use crate::models::{
    DeviceAttachmentMetadata, DeviceComponent, SubmittedColumnData, UpdatedDeviceAttachment,
    UpdatedDeviceComponent, UpdatedDeviceInfo,
};
use crate::trusted::b64_decoding;
use crate::trusted::{base64_decode, current_timestamp_millis};

verus! {

/// Why a submission is rejected before anything is written.
#[derive(Debug, Clone, Copy, PartialEq, Eq, Structural)]
pub enum UpsertRejection {
    /// The referenced location does not exist.
    LocationMissing,
    /// An identifier was supplied but no such device exists.
    DeviceMissing,
    /// The device is soft-deleted and must not be modified.
    DeviceDeleted,
    /// Two submitted column values share a column identifier.
    DuplicateColumn,
    /// A component is marked deleted but carries no identifier: it cannot be
    /// created and deleted in the same call.
    ComponentCreateDelete,
    /// Two submitted components share an identifier.
    DuplicateComponent,
    /// A component is marked deleted but no live component carries its
    /// identifier.
    ComponentDeleteMissing,
    /// A new attachment's payload is not valid base64.
    InvalidFileData,
    /// A new attachment's decoded payload exceeds the configured maximum.
    FileTooLarge,
    /// Two submitted attachment references share an identifier.
    DuplicateAttachment,
    /// An attachment reference names no live attachment of the device.
    AttachmentMissing,
}

/// The user error a rejection surfaces as.
pub open spec fn rejection_surfaces_as(rej: UpsertRejection, u: UserError) -> bool {
    match rej {
        UpsertRejection::LocationMissing => u is NotFound,
        UpsertRejection::DeviceMissing => u is NotFound,
        UpsertRejection::DeviceDeleted => u is InvalidState,
        _ => u is BadRequest,
    }
}

// The validation rules, in the order they are checked.

/// Whether a column identifier occurs among the first `n` submitted values.
pub open spec fn col_id_among(cols: Seq<SubmittedColumnData>, n: int, col: i32) -> bool {
    exists|j: int| 0 <= j < n && (#[trigger] cols[j]).column_definition_id == col
}

/// The first duplicated-column violation, scanning in submission order.
pub open spec fn spec_column_rejection(cols: Seq<SubmittedColumnData>) -> Option<UpsertRejection>
    decreases cols.len(),
{
    if cols.len() == 0 {
        None
    } else {
        match spec_column_rejection(cols.drop_last()) {
            Some(r) => Some(r),
            None => {
                if col_id_among(cols, cols.len() - 1, cols.last().column_definition_id) {
                    Some(UpsertRejection::DuplicateColumn)
                } else {
                    None
                }
            },
        }
    }
}

/// Whether a provided component identifier occurs among the first `n`
/// submitted components.
pub open spec fn comp_id_among(comps: Seq<UpdatedDeviceComponent>, n: int, id: Seq<char>) -> bool {
    exists|j: int|
        0 <= j < n && ((#[trigger] comps[j]).component_id matches Some(other) && other@ == id)
}

/// The rejection one submitted component triggers, if any, given the live
/// components of the before-snapshot and the components submitted before it.
pub open spec fn spec_one_component_rejection(
    before: Seq<DeviceComponent>,
    comps: Seq<UpdatedDeviceComponent>,
    i: int,
) -> Option<UpsertRejection> {
    let c = comps[i];
    match c.component_id {
        None => {
            if c.deleted {
                Some(UpsertRejection::ComponentCreateDelete)
            } else {
                None
            }
        },
        Some(id) => {
            if comp_id_among(comps, i, id@) {
                Some(UpsertRejection::DuplicateComponent)
            } else if c.deleted && spec_find_comp(before, id@) is None {
                Some(UpsertRejection::ComponentDeleteMissing)
            } else {
                None
            }
        },
    }
}

/// The first component violation, scanning in submission order.
pub open spec fn spec_component_rejection(
    before: Seq<DeviceComponent>,
    comps: Seq<UpdatedDeviceComponent>,
) -> Option<UpsertRejection>
    decreases comps.len(),
{
    if comps.len() == 0 {
        None
    } else {
        match spec_component_rejection(before, comps.drop_last()) {
            Some(r) => Some(r),
            None => spec_one_component_rejection(before, comps, comps.len() - 1),
        }
    }
}

/// Whether an existing-attachment identifier occurs among the first `n`
/// submitted attachments.
pub open spec fn att_id_among(atts: Seq<UpdatedDeviceAttachment>, n: int, id: Seq<char>) -> bool {
    exists|j: int|
        0 <= j < n && ((#[trigger] atts[j]) matches UpdatedDeviceAttachment::Existing {
            attachment_id,
            ..
        } && attachment_id@ == id)
}

/// The rejection one submitted attachment triggers, if any.
pub open spec fn spec_one_attachment_rejection(
    before: Seq<DeviceAttachmentMetadata>,
    atts: Seq<UpdatedDeviceAttachment>,
    i: int,
    max_attachment_size: u64,
) -> Option<UpsertRejection> {
    match atts[i] {
        UpdatedDeviceAttachment::New { file_data, .. } => {
            match b64_decoding(file_data@) {
                None => Some(UpsertRejection::InvalidFileData),
                Some(bytes) => {
                    if bytes.len() > max_attachment_size {
                        Some(UpsertRejection::FileTooLarge)
                    } else {
                        None
                    }
                },
            }
        },
        UpdatedDeviceAttachment::Existing { attachment_id, .. } => {
            if att_id_among(atts, i, attachment_id@) {
                Some(UpsertRejection::DuplicateAttachment)
            } else if spec_find_att(before, attachment_id@) is None {
                Some(UpsertRejection::AttachmentMissing)
            } else {
                None
            }
        },
    }
}

/// The first attachment violation, scanning in submission order.
pub open spec fn spec_attachment_rejection(
    before: Seq<DeviceAttachmentMetadata>,
    atts: Seq<UpdatedDeviceAttachment>,
    max_attachment_size: u64,
) -> Option<UpsertRejection>
    decreases atts.len(),
{
    if atts.len() == 0 {
        None
    } else {
        match spec_attachment_rejection(before, atts.drop_last(), max_attachment_size) {
            Some(r) => Some(r),
            None => spec_one_attachment_rejection(
                before,
                atts,
                atts.len() - 1,
                max_attachment_size,
            ),
        }
    }
}

/// The first violation in a submission, checked category by category:
/// columns, then components, then attachments.
pub open spec fn spec_submission_rejection(
    before_comps: Seq<DeviceComponent>,
    before_atts: Seq<DeviceAttachmentMetadata>,
    info: UpdatedDeviceInfo,
    max_attachment_size: u64,
) -> Option<UpsertRejection> {
    match spec_column_rejection(info.column_data@) {
        Some(r) => Some(r),
        None => match spec_component_rejection(before_comps, info.components@) {
            Some(r) => Some(r),
            None => spec_attachment_rejection(before_atts, info.attachments@, max_attachment_size),
        },
    }
}

// The executable validation pass. It only reads; nothing is written until
// the whole submission has been accepted.

/// Checks the submitted column values for duplicated column identifiers.
fn validate_columns(cols: &Vec<SubmittedColumnData>) -> (r: Option<UpsertRejection>)
    ensures
        r == spec_column_rejection(cols@),
{
    let mut i: usize = 0;
    while i < cols.len()
        invariant
            i <= cols@.len(),
            spec_column_rejection(cols@.take(i as int)) is None,
        decreases cols@.len() - i,
    {
        let col = cols[i].column_definition_id;
        let mut j: usize = 0;
        while j < i
            invariant
                j <= i < cols@.len(),
                col == cols@[i as int].column_definition_id,
                spec_column_rejection(cols@.take(i as int)) is None,
                forall|k: int| 0 <= k < j ==> (#[trigger] cols@[k]).column_definition_id != col,
            decreases i - j,
        {
            if cols[j].column_definition_id == col {
                proof {
                    assert((#[trigger] cols@[j as int]).column_definition_id == col);
                    assert(col_id_among(cols@, i as int, col));
                    lemma_column_rejection_extends(cols@, i as int);
                }
                return Some(UpsertRejection::DuplicateColumn);
            }
            j += 1;
        }
        proof {
            assert(cols@.take(i + 1).drop_last() =~= cols@.take(i as int));
            assert(forall|k: int| 0 <= k <= i ==> #[trigger] cols@.take(i + 1)[k] == cols@[k]);
            assert(!col_id_among(cols@.take(i + 1), i as int, col));
        }
        i += 1;
    }
    proof {
        assert(cols@.take(cols@.len() as int) =~= cols@);
    }
    None
}

/// A rejection found at position `i` settles the scan: the whole list is
/// rejected with the first violation, which is this one when the prefix was
/// clean.
proof fn lemma_column_rejection_extends(cols: Seq<SubmittedColumnData>, i: int)
    requires
        0 <= i < cols.len(),
        spec_column_rejection(cols.take(i)) is None,
        spec_one_col_is_dup(cols, i),
    ensures
        spec_column_rejection(cols) == Some(UpsertRejection::DuplicateColumn),
    decreases cols.len(),
{
    assert(cols.take(cols.len() as int) =~= cols);
    if i == cols.len() - 1 {
        lemma_column_rejection_prefix(cols, i);
        assert(cols.drop_last() =~= cols.take(i));
    } else {
        assert(cols.drop_last() =~= cols.take(cols.len() - 1));
        assert(forall|k: int|
            0 <= k < cols.len() - 1 ==> #[trigger] cols.take(cols.len() - 1)[k] == cols[k]);
        assert(spec_one_col_is_dup(cols.take(cols.len() - 1), i));
        assert(cols.take(cols.len() - 1).take(i) =~= cols.take(i));
        lemma_column_rejection_extends(cols.take(cols.len() - 1), i);
    }
}

/// Whether the column at `i` duplicates an earlier one.
pub open spec fn spec_one_col_is_dup(cols: Seq<SubmittedColumnData>, i: int) -> bool {
    col_id_among(cols, i, cols[i].column_definition_id)
}

/// A clean prefix stays clean when restricted further.
proof fn lemma_column_rejection_prefix(cols: Seq<SubmittedColumnData>, i: int)
    requires
        0 <= i <= cols.len(),
        spec_column_rejection(cols.take(i)) is None,
    ensures
        forall|n: int| 0 <= n <= i ==> spec_column_rejection(cols.take(n)) is None,
    decreases i,
{
    if i > 0 {
        assert(cols.take(i).drop_last() =~= cols.take(i - 1));
        lemma_column_rejection_prefix(cols, i - 1);
    }
}


/// A clean component prefix stays clean when restricted further.
proof fn lemma_component_rejection_prefix(
    before: Seq<DeviceComponent>,
    comps: Seq<UpdatedDeviceComponent>,
    i: int,
)
    requires
        0 <= i <= comps.len(),
        spec_component_rejection(before, comps.take(i)) is None,
    ensures
        forall|n: int| 0 <= n <= i ==> spec_component_rejection(before, comps.take(n)) is None,
    decreases i,
{
    if i > 0 {
        assert(comps.take(i).drop_last() =~= comps.take(i - 1));
        lemma_component_rejection_prefix(before, comps, i - 1);
    }
}

/// A component rejection at `i`, after a clean prefix, settles the scan.
proof fn lemma_component_rejection_extends(
    before: Seq<DeviceComponent>,
    comps: Seq<UpdatedDeviceComponent>,
    i: int,
)
    requires
        0 <= i < comps.len(),
        spec_component_rejection(before, comps.take(i)) is None,
        spec_one_component_rejection(before, comps, i) is Some,
    ensures
        spec_component_rejection(before, comps) == spec_one_component_rejection(before, comps, i),
    decreases comps.len(),
{
    assert(comps.take(comps.len() as int) =~= comps);
    if i == comps.len() - 1 {
        assert(comps.drop_last() =~= comps.take(i));
        assert(spec_one_component_rejection(before, comps, comps.len() - 1) is Some);
    } else {
        let shorter = comps.take(comps.len() - 1);
        assert(comps.drop_last() =~= shorter);
        assert(forall|k: int| 0 <= k < shorter.len() ==> #[trigger] shorter[k] == comps[k]);
        assert(comp_id_among(shorter, i, match comps[i].component_id {
            Some(id) => id@,
            None => Seq::empty(),
        }) == comp_id_among(comps, i, match comps[i].component_id {
            Some(id) => id@,
            None => Seq::empty(),
        }));
        assert(spec_one_component_rejection(before, shorter, i) == spec_one_component_rejection(
            before,
            comps,
            i,
        ));
        assert(shorter.take(i) =~= comps.take(i));
        lemma_component_rejection_extends(before, shorter, i);
    }
}

/// Checks the submitted components: no create-and-delete contradiction, no
/// duplicated identifiers, and deletions must name a live component.
fn validate_components(
    before: &Vec<DeviceComponent>,
    comps: &Vec<UpdatedDeviceComponent>,
) -> (r: Option<UpsertRejection>)
    ensures
        r == spec_component_rejection(before@, comps@),
{
    let mut i: usize = 0;
    while i < comps.len()
        invariant
            i <= comps@.len(),
            spec_component_rejection(before@, comps@.take(i as int)) is None,
        decreases comps@.len() - i,
    {
        match &comps[i].component_id {
            None => {
                if comps[i].deleted {
                    proof {
                        assert(spec_one_component_rejection(before@, comps@, i as int) == Some(
                            UpsertRejection::ComponentCreateDelete,
                        ));
                        lemma_component_rejection_extends(before@, comps@, i as int);
                    }
                    return Some(UpsertRejection::ComponentCreateDelete);
                }
            },
            Some(id) => {
                let mut j: usize = 0;
                while j < i
                    invariant
                        j <= i < comps@.len(),
                        spec_component_rejection(before@, comps@.take(i as int)) is None,
                        comps@[i as int].component_id matches Some(s) && s@ == id@,
                        forall|k: int|
                            0 <= k < j ==> !((#[trigger] comps@[k]).component_id matches Some(o)
                                && o@ == id@),
                    decreases i - j,
                {
                    let dup = match &comps[j].component_id {
                        Some(o) => o.eq(id),
                        None => false,
                    };
                    if dup {
                        proof {
                            assert(((#[trigger] comps@[j as int]).component_id matches Some(o)
                                && o@ == id@));
                            assert(comp_id_among(comps@, i as int, id@));
                            assert(spec_one_component_rejection(before@, comps@, i as int) == Some(
                                UpsertRejection::DuplicateComponent,
                            ));
                            lemma_component_rejection_extends(before@, comps@, i as int);
                        }
                        return Some(UpsertRejection::DuplicateComponent);
                    }
                    j += 1;
                }
                if comps[i].deleted && find_comp_index(before, id).is_none() {
                    proof {
                        assert(!comp_id_among(comps@, i as int, id@));
                        assert(spec_one_component_rejection(before@, comps@, i as int) == Some(
                            UpsertRejection::ComponentDeleteMissing,
                        ));
                        lemma_component_rejection_extends(before@, comps@, i as int);
                    }
                    return Some(UpsertRejection::ComponentDeleteMissing);
                }
                proof {
                    assert(!comp_id_among(comps@, i as int, id@));
                }
            },
        }
        proof {
            assert(comps@.take(i + 1).drop_last() =~= comps@.take(i as int));
            assert(forall|k: int| 0 <= k <= i ==> #[trigger] comps@.take(i + 1)[k] == comps@[k]);
            assert(spec_one_component_rejection(before@, comps@.take(i + 1), i as int)
                == spec_one_component_rejection(before@, comps@, i as int));
            assert(spec_one_component_rejection(before@, comps@, i as int) is None);
        }
        i += 1;
    }
    proof {
        assert(comps@.take(comps@.len() as int) =~= comps@);
    }
    None
}

/// A clean attachment prefix stays clean when restricted further.
proof fn lemma_attachment_rejection_prefix(
    before: Seq<DeviceAttachmentMetadata>,
    atts: Seq<UpdatedDeviceAttachment>,
    max_attachment_size: u64,
    i: int,
)
    requires
        0 <= i <= atts.len(),
        spec_attachment_rejection(before, atts.take(i), max_attachment_size) is None,
    ensures
        forall|n: int|
            0 <= n <= i ==> spec_attachment_rejection(before, atts.take(n), max_attachment_size)
                is None,
    decreases i,
{
    if i > 0 {
        assert(atts.take(i).drop_last() =~= atts.take(i - 1));
        lemma_attachment_rejection_prefix(before, atts, max_attachment_size, i - 1);
    }
}

/// An attachment rejection at `i`, after a clean prefix, settles the scan.
proof fn lemma_attachment_rejection_extends(
    before: Seq<DeviceAttachmentMetadata>,
    atts: Seq<UpdatedDeviceAttachment>,
    max_attachment_size: u64,
    i: int,
)
    requires
        0 <= i < atts.len(),
        spec_attachment_rejection(before, atts.take(i), max_attachment_size) is None,
        spec_one_attachment_rejection(before, atts, i, max_attachment_size) is Some,
    ensures
        spec_attachment_rejection(before, atts, max_attachment_size)
            == spec_one_attachment_rejection(before, atts, i, max_attachment_size),
    decreases atts.len(),
{
    assert(atts.take(atts.len() as int) =~= atts);
    if i == atts.len() - 1 {
        assert(atts.drop_last() =~= atts.take(i));
    } else {
        let shorter = atts.take(atts.len() - 1);
        assert(atts.drop_last() =~= shorter);
        assert(forall|k: int| 0 <= k < shorter.len() ==> #[trigger] shorter[k] == atts[k]);
        assert(match atts[i] {
            UpdatedDeviceAttachment::Existing { attachment_id, .. } => att_id_among(
                shorter,
                i,
                attachment_id@,
            ) == att_id_among(atts, i, attachment_id@),
            UpdatedDeviceAttachment::New { .. } => true,
        });
        assert(spec_one_attachment_rejection(before, shorter, i, max_attachment_size)
            == spec_one_attachment_rejection(before, atts, i, max_attachment_size));
        assert(shorter.take(i) =~= atts.take(i));
        lemma_attachment_rejection_extends(before, shorter, max_attachment_size, i);
    }
}

/// Checks the submitted attachments: new payloads must decode and fit the
/// configured maximum, and references must name a live attachment, each at
/// most once.
fn validate_attachments(
    before: &Vec<DeviceAttachmentMetadata>,
    atts: &Vec<UpdatedDeviceAttachment>,
    max_attachment_size: u64,
) -> (r: Option<UpsertRejection>)
    ensures
        r == spec_attachment_rejection(before@, atts@, max_attachment_size),
{
    let mut i: usize = 0;
    while i < atts.len()
        invariant
            i <= atts@.len(),
            spec_attachment_rejection(before@, atts@.take(i as int), max_attachment_size) is None,
        decreases atts@.len() - i,
    {
        match &atts[i] {
            UpdatedDeviceAttachment::New { file_data, .. } => {
                match base64_decode(file_data.as_str()) {
                    Err(_) => {
                        proof {
                            assert(spec_one_attachment_rejection(
                                before@,
                                atts@,
                                i as int,
                                max_attachment_size,
                            ) == Some(UpsertRejection::InvalidFileData));
                            lemma_attachment_rejection_extends(
                                before@,
                                atts@,
                                max_attachment_size,
                                i as int,
                            );
                        }
                        return Some(UpsertRejection::InvalidFileData);
                    },
                    Ok(bytes) => {
                        if bytes.len() as u64 > max_attachment_size {
                            proof {
                                assert(spec_one_attachment_rejection(
                                    before@,
                                    atts@,
                                    i as int,
                                    max_attachment_size,
                                ) == Some(UpsertRejection::FileTooLarge));
                                lemma_attachment_rejection_extends(
                                    before@,
                                    atts@,
                                    max_attachment_size,
                                    i as int,
                                );
                            }
                            return Some(UpsertRejection::FileTooLarge);
                        }
                    },
                }
            },
            UpdatedDeviceAttachment::Existing { attachment_id, .. } => {
                let mut j: usize = 0;
                while j < i
                    invariant
                        j <= i < atts@.len(),
                        spec_attachment_rejection(before@, atts@.take(i as int), max_attachment_size)
                            is None,
                        atts@[i as int] matches UpdatedDeviceAttachment::Existing {
                            attachment_id: s,
                            ..
                        } && s@ == attachment_id@,
                        forall|k: int|
                            0 <= k < j ==> !((#[trigger] atts@[k])
                                matches UpdatedDeviceAttachment::Existing { attachment_id: o, .. }
                                && o@ == attachment_id@),
                    decreases i - j,
                {
                    let dup = match &atts[j] {
                        UpdatedDeviceAttachment::Existing { attachment_id: o, .. } => o.eq(
                            attachment_id,
                        ),
                        UpdatedDeviceAttachment::New { .. } => false,
                    };
                    if dup {
                        proof {
                            assert(((#[trigger] atts@[j as int])
                                matches UpdatedDeviceAttachment::Existing { attachment_id: o, .. }
                                && o@ == attachment_id@));
                            assert(att_id_among(atts@, i as int, attachment_id@));
                            assert(spec_one_attachment_rejection(
                                before@,
                                atts@,
                                i as int,
                                max_attachment_size,
                            ) == Some(UpsertRejection::DuplicateAttachment));
                            lemma_attachment_rejection_extends(
                                before@,
                                atts@,
                                max_attachment_size,
                                i as int,
                            );
                        }
                        return Some(UpsertRejection::DuplicateAttachment);
                    }
                    j += 1;
                }
                if find_att_index(before, attachment_id).is_none() {
                    proof {
                        assert(!att_id_among(atts@, i as int, attachment_id@));
                        assert(spec_one_attachment_rejection(
                            before@,
                            atts@,
                            i as int,
                            max_attachment_size,
                        ) == Some(UpsertRejection::AttachmentMissing));
                        lemma_attachment_rejection_extends(
                            before@,
                            atts@,
                            max_attachment_size,
                            i as int,
                        );
                    }
                    return Some(UpsertRejection::AttachmentMissing);
                }
                proof {
                    assert(!att_id_among(atts@, i as int, attachment_id@));
                }
            },
        }
        proof {
            assert(atts@.take(i + 1).drop_last() =~= atts@.take(i as int));
            assert(forall|k: int| 0 <= k <= i ==> #[trigger] atts@.take(i + 1)[k] == atts@[k]);
            assert(spec_one_attachment_rejection(before@, atts@.take(i + 1), i as int, max_attachment_size)
                == spec_one_attachment_rejection(before@, atts@, i as int, max_attachment_size));
            assert(spec_one_attachment_rejection(before@, atts@, i as int, max_attachment_size)
                is None);
        }
        i += 1;
    }
    proof {
        assert(atts@.take(atts@.len() as int) =~= atts@);
    }
    None
}

/// Validates a whole submission against the before-snapshot's live components
/// and attachments: columns first, then components, then attachments. Only
/// reads; nothing is written.
pub fn validate_submission(
    before_comps: &Vec<DeviceComponent>,
    before_atts: &Vec<DeviceAttachmentMetadata>,
    info: &UpdatedDeviceInfo,
    max_attachment_size: u64,
) -> (r: Option<UpsertRejection>)
    ensures
        r == spec_submission_rejection(before_comps@, before_atts@, *info, max_attachment_size),
{
    if let Some(rej) = validate_columns(&info.column_data) {
        return Some(rej);
    }
    if let Some(rej) = validate_components(before_comps, &info.components) {
        return Some(rej);
    }
    validate_attachments(before_atts, &info.attachments, max_attachment_size)
}


// Identifier generation against the store

/// Whether a provided component identifier occurs anywhere in the submission.
fn any_submitted_comp_id(comps: &Vec<UpdatedDeviceComponent>, id: &String) -> (r: bool)
    ensures
        r == comp_id_among(comps@, comps@.len() as int, id@),
{
    let mut j: usize = 0;
    while j < comps.len()
        invariant
            j <= comps@.len(),
            forall|k: int|
                0 <= k < j ==> !((#[trigger] comps@[k]).component_id matches Some(o) && o@ == id@),
        decreases comps@.len() - j,
    {
        let hit = match &comps[j].component_id {
            Some(o) => o.eq(id),
            None => false,
        };
        if hit {
            proof {
                assert(((#[trigger] comps@[j as int]).component_id matches Some(o) && o@ == id@));
            }
            return true;
        }
        j += 1;
    }
    false
}

/// Generates an unused six-digit public device identifier.
pub fn gen_new_device_id(store: &Store) -> (r: Result<String, Error>)
    ensures
        r matches Ok(id) ==> id@.len() == 6 && all_digits(id@) && spec_device_index(
            store.devices@,
            id@,
        ) == -1,
        r matches Err(e) ==> !(e is User),
{
    let in_use = |s: &String| -> (b: bool)
        ensures
            b == (spec_device_index(store.devices@, s@) != -1),
        { store.device_id_exists(s) };
    gen_new_id(6, 1000000, in_use)
}

/// Generates a three-digit component identifier unused by the device: not in
/// the store, not provided anywhere in the submission, and not among the
/// operations normalized so far.
pub fn gen_new_component_id(
    store: &Store,
    dki: i32,
    submitted: &Vec<UpdatedDeviceComponent>,
    built: &Vec<DeviceComponentUpsert>,
) -> (r: Result<String, Error>)
    ensures
        r matches Ok(id) ==> id@.len() == 3 && all_digits(id@) && spec_component_index(
            store.components@,
            dki,
            id@,
        ) == -1 && !comp_id_among(submitted@, submitted@.len() as int, id@) && !comp_key_in_upserts(
            built@,
            id@,
        ),
        r matches Err(e) ==> !(e is User),
{
    let in_use = |s: &String| -> (b: bool)
        ensures
            b == (spec_component_index(store.components@, dki, s@) != -1 || comp_id_among(
                submitted@,
                submitted@.len() as int,
                s@,
            ) || comp_key_in_upserts(built@, s@)),
        {
            store.component_id_exists(dki, s) || any_submitted_comp_id(submitted, s)
                || comp_key_present(built, s)
        };
    gen_new_id(3, 1000000, in_use)
}

/// Whether an existing-attachment identifier occurs anywhere in the
/// submission.
fn any_submitted_att_id(atts: &Vec<UpdatedDeviceAttachment>, id: &String) -> (r: bool)
    ensures
        r == att_id_among(atts@, atts@.len() as int, id@),
{
    let mut j: usize = 0;
    while j < atts.len()
        invariant
            j <= atts@.len(),
            forall|k: int|
                0 <= k < j ==> !((#[trigger] atts@[k]) matches UpdatedDeviceAttachment::Existing {
                    attachment_id: o,
                    ..
                } && o@ == id@),
        decreases atts@.len() - j,
    {
        let hit = match &atts[j] {
            UpdatedDeviceAttachment::Existing { attachment_id: o, .. } => o.eq(id),
            UpdatedDeviceAttachment::New { .. } => false,
        };
        if hit {
            proof {
                assert(((#[trigger] atts@[j as int]) matches UpdatedDeviceAttachment::Existing {
                    attachment_id: o,
                    ..
                } && o@ == id@));
            }
            return true;
        }
        j += 1;
    }
    false
}

/// Generates a three-digit attachment identifier unused by the device: not in
/// the store, not referenced anywhere in the submission, and not among the
/// operations normalized so far.
pub fn gen_new_attachment_id(
    store: &Store,
    dki: i32,
    submitted: &Vec<UpdatedDeviceAttachment>,
    built: &Vec<DeviceAttachmentUpsert>,
) -> (r: Result<String, Error>)
    ensures
        r matches Ok(id) ==> id@.len() == 3 && all_digits(id@) && spec_attachment_index(
            store.attachments@,
            dki,
            id@,
        ) == -1 && !att_id_among(submitted@, submitted@.len() as int, id@) && !att_key_in_upserts(
            built@,
            id@,
        ),
        r matches Err(e) ==> !(e is User),
{
    let in_use = |s: &String| -> (b: bool)
        ensures
            b == (spec_attachment_index(store.attachments@, dki, s@) != -1 || att_id_among(
                submitted@,
                submitted@.len() as int,
                s@,
            ) || att_key_in_upserts(built@, s@)),
        {
            store.attachment_id_exists(dki, s) || any_submitted_att_id(submitted, s)
                || att_key_present(built, s)
        };
    gen_new_id(3, 1000000, in_use)
}


// From a clean scan to per-item facts

/// A submission whose column scan is clean has pairwise distinct column
/// identifiers.
pub proof fn lemma_column_rejection_none_forall(cols: Seq<SubmittedColumnData>)
    requires
        spec_column_rejection(cols) is None,
    ensures
        forall|i: int, j: int|
            0 <= i < j < cols.len() ==> (#[trigger] cols[i]).column_definition_id != (
            #[trigger] cols[j]).column_definition_id,
    decreases cols.len(),
{
    if cols.len() > 0 {
        let dropped = cols.drop_last();
        assert(forall|k: int| 0 <= k < dropped.len() ==> #[trigger] dropped[k] == cols[k]);
        lemma_column_rejection_none_forall(dropped);
        assert forall|i: int, j: int| 0 <= i < j < cols.len() implies (
        #[trigger] cols[i]).column_definition_id != (#[trigger] cols[j]).column_definition_id by {
            if j == cols.len() - 1 {
                assert(!col_id_among(cols, j, cols[j].column_definition_id));
            } else {
                assert(dropped[i] == cols[i] && dropped[j] == cols[j]);
            }
        }
    }
}

/// A submission whose component scan is clean triggers no per-item rejection.
pub proof fn lemma_component_rejection_none_forall(
    before: Seq<DeviceComponent>,
    comps: Seq<UpdatedDeviceComponent>,
)
    requires
        spec_component_rejection(before, comps) is None,
    ensures
        forall|i: int|
            0 <= i < comps.len() ==> spec_one_component_rejection(before, comps, i) is None,
    decreases comps.len(),
{
    if comps.len() > 0 {
        let dropped = comps.drop_last();
        assert(forall|k: int| 0 <= k < dropped.len() ==> #[trigger] dropped[k] == comps[k]);
        lemma_component_rejection_none_forall(before, dropped);
        assert forall|i: int| 0 <= i < comps.len() implies spec_one_component_rejection(
            before,
            comps,
            i,
        ) is None by {
            if i < comps.len() - 1 {
                let key = match comps[i].component_id {
                    Some(id) => id@,
                    None => Seq::empty(),
                };
                if comp_id_among(comps, i, key) {
                    let j = choose|j: int|
                        0 <= j < i && ((#[trigger] comps[j]).component_id matches Some(o) && o@
                            == key);
                    assert(((#[trigger] dropped[j]).component_id matches Some(o) && o@ == key));
                }
                if comp_id_among(dropped, i, key) {
                    let j = choose|j: int|
                        0 <= j < i && ((#[trigger] dropped[j]).component_id matches Some(o) && o@
                            == key);
                    assert(((#[trigger] comps[j]).component_id matches Some(o) && o@ == key));
                }
                assert(spec_one_component_rejection(before, dropped, i) is None);
            }
        }
    }
}

/// A submission whose attachment scan is clean triggers no per-item
/// rejection.
pub proof fn lemma_attachment_rejection_none_forall(
    before: Seq<DeviceAttachmentMetadata>,
    atts: Seq<UpdatedDeviceAttachment>,
    max_attachment_size: u64,
)
    requires
        spec_attachment_rejection(before, atts, max_attachment_size) is None,
    ensures
        forall|i: int|
            0 <= i < atts.len() ==> spec_one_attachment_rejection(before, atts, i, max_attachment_size)
                is None,
    decreases atts.len(),
{
    if atts.len() > 0 {
        let dropped = atts.drop_last();
        assert(forall|k: int| 0 <= k < dropped.len() ==> #[trigger] dropped[k] == atts[k]);
        lemma_attachment_rejection_none_forall(before, dropped, max_attachment_size);
        assert forall|i: int| 0 <= i < atts.len() implies spec_one_attachment_rejection(
            before,
            atts,
            i,
            max_attachment_size,
        ) is None by {
            if i < atts.len() - 1 {
                match atts[i] {
                    UpdatedDeviceAttachment::Existing { attachment_id, .. } => {
                        let key = attachment_id@;
                        if att_id_among(atts, i, key) {
                            let j = choose|j: int|
                                0 <= j < i && ((#[trigger] atts[j])
                                    matches UpdatedDeviceAttachment::Existing {
                                    attachment_id: o,
                                    ..
                                } && o@ == key);
                            assert(((#[trigger] dropped[j])
                                matches UpdatedDeviceAttachment::Existing {
                                attachment_id: o,
                                ..
                            } && o@ == key));
                        }
                        if att_id_among(dropped, i, key) {
                            let j = choose|j: int|
                                0 <= j < i && ((#[trigger] dropped[j])
                                    matches UpdatedDeviceAttachment::Existing {
                                    attachment_id: o,
                                    ..
                                } && o@ == key);
                            assert(((#[trigger] atts[j])
                                matches UpdatedDeviceAttachment::Existing {
                                attachment_id: o,
                                ..
                            } && o@ == key));
                        }
                    },
                    UpdatedDeviceAttachment::New { .. } => {},
                }
                assert(spec_one_attachment_rejection(before, dropped, i, max_attachment_size)
                    is None);
            }
        }
    }
}

// Normalization: the canonical after-state records of a submission

/// How one submitted column value corresponds to its normalized record.
pub open spec fn data_row_matches(c: SubmittedColumnData, row: DeviceDataNew, iid: i32) -> bool {
    &&& row.device_key_info_id == iid
    &&& row.column_definition_id == c.column_definition_id
    &&& row.data_value == c.data_value
}

/// How one submitted component corresponds to its normalized operation.
pub open spec fn comp_op_matches(c: UpdatedDeviceComponent, op: DeviceComponentUpsert, iid: i32) -> bool {
    if c.deleted {
        op matches DeviceComponentUpsert::Delete(id) && (c.component_id matches Some(cid) && id
            == cid)
    } else {
        op matches DeviceComponentUpsert::NewExisting(n) && n.device_key_info_id == iid
            && n.component_type == c.component_type && (match c.component_id {
            Some(cid) => n.component_id == cid,
            None => n.component_id@.len() == 3 && all_digits(n.component_id@),
        })
    }
}

/// How one submitted attachment corresponds to its normalized operation.
pub open spec fn att_op_matches(
    a: UpdatedDeviceAttachment,
    op: DeviceAttachmentUpsert,
    iid: i32,
    device_id: Seq<char>,
) -> bool {
    match a {
        UpdatedDeviceAttachment::New { description, file_name, file_data } => {
            op matches DeviceAttachmentUpsert::New(n) && n.device_key_info_id == iid
                && n.attachment_id@.len() == 3 && all_digits(n.attachment_id@) && n.description@
                == spec_trimmed(description@) && b64_decoding(file_data@) == Some(n.file_data@)
                && n.file_name@ == (if spec_trimmed(file_name@).len() == 0 {
                device_id + "-"@ + n.attachment_id@ + ".bin"@
            } else {
                spec_trimmed(file_name@)
            })
        },
        UpdatedDeviceAttachment::Existing { attachment_id, deleted, description } => {
            if deleted {
                op matches DeviceAttachmentUpsert::Delete(id) && id == attachment_id
            } else {
                op matches DeviceAttachmentUpsert::Existing(e) && e.attachment_id == attachment_id
                    && e.description == description && e.device_key_info_id == iid
            }
        },
    }
}

/// Builds the normalized column value records.
fn build_data_rows(info: &UpdatedDeviceInfo, iid: i32) -> (r: Vec<DeviceDataNew>)
    requires
        spec_column_rejection(info.column_data@) is None,
    ensures
        r@.len() == info.column_data@.len(),
        forall|i: int|
            0 <= i < r@.len() ==> data_row_matches(info.column_data@[i], #[trigger] r@[i], iid),
        unique_new_cols(r@),
{
    let mut out: Vec<DeviceDataNew> = Vec::new();
    let mut i: usize = 0;
    while i < info.column_data.len()
        invariant
            i <= info.column_data@.len(),
            out@.len() == i as int,
            forall|j: int|
                0 <= j < i ==> data_row_matches(info.column_data@[j], #[trigger] out@[j], iid),
        decreases info.column_data@.len() - i,
    {
        let c = &info.column_data[i];
        out.push(
            DeviceDataNew {
                device_key_info_id: iid,
                column_definition_id: c.column_definition_id,
                data_value: c.data_value.clone(),
            },
        );
        i += 1;
    }
    proof {
        lemma_column_rejection_none_forall(info.column_data@);
        assert forall|i2: int, j2: int| 0 <= i2 < j2 < out@.len() implies (
        #[trigger] out@[i2]).column_definition_id != (
        #[trigger] out@[j2]).column_definition_id by {
            assert(data_row_matches(info.column_data@[i2], out@[i2], iid));
            assert(data_row_matches(info.column_data@[j2], out@[j2], iid));
        }
    }
    out
}

/// Builds the normalized component operations, generating identifiers for
/// components submitted without one.
fn build_component_ops(
    store: &Store,
    before_comps: &Vec<DeviceComponent>,
    info: &UpdatedDeviceInfo,
    iid: i32,
) -> (r: Result<Vec<DeviceComponentUpsert>, Error>)
    requires
        spec_component_rejection(before_comps@, info.components@) is None,
    ensures
        r matches Ok(ops) ==> {
            &&& ops@.len() == info.components@.len()
            &&& forall|i: int|
                0 <= i < ops@.len() ==> comp_op_matches(info.components@[i], #[trigger] ops@[i], iid)
            &&& unique_comp_upsert_keys(ops@)
            &&& forall|i: int|
                0 <= i < ops@.len() && (#[trigger] ops@[i]) is Delete ==> spec_find_comp(
                    before_comps@,
                    spec_comp_key(ops@[i]),
                ) is Some
            &&& forall|i: int|
                0 <= i < ops@.len() && !comp_id_among(
                    info.components@,
                    info.components@.len() as int,
                    spec_comp_key(#[trigger] ops@[i]),
                ) ==> spec_component_index(store.components@, iid, spec_comp_key(ops@[i])) == -1
        },
        r matches Err(e) ==> !(e is User) && (exists|i: int|
            0 <= i < info.components@.len() && (#[trigger] info.components@[i]).component_id
                is None),
{
    proof {
        lemma_component_rejection_none_forall(before_comps@, info.components@);
    }
    let mut out: Vec<DeviceComponentUpsert> = Vec::new();
    let mut i: usize = 0;
    while i < info.components.len()
        invariant
            i <= info.components@.len(),
            out@.len() == i as int,
            spec_component_rejection(before_comps@, info.components@) is None,
            forall|j: int|
                0 <= j < i ==> comp_op_matches(info.components@[j], #[trigger] out@[j], iid),
            forall|j: int|
                0 <= j < i ==> (match info.components@[j].component_id {
                    Some(cid) => spec_comp_key(#[trigger] out@[j]) == cid@,
                    None => !comp_id_among(
                        info.components@,
                        info.components@.len() as int,
                        spec_comp_key(#[trigger] out@[j]),
                    ) && spec_component_index(
                        store.components@,
                        iid,
                        spec_comp_key(out@[j]),
                    ) == -1,
                }),
            unique_comp_upsert_keys(out@),
            forall|j: int|
                0 <= j < info.components@.len() ==> spec_one_component_rejection(
                    before_comps@,
                    info.components@,
                    j,
                ) is None,
        decreases info.components@.len() - i,
    {
        let c = &info.components[i];
        let cid: String = match &c.component_id {
            Some(id) => id.clone(),
            None => {
                match gen_new_component_id(store, iid, &info.components, &out) {
                    Ok(id) => id,
                    Err(e) => {
                        proof {
                            assert((#[trigger] info.components@[i as int]).component_id is None);
                        }
                        return Err(e);
                    },
                }
            },
        };
        let op = if c.deleted {
            DeviceComponentUpsert::Delete(cid)
        } else {
            DeviceComponentUpsert::NewExisting(
                DeviceComponentNew {
                    device_key_info_id: iid,
                    component_id: cid,
                    component_type: c.component_type.clone(),
                },
            )
        };
        proof {
            assert(spec_one_component_rejection(before_comps@, info.components@, i as int)
                is None);
            assert(comp_op_matches(info.components@[i as int], op, iid));
        }
        let ghost prev = out@;
        out.push(op);
        proof {
            assert(out@.drop_last() =~= prev);
            assert forall|j: int, k: int| 0 <= j < k < out@.len() implies spec_comp_key(
                #[trigger] out@[j],
            ) != spec_comp_key(#[trigger] out@[k]) by {
                if k == out@.len() - 1 {
                    let kk = spec_comp_key(out@[k]);
                    match info.components@[i as int].component_id {
                        Some(cid) => {
                            assert(!comp_id_among(info.components@, i as int, cid@));
                            match info.components@[j].component_id {
                                Some(cj) => {
                                    assert(((#[trigger] info.components@[j]).component_id
                                        matches Some(o) && o@ == cj@));
                                    assert(cj@ != cid@);
                                },
                                None => {
                                    assert(!comp_id_among(
                                        info.components@,
                                        info.components@.len() as int,
                                        spec_comp_key(out@[j]),
                                    ));
                                    assert(((#[trigger] info.components@[i as int]).component_id
                                        matches Some(o) && o@ == cid@));
                                },
                            }
                        },
                        None => {},
                    }
                }
            }
        }
        i += 1;
    }
    proof {
        assert forall|i2: int|
            0 <= i2 < out@.len() && (#[trigger] out@[i2]) is Delete implies spec_find_comp(
            before_comps@,
            spec_comp_key(out@[i2]),
        ) is Some by {
            assert(comp_op_matches(info.components@[i2], out@[i2], iid));
            assert(info.components@[i2].deleted);
            assert(spec_one_component_rejection(before_comps@, info.components@, i2) is None);
            assert(!comp_id_among(info.components@, i2, match info.components@[i2].component_id {
                Some(id) => id@,
                None => Seq::empty(),
            }) ==> true);
        }
        assert forall|i2: int|
            0 <= i2 < out@.len() && !comp_id_among(
                info.components@,
                info.components@.len() as int,
                spec_comp_key(#[trigger] out@[i2]),
            ) implies spec_component_index(store.components@, iid, spec_comp_key(out@[i2]))
            == -1 by {
            match info.components@[i2].component_id {
                Some(cid) => {
                    assert(spec_comp_key(out@[i2]) == cid@);
                    assert(i2 < info.components@.len());
                    assert(((#[trigger] info.components@[i2]).component_id matches Some(o) && o@
                        == cid@));
                    assert(comp_id_among(
                        info.components@,
                        info.components@.len() as int,
                        cid@,
                    ));
                },
                None => {},
            }
        }
    }
    Ok(out)
}

/// Builds the normalized attachment operations, generating identifiers and
/// decoding payloads for new attachments.
fn build_attachment_ops(
    store: &Store,
    before_atts: &Vec<DeviceAttachmentMetadata>,
    device_id: &String,
    info: &UpdatedDeviceInfo,
    iid: i32,
    max_attachment_size: u64,
) -> (r: Result<Vec<DeviceAttachmentUpsert>, Error>)
    requires
        spec_attachment_rejection(before_atts@, info.attachments@, max_attachment_size) is None,
    ensures
        r matches Ok(ops) ==> {
            &&& ops@.len() == info.attachments@.len()
            &&& forall|i: int|
                0 <= i < ops@.len() ==> att_op_matches(
                    info.attachments@[i],
                    #[trigger] ops@[i],
                    iid,
                    device_id@,
                )
            &&& unique_att_upsert_keys(ops@)
            &&& forall|i: int|
                0 <= i < ops@.len() && !((#[trigger] ops@[i]) is New) ==> spec_find_att(
                    before_atts@,
                    spec_att_key(ops@[i]),
                ) is Some
            &&& forall|i: int|
                0 <= i < ops@.len() && (#[trigger] ops@[i]) is New ==> spec_attachment_index(
                    store.attachments@,
                    iid,
                    spec_att_key(ops@[i]),
                ) == -1
        },
        r matches Err(e) ==> !(e is User) && (exists|i: int|
            0 <= i < info.attachments@.len() && (#[trigger] info.attachments@[i]) is New),
{
    proof {
        lemma_attachment_rejection_none_forall(before_atts@, info.attachments@, max_attachment_size);
    }
    let mut out: Vec<DeviceAttachmentUpsert> = Vec::new();
    let mut i: usize = 0;
    while i < info.attachments.len()
        invariant
            i <= info.attachments@.len(),
            out@.len() == i as int,
            forall|j: int|
                0 <= j < i ==> att_op_matches(
                    info.attachments@[j],
                    #[trigger] out@[j],
                    iid,
                    device_id@,
                ),
            forall|j: int|
                0 <= j < i ==> (match info.attachments@[j] {
                    UpdatedDeviceAttachment::New { .. } => !att_id_among(
                        info.attachments@,
                        info.attachments@.len() as int,
                        spec_att_key(#[trigger] out@[j]),
                    ) && spec_attachment_index(
                        store.attachments@,
                        iid,
                        spec_att_key(out@[j]),
                    ) == -1,
                    UpdatedDeviceAttachment::Existing { attachment_id, .. } => spec_att_key(
                        #[trigger] out@[j],
                    ) == attachment_id@,
                }),
            unique_att_upsert_keys(out@),
            forall|j: int|
                0 <= j < info.attachments@.len() ==> spec_one_attachment_rejection(
                    before_atts@,
                    info.attachments@,
                    j,
                    max_attachment_size,
                ) is None,
        decreases info.attachments@.len() - i,
    {
        let op: DeviceAttachmentUpsert = match &info.attachments[i] {
            UpdatedDeviceAttachment::New { description, file_name, file_data } => {
                let aid = match gen_new_attachment_id(store, iid, &info.attachments, &out) {
                    Ok(id) => id,
                    Err(e) => {
                        proof {
                            assert((#[trigger] info.attachments@[i as int]) is New);
                        }
                        return Err(e);
                    },
                };
                let bytes = match base64_decode(file_data.as_str()) {
                    Ok(b) => b,
                    Err(_) => {
                        proof {
                            assert(spec_one_attachment_rejection(
                                before_atts@,
                                info.attachments@,
                                i as int,
                                max_attachment_size,
                            ) is Some);
                            assert(false);
                        }
                        return Err(Error::NoContext(InternalError::Assertion(
                            "a validated payload failed to decode",
                        )));
                    },
                };
                let trimmed_name = trim_ascii(file_name);
                let fname = if trimmed_name.as_str().unicode_len() == 0 {
                    default_file_name(device_id, &aid)
                } else {
                    trimmed_name
                };
                DeviceAttachmentUpsert::New(
                    DeviceAttachmentNew {
                        device_key_info_id: iid,
                        attachment_id: aid,
                        description: trim_ascii(description),
                        file_name: fname,
                        file_data: bytes,
                    },
                )
            },
            UpdatedDeviceAttachment::Existing { attachment_id, deleted, description } => {
                if *deleted {
                    DeviceAttachmentUpsert::Delete(attachment_id.clone())
                } else {
                    DeviceAttachmentUpsert::Existing(
                        DeviceAttachmentExisting {
                            device_key_info_id: iid,
                            attachment_id: attachment_id.clone(),
                            description: description.clone(),
                        },
                    )
                }
            },
        };
        proof {
            assert(spec_one_attachment_rejection(
                before_atts@,
                info.attachments@,
                i as int,
                max_attachment_size,
            ) is None);
            assert(att_op_matches(info.attachments@[i as int], op, iid, device_id@));
        }
        let ghost prev = out@;
        out.push(op);
        proof {
            assert(out@.drop_last() =~= prev);
            assert forall|j: int, k: int| 0 <= j < k < out@.len() implies spec_att_key(
                #[trigger] out@[j],
            ) != spec_att_key(#[trigger] out@[k]) by {
                if k == out@.len() - 1 {
                    match info.attachments@[i as int] {
                        UpdatedDeviceAttachment::New { .. } => {},
                        UpdatedDeviceAttachment::Existing { attachment_id, .. } => {
                            assert(!att_id_among(info.attachments@, i as int, attachment_id@));
                            match info.attachments@[j] {
                                UpdatedDeviceAttachment::Existing { attachment_id: oj, .. } => {
                                    assert(((#[trigger] info.attachments@[j])
                                        matches UpdatedDeviceAttachment::Existing {
                                        attachment_id: o,
                                        ..
                                    } && o@ == oj@));
                                    assert(oj@ != attachment_id@);
                                },
                                UpdatedDeviceAttachment::New { .. } => {
                                    assert(!att_id_among(
                                        info.attachments@,
                                        info.attachments@.len() as int,
                                        spec_att_key(out@[j]),
                                    ));
                                    assert(((#[trigger] info.attachments@[i as int])
                                        matches UpdatedDeviceAttachment::Existing {
                                        attachment_id: o,
                                        ..
                                    } && o@ == attachment_id@));
                                },
                            }
                        },
                    }
                }
            }
        }
        i += 1;
    }
    proof {
        assert forall|i2: int|
            0 <= i2 < out@.len() && !((#[trigger] out@[i2]) is New) implies spec_find_att(
            before_atts@,
            spec_att_key(out@[i2]),
        ) is Some by {
            assert(att_op_matches(info.attachments@[i2], out@[i2], iid, device_id@));
            assert(spec_one_attachment_rejection(
                before_atts@,
                info.attachments@,
                i2,
                max_attachment_size,
            ) is None);
            match info.attachments@[i2] {
                UpdatedDeviceAttachment::New { .. } => {
                    assert(out@[i2] is New);
                },
                UpdatedDeviceAttachment::Existing { attachment_id, .. } => {
                    assert(spec_att_key(out@[i2]) == attachment_id@);
                },
            }
        }
        assert forall|i2: int|
            0 <= i2 < out@.len() && (#[trigger] out@[i2]) is New implies spec_attachment_index(
            store.attachments@,
            iid,
            spec_att_key(out@[i2]),
        ) == -1 by {
            assert(att_op_matches(info.attachments@[i2], out@[i2], iid, device_id@));
            match info.attachments@[i2] {
                UpdatedDeviceAttachment::New { .. } => {},
                UpdatedDeviceAttachment::Existing { deleted, .. } => {
                    assert(!(out@[i2] is New));
                },
            }
        }
    }
    Ok(out)
}


// Applying a normalized after-state to the store

/// One audit row was appended, carrying the expected stamps.
pub open spec fn changes_appended(
    old_changes: Seq<crate::models::DeviceChange>,
    new_changes: Seq<crate::models::DeviceChange>,
    iid: i32,
    user_id_value: i32,
    now: i64,
) -> bool {
    &&& new_changes.len() == old_changes.len() + 1
    &&& new_changes.drop_last() == old_changes
    &&& change_row_ok(new_changes.last(), iid, user_id_value, now)
}

/// What one applied component operation guarantees of the component table:
/// an insert-or-update leaves the row present with the submitted type, and a
/// deletion leaves any row with that identifier soft-deleted.
pub open spec fn comp_applied(
    comps: Seq<crate::models::DeviceComponentRow>,
    iid: i32,
    op: DeviceComponentUpsert,
) -> bool {
    match op {
        DeviceComponentUpsert::NewExisting(n) => ({
            let ci = spec_component_index(comps, iid, n.component_id@);
            ci != -1 && comps[ci].component_type == n.component_type
        }),
        DeviceComponentUpsert::Delete(id) => ({
            let ci = spec_component_index(comps, iid, id@);
            ci != -1 ==> comps[ci].deleted
        }),
    }
}

/// Whether the component row keyed by (`iid`, `key`) is exactly as it was:
/// present in the new table iff it was present before, at the same index and
/// unchanged.
pub open spec fn comp_row_untouched(
    o_comps: Seq<crate::models::DeviceComponentRow>,
    n_comps: Seq<crate::models::DeviceComponentRow>,
    iid: i32,
    key: Seq<char>,
) -> bool {
    let ci_pre = spec_component_index(o_comps, iid, key);
    let ci_cur = spec_component_index(n_comps, iid, key);
    &&& (ci_pre == -1 <==> ci_cur == -1)
    &&& (ci_pre != -1 ==> ci_cur == ci_pre && n_comps[ci_cur] == o_comps[ci_pre])
}

/// What an insert-or-update component operation guarantees about liveness: a
/// freshly inserted row is live, and an update leaves the soft-deletion flag
/// exactly as it was.
pub open spec fn comp_op_liveness(
    o_comps: Seq<crate::models::DeviceComponentRow>,
    n_comps: Seq<crate::models::DeviceComponentRow>,
    iid: i32,
    op: DeviceComponentUpsert,
) -> bool {
    match op {
        DeviceComponentUpsert::NewExisting(n) => ({
            let ci_new = spec_component_index(n_comps, iid, n.component_id@);
            let ci_old = spec_component_index(o_comps, iid, n.component_id@);
            &&& ci_new != -1
            &&& (ci_old == -1 ==> !n_comps[ci_new].deleted)
            &&& (ci_old != -1 ==> n_comps[ci_new].deleted == o_comps[ci_old].deleted)
        }),
        DeviceComponentUpsert::Delete(_) => true,
    }
}

/// What one applied attachment operation guarantees of the attachment table:
/// a new attachment is stored whole, an update leaves the new description,
/// and a deletion leaves the row soft-deleted.
pub open spec fn att_applied(
    atts: Seq<crate::models::DeviceAttachmentRow>,
    iid: i32,
    op: DeviceAttachmentUpsert,
) -> bool {
    match op {
        DeviceAttachmentUpsert::New(n) => ({
            let ai = spec_attachment_index(atts, iid, n.attachment_id@);
            &&& ai != -1
            &&& atts[ai].description == n.description
            &&& atts[ai].file_name == n.file_name
            &&& atts[ai].file_data@ == n.file_data@
            &&& !atts[ai].deleted
        }),
        DeviceAttachmentUpsert::Existing(e) => ({
            let ai = spec_attachment_index(atts, iid, e.attachment_id@);
            ai != -1 ==> atts[ai].description == e.description
        }),
        DeviceAttachmentUpsert::Delete(id) => ({
            let ai = spec_attachment_index(atts, iid, id@);
            ai != -1 ==> atts[ai].deleted
        }),
    }
}

/// The fields an appended audit row always carries.
pub open spec fn change_row_ok(
    row: crate::models::DeviceChange,
    iid: i32,
    user_id_value: i32,
    now: i64,
) -> bool {
    &&& row.device_key_info_id == iid
    &&& row.timestamp == now
    &&& !row.done_automatically
    &&& row.user_id == Some(user_id_value)
}

/// Serializes a diff and appends it to the change log, stamped with the
/// current time and the acting user.
pub fn log_change(
    store: &mut Store,
    device_id: i32,
    user_id_value: i32,
    diff: &DeviceDiff,
    now: i64,
) -> (r: Result<(), Error>)
    requires
        old(store).wf(),
        old(store).next_id < i32::MAX,
    ensures
        final(store).wf(),
        r is Ok,
        final(store).changes@ == old(store).changes@.push(final(store).changes@.last()),
        final(store).changes@.len() == old(store).changes@.len() + 1,
        change_row_ok(final(store).changes@.last(), device_id, user_id_value, now),
        final(store).changes@.last().change@ == spec_device_diff_json(*diff),
        final(store).locations@ == old(store).locations@,
        final(store).users@ == old(store).users@,
        final(store).devices@ == old(store).devices@,
        final(store).device_data@ == old(store).device_data@,
        final(store).components@ == old(store).components@,
        final(store).attachments@ == old(store).attachments@,
{
    let serialised = diff_to_json(diff);
    let entry = DeviceChangeNew {
        device_key_info_id: device_id,
        timestamp: now,
        done_automatically: false,
        user_id: user_id_value,
        change: serialised,
    };
    match store.insert_change_log(&entry) {
        Ok(_) => {
            proof {
                assert(store.changes@.drop_last() =~= old(store).changes@);
                assert(store.changes@ =~= old(store).changes@.push(store.changes@.last()));
            }
            Ok(())
        },
        Err(e) => {
            proof {
                assert(false);
            }
            Err(e)
        },
    }
}

/// Writes a normalized after-state to the store — key information, column
/// values, components and attachments, each through its upsert operation —
/// then computes the diff against the before-snapshot and appends the audit
/// row when anything changed. Given the reserved key headroom, this cannot
/// fail.
#[verifier::rlimit(100)]
#[verifier::spinoff_prover]
pub fn apply_after_state(
    store: &mut Store,
    before: Option<&Snapshot>,
    iid: i32,
    after: &AfterState,
    user_id_value: i32,
    now: i64,
) -> (r: Result<(), Error>)
    requires
        old(store).wf(),
        ({
            let idx = spec_device_index(old(store).devices@, after.key_info.device_id@);
            if idx == -1 {
                iid == old(store).next_id
            } else {
                old(store).devices@[idx].id == iid
            }
        }),
        old(store).next_id as int + 2 + after.data@.len() + after.components@.len()
            + after.attachments@.len() <= i32::MAX as int,
        forall|i: int|
            0 <= i < after.data@.len() ==> (#[trigger] after.data@[i]).device_key_info_id == iid,
        forall|i: int|
            0 <= i < after.components@.len() ==> ((#[trigger] after.components@[i]) matches
            DeviceComponentUpsert::NewExisting(n) ==> n.device_key_info_id == iid),
        forall|i: int|
            0 <= i < after.attachments@.len() && (#[trigger] after.attachments@[i]) is New
                ==> (after.attachments@[i] matches DeviceAttachmentUpsert::New(n)
                && n.device_key_info_id == iid && spec_attachment_index(
                old(store).attachments@,
                iid,
                n.attachment_id@,
            ) == -1),
        forall|i: int|
            0 <= i < after.attachments@.len() && !((#[trigger] after.attachments@[i]) is New)
                ==> (match after.attachments@[i] {
                DeviceAttachmentUpsert::Existing(e) => e.device_key_info_id == iid,
                _ => true,
            }),
        unique_att_upsert_keys(after.attachments@),
        match before {
            Some(b) => diff_inputs_well_keyed(*b, *after),
            None => new_inputs_well_keyed(*after),
        },
    ensures
        final(store).wf(),
        r is Ok,
        final(store).locations@ == old(store).locations@,
        final(store).users@ == old(store).users@,
        ({
            let idx = spec_device_index(old(store).devices@, after.key_info.device_id@);
            if idx == -1 {
                final(store).devices@ == old(store).devices@.push(
                    DeviceKeyInfo {
                        id: iid,
                        device_id: after.key_info.device_id,
                        deleted: false,
                        location_id: after.key_info.location_id,
                    },
                )
            } else {
                final(store).devices@ == old(store).devices@.update(
                    idx,
                    DeviceKeyInfo {
                        location_id: after.key_info.location_id,
                        ..old(store).devices@[idx]
                    },
                )
            }
        }),
        forall|i: int|
            0 <= i < after.data@.len() ==> ({
                let di = spec_data_index(
                    final(store).device_data@,
                    iid,
                    (#[trigger] after.data@[i]).column_definition_id,
                );
                di != -1 && final(store).device_data@[di].data_value == after.data@[i].data_value
            }),
        forall|m: int|
            0 <= m < old(store).device_data@.len() && !((
            #[trigger] old(store).device_data@[m]).device_key_info_id == iid && col_in_news(
                after.data@,
                old(store).device_data@[m].column_definition_id,
            )) ==> final(store).device_data@[m] == old(store).device_data@[m],
        forall|t: int|
            0 <= t < after.components@.len() ==> comp_applied(
                final(store).components@,
                iid,
                #[trigger] after.components@[t],
            ),
        forall|t: int|
            0 <= t < after.attachments@.len() ==> att_applied(
                final(store).attachments@,
                iid,
                #[trigger] after.attachments@[t],
            ),
        final(store).components@.len() >= old(store).components@.len(),
        forall|m: int|
            0 <= m < old(store).components@.len() && !((
            #[trigger] old(store).components@[m]).device_key_info_id == iid && comp_key_in_upserts(
                after.components@,
                old(store).components@[m].component_id@,
            )) ==> final(store).components@[m] == old(store).components@[m],
        forall|m: int|
            old(store).components@.len() <= m < final(store).components@.len() ==> (
            #[trigger] final(store).components@[m]).device_key_info_id == iid
                && comp_key_in_upserts(
                after.components@,
                final(store).components@[m].component_id@,
            ),
        forall|t: int|
            0 <= t < after.components@.len() ==> comp_op_liveness(
                old(store).components@,
                final(store).components@,
                iid,
                #[trigger] after.components@[t],
            ),
        final(store).attachments@.len() >= old(store).attachments@.len(),
        forall|m: int|
            0 <= m < old(store).attachments@.len() && !((
            #[trigger] old(store).attachments@[m]).device_key_info_id == iid && att_key_in_upserts(
                after.attachments@,
                old(store).attachments@[m].attachment_id@,
            )) ==> final(store).attachments@[m] == old(store).attachments@[m],
        forall|m: int|
            old(store).attachments@.len() <= m < final(store).attachments@.len() ==> (
            #[trigger] final(store).attachments@[m]).device_key_info_id == iid
                && att_key_in_upserts(
                after.attachments@,
                final(store).attachments@[m].attachment_id@,
            ),
        match before {
            Some(b) => {
                &&& (spec_no_change(*b, *after) ==> final(store).changes@ == old(store).changes@)
                &&& (!spec_no_change(*b, *after) ==> (changes_appended(
                    old(store).changes@,
                    final(store).changes@,
                    iid,
                    user_id_value,
                    now,
                ) && (exists|d: DeviceDiff|
                    diff_reflects(d, *b, *after) && final(store).changes@.last().change@
                        == spec_device_diff_json(d))))
            },
            None => changes_appended(
                old(store).changes@,
                final(store).changes@,
                iid,
                user_id_value,
                now,
            ) && (exists|d: DeviceDiff|
                diff_reflects_new(d, *after) && final(store).changes@.last().change@
                    == spec_device_diff_json(d)),
        },
{
    let ghost pre = *old(store);

    // Key information
    match store.upsert_key_info(&after.key_info) {
        Ok(_) => (),
        Err(e) => {
            proof {
                assert(false);
            }
            return Err(e);
        },
    }
    let ghost devices_after = store.devices@;

    // Column values
    proof {
        match before {
            Some(_) => assert(unique_new_cols(after.data@)),
            None => assert(unique_new_cols(after.data@)),
        }
    }
    let mut i: usize = 0;
    while i < after.data.len()
        invariant
            store.wf(),
            i <= after.data@.len(),
            unique_new_cols(after.data@),
            forall|m: int|
                0 <= m < after.data@.len() ==> (#[trigger] after.data@[m]).device_key_info_id
                    == iid,
            store.next_id as int + 1 + (after.data@.len() - i) + after.components@.len()
                + after.attachments@.len() <= i32::MAX as int,
            store.devices@ == devices_after,
            store.locations@ == pre.locations@,
            store.users@ == pre.users@,
            store.components@ == pre.components@,
            store.attachments@ == pre.attachments@,
            store.changes@ == pre.changes@,
            store.device_data@.len() >= pre.device_data@.len(),
            forall|m: int|
                0 <= m < pre.device_data@.len() ==> (
                #[trigger] store.device_data@[m]).device_key_info_id
                    == pre.device_data@[m].device_key_info_id
                    && store.device_data@[m].column_definition_id
                    == pre.device_data@[m].column_definition_id,
            forall|j: int|
                0 <= j < i ==> ({
                    let dj = spec_data_index(
                        store.device_data@,
                        iid,
                        (#[trigger] after.data@[j]).column_definition_id,
                    );
                    dj != -1 && store.device_data@[dj].data_value == after.data@[j].data_value
                }),
            forall|m: int|
                0 <= m < pre.device_data@.len() && !((
                #[trigger] pre.device_data@[m]).device_key_info_id == iid && col_in_news(
                    after.data@.take(i as int),
                    pre.device_data@[m].column_definition_id,
                )) ==> store.device_data@[m] == pre.device_data@[m],
        decreases after.data@.len() - i,
    {
        let ghost prev_table = store.device_data@;
        match store.upsert_column_value(&after.data[i]) {
            Ok(_) => (),
            Err(e) => {
                proof {
                    assert(false);
                }
                return Err(e);
            },
        }
        proof {
            let ci = after.data@[i as int].column_definition_id;
            let di = spec_data_index(prev_table, iid, ci);
            crate::store::lemma_data_index(prev_table, iid, ci);
            if di != -1 {
                assert(forall|m: int|
                    0 <= m < prev_table.len() ==> (#[trigger] store.device_data@[m]).device_key_info_id
                        == prev_table[m].device_key_info_id
                        && store.device_data@[m].column_definition_id
                        == prev_table[m].column_definition_id);
            }
            // the values written for earlier columns survive this write
            assert forall|j: int| 0 <= j < i + 1 implies ({
                let dj = spec_data_index(
                    store.device_data@,
                    iid,
                    (#[trigger] after.data@[j]).column_definition_id,
                );
                dj != -1 && store.device_data@[dj].data_value == after.data@[j].data_value
            }) by {
                let cj = after.data@[j].column_definition_id;
                crate::store::lemma_data_index(prev_table, iid, cj);
                if j < i {
                    let dj_old = spec_data_index(prev_table, iid, cj);
                    if di != -1 {
                        lemma_data_index_same_keys(prev_table, store.device_data@, iid, cj);
                        assert(cj != ci);
                        assert(prev_table[dj_old].column_definition_id == cj
                            && prev_table[di].column_definition_id == ci);
                        assert(dj_old != di);
                    } else {
                        lemma_data_index_push(
                            prev_table,
                            store.device_data@.last(),
                            iid,
                            cj,
                        );
                        assert(store.device_data@.drop_last() =~= prev_table);
                        assert(forall|m: int|
                            0 <= m < prev_table.len() ==> #[trigger] store.device_data@[m]
                                == prev_table[m]);
                        assert(store.device_data@ == prev_table.push(store.device_data@.last()));
                    }
                } else {
                    if di != -1 {
                        lemma_data_index_same_keys(prev_table, store.device_data@, iid, cj);
                        assert(store.device_data@[di].data_value == after.data@[i as int].data_value);
                    } else {
                        lemma_data_index_push(
                            prev_table,
                            store.device_data@.last(),
                            iid,
                            cj,
                        );
                        assert(store.device_data@ == prev_table.push(store.device_data@.last()));
                        assert(store.device_data@.last().data_value == after.data@[
                            i as int
                        ].data_value);
                    }
                }
            }
            // rows not named by the submission so far stay exactly as they were
            assert forall|m: int|
                0 <= m < pre.device_data@.len() && !((
                #[trigger] pre.device_data@[m]).device_key_info_id == iid && col_in_news(
                    after.data@.take(i + 1),
                    pre.device_data@[m].column_definition_id,
                )) implies store.device_data@[m] == pre.device_data@[m] by {
                assert(forall|t: int|
                    0 <= t < i ==> #[trigger] after.data@.take(i + 1)[t] == after.data@.take(
                        i as int,
                    )[t]);
                assert(after.data@.take(i + 1)[i as int] == after.data@[i as int]);
                if di != -1 && m == di {
                    assert(pre.device_data@[m].device_key_info_id == iid
                        && pre.device_data@[m].column_definition_id == ci);
                    assert(col_in_news(after.data@.take(i + 1), ci));
                    assert(false);
                }
            }
        }
        i += 1;
    }
    proof {
        assert(after.data@.take(after.data@.len() as int) =~= after.data@);
        assert forall|m: int|
            0 <= m < pre.device_data@.len() && !((
            #[trigger] pre.device_data@[m]).device_key_info_id == iid && col_in_news(
                after.data@,
                pre.device_data@[m].column_definition_id,
            )) implies store.device_data@[m] == pre.device_data@[m] by {}
    }

    // Components
    let ghost pre_data = store.device_data@;
    proof {
        match before {
            Some(_) => assert(unique_comp_upsert_keys(after.components@)),
            None => assert(unique_comp_upsert_keys(after.components@)),
        }
    }
    let mut j: usize = 0;
    while j < after.components.len()
        invariant
            store.wf(),
            j <= after.components@.len(),
            unique_comp_upsert_keys(after.components@),
            store.next_id as int + 1 + (after.components@.len() - j) + after.attachments@.len()
                <= i32::MAX as int,
            store.devices@ == devices_after,
            store.locations@ == pre.locations@,
            store.users@ == pre.users@,
            store.device_data@ == pre_data,
            store.attachments@ == pre.attachments@,
            store.changes@ == pre.changes@,
            forall|m: int|
                0 <= m < after.components@.len() ==> ((#[trigger] after.components@[m]) matches
                DeviceComponentUpsert::NewExisting(n) ==> n.device_key_info_id == iid),
            forall|t: int| 0 <= t < j ==> comp_applied(store.components@, iid, #[trigger] after.components@[t]),
            store.components@.len() >= pre.components@.len(),
            forall|m: int|
                0 <= m < pre.components@.len() ==> (
                #[trigger] store.components@[m]).device_key_info_id
                    == pre.components@[m].device_key_info_id && store.components@[m].component_id@
                    == pre.components@[m].component_id@,
            forall|m: int|
                0 <= m < pre.components@.len() && !((
                #[trigger] pre.components@[m]).device_key_info_id == iid && comp_key_in_upserts(
                    after.components@,
                    pre.components@[m].component_id@,
                )) ==> store.components@[m] == pre.components@[m],
            forall|m: int|
                pre.components@.len() <= m < store.components@.len() ==> (
                #[trigger] store.components@[m]).device_key_info_id == iid && comp_key_in_upserts(
                    after.components@,
                    store.components@[m].component_id@,
                ),
            forall|t: int|
                j <= t < after.components@.len() ==> comp_row_untouched(
                    pre.components@,
                    store.components@,
                    iid,
                    spec_comp_key(#[trigger] after.components@[t]),
                ),
            forall|t: int|
                0 <= t < j ==> comp_op_liveness(
                    pre.components@,
                    store.components@,
                    iid,
                    #[trigger] after.components@[t],
                ),
        decreases after.components@.len() - j,
    {
        let ghost prev_comps = store.components@;
        match &after.components[j] {
            DeviceComponentUpsert::NewExisting(n) => {
                match store.upsert_component(n) {
                    Ok(_) => (),
                    Err(e) => {
                        proof {
                            assert(false);
                        }
                        return Err(e);
                    },
                }
            },
            DeviceComponentUpsert::Delete(id) => {
                store.soft_delete_component(iid, id);
            },
        }
        proof {
            let kj = spec_comp_key(after.components@[j as int]);
            let dj = spec_component_index(prev_comps, iid, kj);
            crate::store::lemma_component_index(prev_comps, iid, kj);
            assert forall|t: int| 0 <= t < j + 1 implies comp_applied(
                store.components@,
                iid,
                #[trigger] after.components@[t],
            ) by {
                let kt = spec_comp_key(after.components@[t]);
                crate::store::lemma_component_index(prev_comps, iid, kt);
                if t < j {
                    assert(kt != kj);
                    if dj != -1 {
                        lemma_component_index_same_keys(prev_comps, store.components@, iid, kt);
                        let dt = spec_component_index(prev_comps, iid, kt);
                        if dt != -1 {
                            assert(prev_comps[dt].component_id@ == kt
                                && prev_comps[dj].component_id@ == kj);
                            assert(dt != dj);
                        }
                    } else {
                        match after.components@[j as int] {
                            DeviceComponentUpsert::NewExisting(_) => {
                                lemma_component_index_push(
                                    prev_comps,
                                    store.components@.last(),
                                    iid,
                                    kt,
                                );
                                assert(store.components@.drop_last() =~= prev_comps);
                                assert(forall|m: int|
                                    0 <= m < prev_comps.len() ==> #[trigger] store.components@[m]
                                        == prev_comps[m]);
                                assert(store.components@ == prev_comps.push(
                                    store.components@.last(),
                                ));
                            },
                            DeviceComponentUpsert::Delete(_) => {
                                assert(store.components@ == prev_comps);
                            },
                        }
                    }
                } else {
                    if dj != -1 {
                        lemma_component_index_same_keys(prev_comps, store.components@, iid, kj);
                    } else {
                        match after.components@[j as int] {
                            DeviceComponentUpsert::NewExisting(_) => {
                                lemma_component_index_push(
                                    prev_comps,
                                    store.components@.last(),
                                    iid,
                                    kj,
                                );
                                assert(store.components@ == prev_comps.push(
                                    store.components@.last(),
                                ));
                            },
                            DeviceComponentUpsert::Delete(_) => {
                                assert(store.components@ == prev_comps);
                            },
                        }
                    }
                }
            }
            // prefix keys, the frame, and the appended region
            if dj == -1 {
                match after.components@[j as int] {
                    DeviceComponentUpsert::NewExisting(_) => {
                        assert(store.components@.drop_last() =~= prev_comps);
                        assert(forall|m: int|
                            0 <= m < prev_comps.len() ==> #[trigger] store.components@[m]
                                == prev_comps[m]);
                        assert(store.components@.last().device_key_info_id == iid
                            && store.components@.last().component_id@ == kj);
                        assert(spec_comp_key(#[trigger] after.components@[j as int]) == kj);
                        assert(comp_key_in_upserts(after.components@, kj));
                    },
                    DeviceComponentUpsert::Delete(_) => {
                        assert(store.components@ == prev_comps);
                    },
                }
            } else {
                assert(prev_comps[dj].device_key_info_id == iid && prev_comps[dj].component_id@
                    == kj);
                assert(spec_comp_key(#[trigger] after.components@[j as int]) == kj);
                assert(comp_key_in_upserts(after.components@, kj));
                assert(forall|m: int|
                    0 <= m < store.components@.len() && m != dj ==> #[trigger] store.components@[m]
                        == prev_comps[m]);
                assert(store.components@[dj].device_key_info_id
                    == prev_comps[dj].device_key_info_id && store.components@[dj].component_id@
                    == prev_comps[dj].component_id@);
            }
            assert forall|m: int|
                0 <= m < pre.components@.len() && !((
                #[trigger] pre.components@[m]).device_key_info_id == iid && comp_key_in_upserts(
                    after.components@,
                    pre.components@[m].component_id@,
                )) implies store.components@[m] == pre.components@[m] by {
                if dj != -1 && m == dj {
                    assert(pre.components@[m].device_key_info_id == iid
                        && pre.components@[m].component_id@ == kj);
                    assert(false);
                }
            }
            // rows keyed by operations still to come are exactly as before
            assert forall|t: int|
                j + 1 <= t < after.components@.len() implies comp_row_untouched(
                pre.components@,
                store.components@,
                iid,
                spec_comp_key(#[trigger] after.components@[t]),
            ) by {
                let kt = spec_comp_key(after.components@[t]);
                assert(kt != kj);
                crate::store::lemma_component_index(prev_comps, iid, kt);
                crate::store::lemma_component_index(pre.components@, iid, kt);
                if dj != -1 {
                    lemma_component_index_same_keys(prev_comps, store.components@, iid, kt);
                    let ct = spec_component_index(prev_comps, iid, kt);
                    if ct != -1 {
                        assert(prev_comps[ct].component_id@ == kt && prev_comps[dj].component_id@
                            == kj);
                        assert(ct != dj);
                    }
                } else {
                    match after.components@[j as int] {
                        DeviceComponentUpsert::NewExisting(_) => {
                            lemma_component_index_push(
                                prev_comps,
                                store.components@.last(),
                                iid,
                                kt,
                            );
                        },
                        DeviceComponentUpsert::Delete(_) => {},
                    }
                }
            }
            // liveness of everything applied so far
            assert forall|t: int| 0 <= t < j + 1 implies comp_op_liveness(
                pre.components@,
                store.components@,
                iid,
                #[trigger] after.components@[t],
            ) by {
                let kt = spec_comp_key(after.components@[t]);
                crate::store::lemma_component_index(prev_comps, iid, kt);
                crate::store::lemma_component_index(pre.components@, iid, kt);
                if t < j {
                    assert(kt != kj);
                    match after.components@[t] {
                        DeviceComponentUpsert::NewExisting(_) => {
                            if dj != -1 {
                                lemma_component_index_same_keys(
                                    prev_comps,
                                    store.components@,
                                    iid,
                                    kt,
                                );
                                let ct = spec_component_index(prev_comps, iid, kt);
                                assert(prev_comps[ct].component_id@ == kt
                                    && prev_comps[dj].component_id@ == kj);
                                assert(ct != dj);
                            } else {
                                match after.components@[j as int] {
                                    DeviceComponentUpsert::NewExisting(_) => {
                                        lemma_component_index_push(
                                            prev_comps,
                                            store.components@.last(),
                                            iid,
                                            kt,
                                        );
                                    },
                                    DeviceComponentUpsert::Delete(_) => {},
                                }
                            }
                        },
                        DeviceComponentUpsert::Delete(_) => {},
                    }
                } else {
                    assert(comp_row_untouched(pre.components@, prev_comps, iid, kj));
                    match after.components@[t] {
                        DeviceComponentUpsert::NewExisting(_) => {
                            if dj != -1 {
                                lemma_component_index_same_keys(
                                    prev_comps,
                                    store.components@,
                                    iid,
                                    kj,
                                );
                                assert(store.components@[dj].deleted == prev_comps[dj].deleted);
                            } else {
                                lemma_component_index_push(
                                    prev_comps,
                                    store.components@.last(),
                                    iid,
                                    kj,
                                );
                                assert(spec_component_index(store.components@, iid, kj)
                                    == prev_comps.len() as int);
                                assert(!store.components@.last().deleted);
                            }
                        },
                        DeviceComponentUpsert::Delete(_) => {},
                    }
                }
            }
        }
        j += 1;
    }

    // Attachments
    let ghost pre_atts = store.attachments@;
    let ghost post_comps = store.components@;
    let mut k: usize = 0;
    while k < after.attachments.len()
        invariant
            store.wf(),
            k <= after.attachments@.len(),
            store.device_data@ == pre_data,
            store.components@ == post_comps,
            store.next_id as int + 1 + (after.attachments@.len() - k) <= i32::MAX as int,
            store.devices@ == devices_after,
            store.locations@ == pre.locations@,
            store.users@ == pre.users@,
            store.changes@ == pre.changes@,
            pre_atts == pre.attachments@,
            store.attachments@.len() >= pre_atts.len(),
            forall|m: int|
                0 <= m < pre_atts.len() ==> (#[trigger] store.attachments@[m]).device_key_info_id
                    == pre_atts[m].device_key_info_id && store.attachments@[m].attachment_id@
                    == pre_atts[m].attachment_id@,
            forall|m: int, t: int|
                pre_atts.len() <= m < store.attachments@.len() && k <= t
                    < after.attachments@.len() && (#[trigger] after.attachments@[t]) is New
                    ==> spec_att_key(after.attachments@[t]) != (
                #[trigger] store.attachments@[m]).attachment_id@,
            forall|m: int|
                0 <= m < pre_atts.len() && !((#[trigger] pre_atts[m]).device_key_info_id == iid
                    && att_key_in_upserts(after.attachments@, pre_atts[m].attachment_id@))
                    ==> store.attachments@[m] == pre_atts[m],
            forall|m: int|
                pre_atts.len() <= m < store.attachments@.len() ==> (
                #[trigger] store.attachments@[m]).device_key_info_id == iid && att_key_in_upserts(
                    after.attachments@,
                    store.attachments@[m].attachment_id@,
                ),
            unique_att_upsert_keys(after.attachments@),
            forall|m: int|
                0 <= m < after.attachments@.len() && (#[trigger] after.attachments@[m]) is New
                    ==> (after.attachments@[m] matches DeviceAttachmentUpsert::New(n)
                    && n.device_key_info_id == iid && spec_attachment_index(
                    pre.attachments@,
                    iid,
                    n.attachment_id@,
                ) == -1),
            forall|t: int|
                0 <= t < k ==> att_applied(store.attachments@, iid, #[trigger] after.attachments@[t]),
        decreases after.attachments@.len() - k,
    {
        let ghost prev_arm_atts = store.attachments@;
        match &after.attachments[k] {
            DeviceAttachmentUpsert::New(n) => {
                proof {
                    lemma_attachment_index(store.attachments@, iid, n.attachment_id@);
                    lemma_attachment_index(pre.attachments@, iid, n.attachment_id@);
                    if spec_attachment_index(store.attachments@, iid, n.attachment_id@) != -1 {
                        let m = spec_attachment_index(store.attachments@, iid, n.attachment_id@);
                        if m < pre_atts.len() {
                            assert(pre.attachments@[m].device_key_info_id == iid
                                && pre.attachments@[m].attachment_id@ == n.attachment_id@);
                            assert(false);
                        } else {
                            assert((#[trigger] after.attachments@[k as int]) is New
                                && spec_att_key(after.attachments@[k as int])
                                == n.attachment_id@);
                            assert(false);
                        }
                    }
                }
                let ghost prev_atts = store.attachments@;
                match store.insert_attachment(n) {
                    Ok(_) => {
                        proof {
                            assert(store.attachments@.drop_last() == prev_atts);
                            assert(forall|m: int|
                                0 <= m < store.attachments@.len() - 1
                                    ==> #[trigger] store.attachments@[m] == prev_atts[m]);
                            assert(store.attachments@.last().attachment_id@ == n.attachment_id@);
                            assert(after.attachments@[k as int]
                                == DeviceAttachmentUpsert::New(*n));
                            assert((#[trigger] after.attachments@[k as int]) is New
                                && spec_att_key(after.attachments@[k as int]) == n.attachment_id@);
                        }
                    },
                    Err(e) => {
                        proof {
                            assert(false);
                        }
                        return Err(e);
                    },
                }
            },
            DeviceAttachmentUpsert::Existing(e) => {
                let ghost prev_atts = store.attachments@;
                proof {
                    lemma_attachment_index(store.attachments@, iid, e.attachment_id@);
                }
                store.update_attachment_description(iid, &e.attachment_id, &e.description);
                proof {
                    assert(store.attachments@.len() == prev_atts.len());
                    assert forall|m: int| 0 <= m < store.attachments@.len() implies (
                    #[trigger] store.attachments@[m]).device_key_info_id
                        == prev_atts[m].device_key_info_id && store.attachments@[m].attachment_id@
                        == prev_atts[m].attachment_id@ by {}
                }
            },
            DeviceAttachmentUpsert::Delete(id) => {
                let ghost prev_atts = store.attachments@;
                proof {
                    lemma_attachment_index(store.attachments@, iid, id@);
                }
                store.soft_delete_attachment(iid, id);
                proof {
                    assert(store.attachments@.len() == prev_atts.len());
                    assert forall|m: int| 0 <= m < store.attachments@.len() implies (
                    #[trigger] store.attachments@[m]).device_key_info_id
                        == prev_atts[m].device_key_info_id && store.attachments@[m].attachment_id@
                        == prev_atts[m].attachment_id@ by {}
                }
            },
        }
        proof {
            let kk = spec_att_key(after.attachments@[k as int]);
            let dk = spec_attachment_index(prev_arm_atts, iid, kk);
            lemma_attachment_index(prev_arm_atts, iid, kk);
            assert forall|m: int| 0 <= m < pre_atts.len() implies (
            #[trigger] store.attachments@[m]).device_key_info_id
                == pre_atts[m].device_key_info_id && store.attachments@[m].attachment_id@
                == pre_atts[m].attachment_id@ by {
                assert(prev_arm_atts[m].device_key_info_id == pre_atts[m].device_key_info_id
                    && prev_arm_atts[m].attachment_id@ == pre_atts[m].attachment_id@);
            }
            assert forall|m: int, t: int|
                pre_atts.len() <= m < store.attachments@.len() && k + 1 <= t
                    < after.attachments@.len() && (#[trigger] after.attachments@[t]) is New
                    implies spec_att_key(after.attachments@[t]) != (
            #[trigger] store.attachments@[m]).attachment_id@ by {
                if m < prev_arm_atts.len() {
                    assert(store.attachments@[m].attachment_id@
                        == prev_arm_atts[m].attachment_id@);
                } else {
                    assert(after.attachments@[k as int] is New);
                    assert(spec_att_key(after.attachments@[t]) != spec_att_key(
                        after.attachments@[k as int],
                    ));
                    assert(store.attachments@[m].attachment_id@ == spec_att_key(
                        after.attachments@[k as int],
                    ));
                }
            }
            assert(spec_att_key(#[trigger] after.attachments@[k as int]) == kk);
            assert(att_key_in_upserts(after.attachments@, kk));
            assert forall|m: int|
                0 <= m < pre_atts.len() && !((#[trigger] pre_atts[m]).device_key_info_id == iid
                    && att_key_in_upserts(after.attachments@, pre_atts[m].attachment_id@))
                    implies store.attachments@[m] == pre_atts[m] by {
                match after.attachments@[k as int] {
                    DeviceAttachmentUpsert::New(_) => {
                        assert(store.attachments@[m] == prev_arm_atts[m]);
                    },
                    _ => {
                        if dk != -1 && m == dk {
                            assert(prev_arm_atts[dk].device_key_info_id == iid
                                && prev_arm_atts[dk].attachment_id@ == kk);
                            assert(pre_atts[m].device_key_info_id == iid
                                && pre_atts[m].attachment_id@ == kk);
                            assert(false);
                        } else {
                            assert(store.attachments@[m] == prev_arm_atts[m]);
                        }
                    },
                }
            }
            assert forall|m: int|
                pre_atts.len() <= m < store.attachments@.len() implies (
            #[trigger] store.attachments@[m]).device_key_info_id == iid && att_key_in_upserts(
                after.attachments@,
                store.attachments@[m].attachment_id@,
            ) by {
                if m < prev_arm_atts.len() {
                    assert(store.attachments@[m].device_key_info_id
                        == prev_arm_atts[m].device_key_info_id && store.attachments@[m].attachment_id@
                        == prev_arm_atts[m].attachment_id@);
                } else {
                    assert(after.attachments@[k as int] is New);
                    assert(store.attachments@[m].attachment_id@ == kk);
                }
            }
            assert forall|t: int| 0 <= t < k + 1 implies att_applied(
                store.attachments@,
                iid,
                #[trigger] after.attachments@[t],
            ) by {
                let kt = spec_att_key(after.attachments@[t]);
                lemma_attachment_index(prev_arm_atts, iid, kt);
                if t < k {
                    assert(kt != kk);
                    match after.attachments@[k as int] {
                        DeviceAttachmentUpsert::New(_) => {
                            lemma_attachment_index_push(
                                prev_arm_atts,
                                store.attachments@.last(),
                                iid,
                                kt,
                            );
                            assert(store.attachments@.drop_last() =~= prev_arm_atts);
                            assert(forall|m: int|
                                0 <= m < prev_arm_atts.len() ==> #[trigger] store.attachments@[m]
                                    == prev_arm_atts[m]);
                            assert(store.attachments@ == prev_arm_atts.push(
                                store.attachments@.last(),
                            ));
                        },
                        _ => {
                            if dk != -1 {
                                lemma_attachment_index_same_keys(
                                    prev_arm_atts,
                                    store.attachments@,
                                    iid,
                                    kt,
                                );
                                let dt = spec_attachment_index(prev_arm_atts, iid, kt);
                                if dt != -1 {
                                    assert(prev_arm_atts[dt].attachment_id@ == kt
                                        && prev_arm_atts[dk].attachment_id@ == kk);
                                    assert(dt != dk);
                                }
                            } else {
                                assert(store.attachments@ == prev_arm_atts);
                            }
                        },
                    }
                } else {
                    match after.attachments@[k as int] {
                        DeviceAttachmentUpsert::New(n) => {
                            lemma_attachment_index_push(
                                prev_arm_atts,
                                store.attachments@.last(),
                                iid,
                                kk,
                            );
                            assert(store.attachments@ == prev_arm_atts.push(
                                store.attachments@.last(),
                            ));
                            assert(spec_attachment_index(prev_arm_atts, iid, kk) == -1);
                        },
                        _ => {
                            if dk != -1 {
                                lemma_attachment_index_same_keys(
                                    prev_arm_atts,
                                    store.attachments@,
                                    iid,
                                    kk,
                                );
                            }
                        },
                    }
                }
            }
        }
        k += 1;
    }

    // The diff, and the audit row when anything changed
    let change_diff = compute_diff(before, after);
    match change_diff {
        Some(d) => {
            proof {
                match before {
                    Some(b) => {
                        assert(diff_reflects(d, *b, *after));
                    },
                    None => {
                        assert(diff_reflects_new(d, *after));
                    },
                }
            }
            match log_change(store, iid, user_id_value, &d, now) {
                Ok(_) => {
                    proof {
                        assert(store.changes@.drop_last() =~= pre.changes@);
                        match before {
                            Some(b) => {
                                assert(diff_reflects(d, *b, *after) && store.changes@.last().change@
                                    == spec_device_diff_json(d));
                            },
                            None => {
                                assert(diff_reflects_new(d, *after)
                                    && store.changes@.last().change@ == spec_device_diff_json(d));
                            },
                        }
                    }
                },
                Err(e) => {
                    proof {
                        assert(false);
                    }
                    return Err(e);
                },
            }
        },
        None => (),
    }
    Ok(())
}



// The reconciliation orchestrator

/// Why a whole upsert is rejected, if it is: the location must exist, a
/// supplied identifier must name a live device, and the submission itself
/// must be well formed against that device's live components and attachments.
pub open spec fn spec_upsert_rejection(
    store: Store,
    max_attachment_size: u64,
    device: Option<String>,
    info: UpdatedDeviceInfo,
) -> Option<UpsertRejection> {
    if spec_location_index(store.locations@, info.location_id) == -1 {
        Some(UpsertRejection::LocationMissing)
    } else {
        match device {
            Some(d) => {
                let idx = spec_device_index(store.devices@, d@);
                if idx == -1 {
                    Some(UpsertRejection::DeviceMissing)
                } else if store.devices@[idx].deleted {
                    Some(UpsertRejection::DeviceDeleted)
                } else {
                    spec_submission_rejection(
                        spec_live_components_of(store.components@, store.devices@[idx].id),
                        spec_live_attachments_of(store.attachments@, store.devices@[idx].id),
                        info,
                        max_attachment_size,
                    )
                }
            },
            None => spec_submission_rejection(Seq::empty(), Seq::empty(), info, max_attachment_size),
        }
    }
}

/// The user error each rejection surfaces as, with its message.
fn rejection_error(rej: UpsertRejection) -> (u: UserError)
    ensures
        rejection_surfaces_as(rej, u),
{
    match rej {
        UpsertRejection::LocationMissing => UserError::NotFound("Invalid location."),
        UpsertRejection::DeviceMissing => UserError::NotFound("Invalid device ID."),
        UpsertRejection::DeviceDeleted => UserError::InvalidState(
            "The device has been deleted. It cannot be modified.",
        ),
        UpsertRejection::DuplicateColumn => UserError::BadRequest(
            "Duplicate column values were submitted.",
        ),
        UpsertRejection::ComponentCreateDelete => UserError::BadRequest(
            "The component can't be created and deleted at the same time.",
        ),
        UpsertRejection::DuplicateComponent => UserError::BadRequest(
            "Duplicate component IDs were submitted.",
        ),
        UpsertRejection::ComponentDeleteMissing => UserError::BadRequest(
            "The component to delete does not exist.",
        ),
        UpsertRejection::InvalidFileData => UserError::BadRequest("Invalid file data."),
        UpsertRejection::FileTooLarge => UserError::BadRequest(
            "File size is above the configured limit.",
        ),
        UpsertRejection::DuplicateAttachment => UserError::BadRequest(
            "Duplicate attachment IDs were submitted.",
        ),
        UpsertRejection::AttachmentMissing => UserError::BadRequest(
            "The referenced attachment does not exist.",
        ),
    }
}

/// How a normalized after-state corresponds to the submission it came from.
pub open spec fn after_state_matches(
    info: UpdatedDeviceInfo,
    a: AfterState,
    iid: i32,
    device_id: Seq<char>,
) -> bool {
    &&& a.key_info.device_id@ == device_id
    &&& a.key_info.location_id == info.location_id
    &&& a.data@.len() == info.column_data@.len()
    &&& forall|i: int|
        0 <= i < a.data@.len() ==> data_row_matches(info.column_data@[i], #[trigger] a.data@[i], iid)
    &&& a.components@.len() == info.components@.len()
    &&& forall|i: int|
        0 <= i < a.components@.len() ==> comp_op_matches(
            info.components@[i],
            #[trigger] a.components@[i],
            iid,
        )
    &&& a.attachments@.len() == info.attachments@.len()
    &&& forall|i: int|
        0 <= i < a.attachments@.len() ==> att_op_matches(
            info.attachments@[i],
            #[trigger] a.attachments@[i],
            iid,
            device_id,
        )
}

/// Whether a normalized after-state changes nothing about the device as the
/// store currently holds it.
pub open spec fn spec_no_change_vs(store: Store, idx: int, iid: i32, a: AfterState) -> bool {
    &&& store.devices@[idx].location_id == a.key_info.location_id
    &&& spec_col_diffs(spec_data_of(store.device_data@, iid), a.data@).len() == 0
    &&& spec_comp_diffs(spec_live_components_of(store.components@, iid), a.components@).len() == 0
    &&& spec_att_diffs(spec_live_attachments_of(store.attachments@, iid), a.attachments@).len()
        == 0
}

/// Everything a successful upsert guarantees, witnessed by the normalized
/// after-state it wrote.
pub open spec fn upsert_ok_post(
    o: Store,
    n: Store,
    info: UpdatedDeviceInfo,
    user_id_value: i32,
    now: i64,
    id: String,
    a: AfterState,
) -> bool {
    let idx = spec_device_index(o.devices@, id@);
    let iid = if idx == -1 {
        o.next_id
    } else {
        o.devices@[idx].id
    };
    &&& after_state_matches(info, a, iid, id@)
    &&& (idx == -1 ==> n.devices@ == o.devices@.push(
        DeviceKeyInfo {
            id: iid,
            device_id: a.key_info.device_id,
            deleted: false,
            location_id: a.key_info.location_id,
        },
    ))
    &&& (idx != -1 ==> n.devices@ == o.devices@.update(
        idx,
        DeviceKeyInfo { location_id: a.key_info.location_id, ..o.devices@[idx] },
    ))
    &&& n.locations@ == o.locations@
    &&& n.users@ == o.users@
    &&& forall|i: int|
        0 <= i < a.data@.len() ==> ({
            let di = spec_data_index(
                n.device_data@,
                iid,
                (#[trigger] a.data@[i]).column_definition_id,
            );
            di != -1 && n.device_data@[di].data_value == a.data@[i].data_value
        })
    &&& forall|m: int|
        0 <= m < o.device_data@.len() && !((#[trigger] o.device_data@[m]).device_key_info_id == iid
            && col_in_news(a.data@, o.device_data@[m].column_definition_id))
            ==> n.device_data@[m] == o.device_data@[m]
    &&& forall|t: int|
        0 <= t < a.components@.len() ==> comp_applied(
            n.components@,
            iid,
            #[trigger] a.components@[t],
        )
    &&& forall|t: int|
        0 <= t < a.attachments@.len() ==> att_applied(
            n.attachments@,
            iid,
            #[trigger] a.attachments@[t],
        )
    &&& n.components@.len() >= o.components@.len()
    &&& forall|m: int|
        0 <= m < o.components@.len() && !((#[trigger] o.components@[m]).device_key_info_id == iid
            && comp_key_in_upserts(a.components@, o.components@[m].component_id@))
            ==> n.components@[m] == o.components@[m]
    &&& forall|m: int|
        o.components@.len() <= m < n.components@.len() ==> (
        #[trigger] n.components@[m]).device_key_info_id == iid && comp_key_in_upserts(
            a.components@,
            n.components@[m].component_id@,
        )
    &&& forall|t: int|
        0 <= t < a.components@.len() ==> comp_op_liveness(
            o.components@,
            n.components@,
            iid,
            #[trigger] a.components@[t],
        )
    &&& n.attachments@.len() >= o.attachments@.len()
    &&& forall|m: int|
        0 <= m < o.attachments@.len() && !((#[trigger] o.attachments@[m]).device_key_info_id == iid
            && att_key_in_upserts(a.attachments@, o.attachments@[m].attachment_id@))
            ==> n.attachments@[m] == o.attachments@[m]
    &&& forall|m: int|
        o.attachments@.len() <= m < n.attachments@.len() ==> (
        #[trigger] n.attachments@[m]).device_key_info_id == iid && att_key_in_upserts(
            a.attachments@,
            n.attachments@[m].attachment_id@,
        )
    &&& (idx != -1 ==> {
        &&& (spec_no_change_vs(o, idx, iid, a) ==> n.changes@ == o.changes@)
        &&& (!spec_no_change_vs(o, idx, iid, a) ==> (changes_appended(
            o.changes@,
            n.changes@,
            iid,
            user_id_value,
            now,
        ) && (exists|d: DeviceDiff|
            diff_reflects_parts(
                d,
                o.devices@[idx].location_id,
                spec_data_of(o.device_data@, iid),
                spec_live_components_of(o.components@, iid),
                spec_live_attachments_of(o.attachments@, iid),
                a,
            ) && n.changes@.last().change@ == spec_device_diff_json(d))))
    })
    &&& (idx == -1 ==> (changes_appended(o.changes@, n.changes@, iid, user_id_value, now) && (
    exists|d: DeviceDiff|
        diff_reflects_new(d, a) && n.changes@.last().change@ == spec_device_diff_json(d))))
}

/// Whether an upsert of this submission has to draw fresh identifiers: a new
/// device, a component without an identifier, or a new attachment. Only then
/// may the operation fail for a reason outside the submission itself.
pub open spec fn spec_upsert_needs_draw(device: Option<String>, info: UpdatedDeviceInfo) -> bool {
    ||| device is None
    ||| exists|i: int|
        0 <= i < info.components@.len() && (#[trigger] info.components@[i]).component_id is None
    ||| exists|i: int| 0 <= i < info.attachments@.len() && (#[trigger] info.attachments@[i]) is New
}

/// Whether the store lacks the surrogate-key headroom this submission needs:
/// one key for the device, one per written row, and one for the audit entry.
pub open spec fn spec_upsert_headroom_insufficient(store: Store, info: UpdatedDeviceInfo) -> bool {
    store.next_id as int + 2 + info.column_data@.len() + info.components@.len()
        + info.attachments@.len() > i32::MAX as int
}

/// A successful upsert's guarantees, with the witnessing after-state
/// existentially bound.
pub open spec fn upsert_ok(
    o: Store,
    n: Store,
    info: UpdatedDeviceInfo,
    user_id_value: i32,
    now: i64,
    id: String,
) -> bool {
    exists|a: AfterState| upsert_ok_post(o, n, info, user_id_value, now, id, a)
}

/// Inserts or updates a device from a submission, inside one transactional
/// step: the location is validated, the before-snapshot loaded, the
/// submission validated and normalized (assigning fresh identifiers where
/// they are absent), every category written through its upsert operation, and
/// the diff appended to the change log when anything changed. Any failure
/// leaves the store exactly as it was.
#[verifier::rlimit(100)]
#[verifier::spinoff_prover]
pub fn upsert_device(
    store: &mut Store,
    max_attachment_size: u64,
    device: Option<String>,
    device_info: &UpdatedDeviceInfo,
    user_id_value: i32,
    now: i64,
) -> (r: Result<String, Error>)
    requires
        old(store).wf(),
    ensures
        final(store).wf(),
        r matches Err(_) ==> *final(store) == *old(store),
        ({
            let rej = spec_upsert_rejection(*old(store), max_attachment_size, device, *device_info);
            &&& (r matches Err(e) ==> (match e {
                Error::User(u) => rej matches Some(rj) && rejection_surfaces_as(rj, u),
                _ => rej is None,
            }))
            &&& (r is Ok ==> rej is None)
        }),
        (r matches Err(e) && !(e is User)) ==> spec_upsert_needs_draw(device, *device_info)
            || spec_upsert_headroom_insufficient(*old(store), *device_info),
        r matches Ok(id) ==> {
            &&& (device matches Some(d) ==> id == d)
            &&& (device is None ==> id@.len() == 6 && all_digits(id@) && spec_device_index(
                old(store).devices@,
                id@,
            ) == -1)
            &&& upsert_ok(*old(store), *final(store), *device_info, user_id_value, now, id)
        },
{
    // The referenced location must exist.
    if !store.location_exists(device_info.location_id) {
        return Err(Error::User(UserError::NotFound("Invalid location.")));
    }

    match device {
        Some(d) => {
            // Load the before-snapshot; deleted devices must not be modified.
            let snap = match store.get_device_snapshot(&d) {
                Some(s) => s,
                None => {
                    return Err(Error::User(UserError::NotFound("Invalid device ID.")));
                },
            };
            if snap.key_info.deleted {
                return Err(Error::User(UserError::InvalidState(
                    "The device has been deleted. It cannot be modified.",
                )));
            }
            let iid = snap.key_info.id;
            proof {
                let o = *old(store);
                let idx = spec_device_index(o.devices@, d@);
                assert(snap.components@ == spec_live_components_of(o.components@, iid));
                assert(snap.attachments@ == spec_live_attachments_of(o.attachments@, iid));
                assert(spec_upsert_rejection(o, max_attachment_size, device, *device_info)
                    == spec_submission_rejection(
                    snap.components@,
                    snap.attachments@,
                    *device_info,
                    max_attachment_size,
                ));
            }

            // Validate the submission before anything is written.
            if let Some(rej) = validate_submission(
                &snap.components,
                &snap.attachments,
                device_info,
                max_attachment_size,
            ) {
                return Err(Error::User(rejection_error(rej)));
            }

            // Normalize.
            let data_rows = build_data_rows(device_info, iid);
            let comp_ops = match build_component_ops(store, &snap.components, device_info, iid) {
                Ok(v) => v,
                Err(e) => {
                    return Err(e);
                },
            };
            let att_ops = match build_attachment_ops(
                store,
                &snap.attachments,
                &d,
                device_info,
                iid,
                max_attachment_size,
            ) {
                Ok(v) => v,
                Err(e) => {
                    return Err(e);
                },
            };
            let after = AfterState {
                key_info: DeviceKeyInfoNew {
                    device_id: d.clone(),
                    location_id: device_info.location_id,
                },
                data: data_rows,
                components: comp_ops,
                attachments: att_ops,
            };

            // Reserve surrogate-key headroom so that no write can fail.
            let dl = after.data.len();
            let cl = after.components.len();
            let al = after.attachments.len();
            let cap = i32::MAX as usize;
            if dl > cap || cl > cap || al > cap {
                proof {
                    assert(spec_upsert_headroom_insufficient(*old(store), *device_info));
                }
                return Err(Error::NoContext(InternalError::Storage(
                    "the surrogate key space is exhausted",
                )));
            }
            let needed: i64 = 2 + (dl as i64) + (cl as i64) + (al as i64);
            if (store.next_id as i64) > (i32::MAX as i64) - needed {
                proof {
                    assert(spec_upsert_headroom_insufficient(*old(store), *device_info));
                }
                return Err(Error::NoContext(InternalError::Storage(
                    "the surrogate key space is exhausted",
                )));
            }

            // Write, diff, and log.
            match apply_after_state(store, Some(&snap), iid, &after, user_id_value, now) {
                Ok(_) => (),
                Err(e) => {
                    proof {
                        assert(false);
                    }
                    return Err(e);
                },
            }
            proof {
                let o = *old(store);
                let idx = spec_device_index(o.devices@, d@);
                assert(spec_no_change(snap, after) == spec_no_change_vs(o, idx, iid, after));
                if !spec_no_change(snap, after) {
                    let dv = choose|dv: DeviceDiff|
                        diff_reflects(dv, snap, after) && store.changes@.last().change@
                            == spec_device_diff_json(dv);
                    assert(diff_reflects_parts(
                        dv,
                        o.devices@[idx].location_id,
                        spec_data_of(o.device_data@, iid),
                        spec_live_components_of(o.components@, iid),
                        spec_live_attachments_of(o.attachments@, iid),
                        after,
                    ));
                }
                assert(upsert_ok(o, *store, *device_info, user_id_value, now, d)) by {
                    assert(upsert_ok_post(
                        o,
                        *store,
                        *device_info,
                        user_id_value,
                        now,
                        d,
                        after,
                    ));
                }
            }
            Ok(d)
        },
        None => {
            // Validate the submission against an empty before-state.
            let empty_comps: Vec<DeviceComponent> = Vec::new();
            let empty_atts: Vec<DeviceAttachmentMetadata> = Vec::new();
            proof {
                assert(empty_comps@ =~= Seq::<DeviceComponent>::empty());
                assert(empty_atts@ =~= Seq::<DeviceAttachmentMetadata>::empty());
                assert(spec_upsert_rejection(
                    *old(store),
                    max_attachment_size,
                    device,
                    *device_info,
                ) == spec_submission_rejection(
                    empty_comps@,
                    empty_atts@,
                    *device_info,
                    max_attachment_size,
                ));
            }
            if let Some(rej) = validate_submission(
                &empty_comps,
                &empty_atts,
                device_info,
                max_attachment_size,
            ) {
                return Err(Error::User(rejection_error(rej)));
            }

            // Generate the public identifier and normalize.
            let d = match gen_new_device_id(store) {
                Ok(x) => x,
                Err(e) => {
                    return Err(e);
                },
            };
            let iid = store.next_id;
            let data_rows = build_data_rows(device_info, iid);
            let comp_ops = match build_component_ops(store, &empty_comps, device_info, iid) {
                Ok(v) => v,
                Err(e) => {
                    return Err(e);
                },
            };
            let att_ops = match build_attachment_ops(
                store,
                &empty_atts,
                &d,
                device_info,
                iid,
                max_attachment_size,
            ) {
                Ok(v) => v,
                Err(e) => {
                    return Err(e);
                },
            };
            let after = AfterState {
                key_info: DeviceKeyInfoNew {
                    device_id: d.clone(),
                    location_id: device_info.location_id,
                },
                data: data_rows,
                components: comp_ops,
                attachments: att_ops,
            };

            let dl = after.data.len();
            let cl = after.components.len();
            let al = after.attachments.len();
            let cap = i32::MAX as usize;
            if dl > cap || cl > cap || al > cap {
                return Err(Error::NoContext(InternalError::Storage(
                    "the surrogate key space is exhausted",
                )));
            }
            let needed: i64 = 2 + (dl as i64) + (cl as i64) + (al as i64);
            if (store.next_id as i64) > (i32::MAX as i64) - needed {
                return Err(Error::NoContext(InternalError::Storage(
                    "the surrogate key space is exhausted",
                )));
            }

            proof {
                // Against an empty before-state every component is an
                // insertion and every attachment is new.
                lemma_component_rejection_none_forall(empty_comps@, device_info.components@);
                lemma_attachment_rejection_none_forall(
                    empty_atts@,
                    device_info.attachments@,
                    max_attachment_size,
                );
                assert forall|i: int|
                    0 <= i < after.components@.len() implies !(#[trigger] after.components@[i]
                    is Delete) by {
                    assert(comp_op_matches(device_info.components@[i], after.components@[i], iid));
                    if device_info.components@[i].deleted {
                        assert(spec_one_component_rejection(
                            empty_comps@,
                            device_info.components@,
                            i,
                        ) is Some);
                    }
                }
                assert forall|i: int|
                    0 <= i < after.attachments@.len() implies #[trigger] after.attachments@[i]
                    is New by {
                    assert(att_op_matches(
                        device_info.attachments@[i],
                        after.attachments@[i],
                        iid,
                        d@,
                    ));
                    match device_info.attachments@[i] {
                        UpdatedDeviceAttachment::Existing { .. } => {
                            assert(spec_one_attachment_rejection(
                                empty_atts@,
                                device_info.attachments@,
                                i,
                                max_attachment_size,
                            ) is Some);
                        },
                        UpdatedDeviceAttachment::New { .. } => {},
                    }
                }
            }
            match apply_after_state(store, None, iid, &after, user_id_value, now) {
                Ok(_) => (),
                Err(e) => {
                    proof {
                        assert(false);
                    }
                    return Err(e);
                },
            }
            proof {
                assert(d@.len() == 6 && all_digits(d@) && spec_device_index(
                    old(store).devices@,
                    d@,
                ) == -1);
                assert(upsert_ok(*old(store), *store, *device_info, user_id_value, now, d)) by {
                    assert(upsert_ok_post(
                        *old(store),
                        *store,
                        *device_info,
                        user_id_value,
                        now,
                        d,
                        after,
                    ));
                }
            }
            Ok(d)
        },
    }
}

/// Adds a new device to the store from a submission.
pub fn create_device(
    store: &mut Store,
    max_attachment_size: u64,
    device_info: &UpdatedDeviceInfo,
    user_id_value: i32,
    now: i64,
) -> (r: Result<String, Error>)
    requires
        old(store).wf(),
    ensures
        final(store).wf(),
        r matches Err(_) ==> *final(store) == *old(store),
        ({
            let rej = spec_upsert_rejection(
                *old(store),
                max_attachment_size,
                None,
                *device_info,
            );
            &&& (r matches Err(e) ==> (match e {
                Error::User(u) => rej matches Some(rj) && rejection_surfaces_as(rj, u),
                _ => rej is None,
            }))
            &&& (r is Ok ==> rej is None)
        }),
        r matches Ok(id) ==> id@.len() == 6 && all_digits(id@) && spec_device_index(
            old(store).devices@,
            id@,
        ) == -1 && upsert_ok(*old(store), *final(store), *device_info, user_id_value, now, id),
{
    upsert_device(store, max_attachment_size, None, device_info, user_id_value, now)
}

/// Updates an existing device from a submission.
pub fn update_device(
    store: &mut Store,
    max_attachment_size: u64,
    device: String,
    device_info: &UpdatedDeviceInfo,
    user_id_value: i32,
    now: i64,
) -> (r: Result<String, Error>)
    requires
        old(store).wf(),
    ensures
        final(store).wf(),
        r matches Err(_) ==> *final(store) == *old(store),
        ({
            let rej = spec_upsert_rejection(
                *old(store),
                max_attachment_size,
                Some(device),
                *device_info,
            );
            &&& (r matches Err(e) ==> (match e {
                Error::User(u) => rej matches Some(rj) && rejection_surfaces_as(rj, u),
                _ => rej is None,
            }))
            &&& (r is Ok ==> rej is None)
        }),
        (r matches Err(e) && !(e is User)) ==> spec_upsert_needs_draw(Some(device), *device_info)
            || spec_upsert_headroom_insufficient(*old(store), *device_info),
        r matches Ok(id) ==> id == device && upsert_ok(
            *old(store),
            *final(store),
            *device_info,
            user_id_value,
            now,
            id,
        ),
{
    upsert_device(store, max_attachment_size, Some(device), device_info, user_id_value, now)
}


// Checkout and soft deletion

/// The diff recorded when only a device's location changes.
pub open spec fn spec_location_edit_diff(location_id: i32) -> DeviceDiff {
    DeviceDiff {
        device_key_info: Some(
            DeviceKeyInfoDiff::Edit(DeviceKeyInfoDiffData { location_id: Some(location_id) }),
        ),
        device_data: None,
        device_components: None,
        device_attachments: None,
    }
}

/// The diff recorded when a device is soft-deleted or restored.
pub open spec fn spec_deletion_diff(deleted: bool) -> DeviceDiff {
    DeviceDiff {
        device_key_info: Some(
            if deleted {
                DeviceKeyInfoDiff::Delete
            } else {
                DeviceKeyInfoDiff::Restore
            },
        ),
        device_data: None,
        device_components: None,
        device_attachments: None,
    }
}

/// Moves a device to a new location, logging the change when the location
/// actually differs. Returns the new location's name.
pub fn checkout_device(
    store: &mut Store,
    checkout_info: &CheckoutInfo,
    user_id_value: i32,
    now: i64,
) -> (r: Result<String, Error>)
    requires
        old(store).wf(),
    ensures
        final(store).wf(),
        r matches Err(_) ==> *final(store) == *old(store),
        ({
            let li = spec_location_index(old(store).locations@, checkout_info.location_id);
            let di = spec_device_index(old(store).devices@, checkout_info.device_id@);
            match r {
                Err(e) => (match e {
                    Error::User(u) => {
                        &&& (li == -1 ==> u is NotFound)
                        &&& (li != -1 && di == -1 ==> u is NotFound)
                        &&& (li != -1 && di != -1 ==> old(store).devices@[di].deleted && (
                        u is InvalidState))
                    },
                    _ => old(store).next_id == i32::MAX,
                }),
                Ok(name) => {
                    &&& li != -1 && di != -1 && !old(store).devices@[di].deleted
                    &&& name@ == old(store).locations@[li].name@
                    &&& final(store).devices@ == old(store).devices@.update(
                        di,
                        DeviceKeyInfo {
                            location_id: checkout_info.location_id,
                            ..old(store).devices@[di]
                        },
                    )
                    &&& final(store).locations@ == old(store).locations@
                    &&& final(store).users@ == old(store).users@
                    &&& final(store).device_data@ == old(store).device_data@
                    &&& final(store).components@ == old(store).components@
                    &&& final(store).attachments@ == old(store).attachments@
                    &&& (old(store).devices@[di].location_id == checkout_info.location_id
                        ==> final(store).changes@ == old(store).changes@)
                    &&& (old(store).devices@[di].location_id != checkout_info.location_id
                        ==> changes_appended(
                        old(store).changes@,
                        final(store).changes@,
                        old(store).devices@[di].id,
                        user_id_value,
                        now,
                    ) && final(store).changes@.last().change@ == spec_device_diff_json(
                        spec_location_edit_diff(checkout_info.location_id),
                    ))
                },
            }
        }),
{
    let li = match store.find_location_index(checkout_info.location_id) {
        Some(i) => i,
        None => {
            return Err(Error::User(UserError::NotFound("Invalid location.")));
        },
    };
    proof {
        crate::store::lemma_location_index(store.locations@, checkout_info.location_id);
    }
    let location_name = store.locations[li].name.clone();
    let di = match store.find_device_index(&checkout_info.device_id) {
        Some(i) => i,
        None => {
            return Err(Error::User(UserError::NotFound("Invalid device ID.")));
        },
    };
    proof {
        crate::store::lemma_device_index(store.devices@, checkout_info.device_id@);
    }
    if store.devices[di].deleted {
        return Err(Error::User(UserError::InvalidState(
            "The device has been deleted. It cannot be modified.",
        )));
    }
    let old_location = store.devices[di].location_id;
    let iid = store.devices[di].id;
    if store.next_id == i32::MAX {
        return Err(Error::NoContext(InternalError::Storage(
            "the surrogate key space is exhausted",
        )));
    }
    store.set_device_location(di, checkout_info.location_id);
    if old_location != checkout_info.location_id {
        let diff = DeviceDiff {
            device_key_info: Some(
                DeviceKeyInfoDiff::Edit(
                    DeviceKeyInfoDiffData { location_id: Some(checkout_info.location_id) },
                ),
            ),
            device_data: None,
            device_components: None,
            device_attachments: None,
        };
        match log_change(store, iid, user_id_value, &diff, now) {
            Ok(_) => {
                proof {
                    assert(store.changes@.drop_last() =~= old(store).changes@);
                    assert(diff == spec_location_edit_diff(checkout_info.location_id));
                }
            },
            Err(e) => {
                proof {
                    assert(false);
                }
                return Err(e);
            },
        }
    }
    Ok(location_name)
}

/// What flipping a device's deletion flag guarantees: the flag is set and a
/// Delete or Restore audit row is logged; a missing device is `NotFound` and
/// an already-set flag is `BadRequest`, each leaving the store untouched.
pub open spec fn deletion_status_outcome(
    o: Store,
    n: Store,
    device: Seq<char>,
    new_deletion_status: bool,
    user_id_value: i32,
    now: i64,
    r: Result<(), Error>,
) -> bool {
    let di = spec_device_index(o.devices@, device);
    match r {
        Err(e) => (match e {
            Error::User(u) => {
                &&& (di == -1 ==> u is NotFound)
                &&& (di != -1 ==> o.devices@[di].deleted == new_deletion_status && (
                u is BadRequest))
            },
            _ => o.next_id == i32::MAX,
        }),
        Ok(_) => {
            &&& di != -1 && o.devices@[di].deleted != new_deletion_status
            &&& n.devices@ == o.devices@.update(
                di,
                DeviceKeyInfo { deleted: new_deletion_status, ..o.devices@[di] },
            )
            &&& n.locations@ == o.locations@
            &&& n.users@ == o.users@
            &&& n.device_data@ == o.device_data@
            &&& n.components@ == o.components@
            &&& n.attachments@ == o.attachments@
            &&& changes_appended(o.changes@, n.changes@, o.devices@[di].id, user_id_value, now)
            &&& n.changes@.last().change@ == spec_device_diff_json(
                spec_deletion_diff(new_deletion_status),
            )
        },
    }
}

/// Soft-deletes or restores a device, logging the change.
pub fn set_device_deletion_status(
    store: &mut Store,
    device: &String,
    new_deletion_status: bool,
    user_id_value: i32,
    now: i64,
) -> (r: Result<(), Error>)
    requires
        old(store).wf(),
    ensures
        final(store).wf(),
        r matches Err(_) ==> *final(store) == *old(store),
        deletion_status_outcome(
            *old(store),
            *final(store),
            device@,
            new_deletion_status,
            user_id_value,
            now,
            r,
        ),
{
    let di = match store.find_device_index(device) {
        Some(i) => i,
        None => {
            return Err(Error::User(UserError::NotFound("Invalid device ID.")));
        },
    };
    proof {
        crate::store::lemma_device_index(store.devices@, device@);
    }
    if store.devices[di].deleted == new_deletion_status {
        return Err(Error::User(UserError::BadRequest(
            "The device deletion status is already set to the desired value.",
        )));
    }
    let iid = store.devices[di].id;
    if store.next_id == i32::MAX {
        return Err(Error::NoContext(InternalError::Storage(
            "the surrogate key space is exhausted",
        )));
    }
    store.set_device_deleted(di, new_deletion_status);
    let diff = DeviceDiff {
        device_key_info: Some(
            if new_deletion_status {
                DeviceKeyInfoDiff::Delete
            } else {
                DeviceKeyInfoDiff::Restore
            },
        ),
        device_data: None,
        device_components: None,
        device_attachments: None,
    };
    match log_change(store, iid, user_id_value, &diff, now) {
        Ok(_) => {
            proof {
                assert(store.changes@.drop_last() =~= old(store).changes@);
                assert(diff == spec_deletion_diff(new_deletion_status));
            }
            Ok(())
        },
        Err(e) => {
            proof {
                assert(false);
            }
            Err(e)
        },
    }
}

/// Soft-deletes a device, logging a Delete audit row.
pub fn delete_device(store: &mut Store, device: &String, user_id_value: i32, now: i64) -> (r:
    Result<(), Error>)
    requires
        old(store).wf(),
    ensures
        final(store).wf(),
        r matches Err(_) ==> *final(store) == *old(store),
        deletion_status_outcome(*old(store), *final(store), device@, true, user_id_value, now, r),
{
    set_device_deletion_status(store, device, true, user_id_value, now)
}

/// Restores a soft-deleted device, logging a Restore audit row.
pub fn restore_device(store: &mut Store, device: &String, user_id_value: i32, now: i64) -> (r:
    Result<(), Error>)
    requires
        old(store).wf(),
    ensures
        final(store).wf(),
        r matches Err(_) ==> *final(store) == *old(store),
        deletion_status_outcome(*old(store), *final(store), device@, false, user_id_value, now, r),
{
    set_device_deletion_status(store, device, false, user_id_value, now)
}


/// Inserts or updates a device from a submission, stamping the audit row
/// with the current wall-clock time.
pub fn upsert_device_now(
    store: &mut Store,
    max_attachment_size: u64,
    device: Option<String>,
    device_info: &UpdatedDeviceInfo,
    user_id_value: i32,
) -> (r: Result<String, Error>)
    requires
        old(store).wf(),
    ensures
        final(store).wf(),
        r matches Err(_) ==> *final(store) == *old(store),
        ({
            let rej = spec_upsert_rejection(*old(store), max_attachment_size, device, *device_info);
            &&& (r matches Err(e) ==> (match e {
                Error::User(u) => rej matches Some(rj) && rejection_surfaces_as(rj, u),
                _ => rej is None,
            }))
            &&& (r is Ok ==> rej is None)
        }),
        (r matches Err(e) && !(e is User)) ==> spec_upsert_needs_draw(device, *device_info)
            || spec_upsert_headroom_insufficient(*old(store), *device_info),
        r matches Ok(id) ==> {
            &&& (device matches Some(d) ==> id == d)
            &&& (device is None ==> id@.len() == 6 && all_digits(id@) && spec_device_index(
                old(store).devices@,
                id@,
            ) == -1)
            &&& (exists|t: i64|
                upsert_ok(*old(store), *final(store), *device_info, user_id_value, t, id))
        },
{
    let now = current_timestamp_millis();
    let r = upsert_device(store, max_attachment_size, device, device_info, user_id_value, now);
    proof {
        if r is Ok {
            let id = r->Ok_0;
            assert(upsert_ok(*old(store), *store, *device_info, user_id_value, now, id));
        }
    }
    r
}

} // verus!

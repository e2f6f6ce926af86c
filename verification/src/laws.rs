//! Laws of the diff engine, stated and proved over its spec functions.
//!
//! The executable diff functions are proved equal to those spec functions, so
//! each law carries over to the running code.

use vstd::prelude::*;

use crate::diff::{
    att_key_in_upserts, comp_key_in_upserts, new_inputs_well_keyed,
    spec_att_diffs, spec_att_entry, spec_att_key, spec_att_removed_diffs, spec_att_after_diffs,
    spec_col_diffs, spec_col_entry, spec_comp_diffs, spec_comp_entry, spec_comp_key,
    spec_comp_removed_diffs, spec_comp_after_diffs, spec_find_att, spec_find_comp, spec_find_data,
    spec_key_info_edit, spec_no_change, AfterState, DeviceAttachmentsAttachmentDiff,
    DeviceComponentsComponentDiff, DeviceDataColumnDiff, Snapshot,
};
use crate::devices::{
    after_state_matches, att_op_matches, comp_id_among, comp_op_matches, data_row_matches,
    spec_no_change_vs, att_id_among,
};
use crate::models::{
    DeviceAttachmentMetadata, DeviceAttachmentRow, DeviceAttachmentUpsert, DeviceComponent,
    DeviceComponentRow, DeviceComponentUpsert, DeviceData, DeviceDataNew, UpdatedDeviceAttachment,
    UpdatedDeviceComponent, UpdatedDeviceInfo,
};
use crate::snapshot::{
    lemma_attachments_of_unique, lemma_components_of_unique, lemma_data_of_unique, spec_data_of,
    spec_live_attachments_of, spec_live_components_of,
};
use crate::store::{
    lemma_attachment_index, lemma_component_index, lemma_data_index, spec_attachment_index,
    spec_component_index, spec_data_index, Store,
};

verus! {

// Structural correspondence between a snapshot and a submission

/// Whether a snapshot and a normalized after-state are structurally equal:
/// the same location, every submitted column value equal to the stored one,
/// the same component identifiers with equal types, and the same attachment
/// identifiers with equal descriptions.
pub open spec fn states_correspond(before: Snapshot, after: AfterState) -> bool {
    &&& before.key_info.location_id == after.key_info.location_id
    &&& forall|i: int|
        0 <= i < after.data@.len() ==> match spec_find_data(
            before.data@,
            (#[trigger] after.data@[i]).column_definition_id,
        ) {
            Some(b) => b.data_value@ == after.data@[i].data_value@,
            None => false,
        }
    &&& forall|i: int|
        0 <= i < after.components@.len() ==> (#[trigger] after.components@[i] matches
        DeviceComponentUpsert::NewExisting(n) && match spec_find_comp(
            before.components@,
            n.component_id@,
        ) {
            Some(b) => b.component_type@ == n.component_type@,
            None => false,
        })
    &&& forall|j: int|
        0 <= j < before.components@.len() ==> comp_key_in_upserts(
            after.components@,
            (#[trigger] before.components@[j]).component_id@,
        )
    &&& forall|i: int|
        0 <= i < after.attachments@.len() ==> (#[trigger] after.attachments@[i] matches
        DeviceAttachmentUpsert::Existing(e) && match spec_find_att(
            before.attachments@,
            e.attachment_id@,
        ) {
            Some(b) => b.description@ == e.description@,
            None => false,
        })
    &&& forall|j: int|
        0 <= j < before.attachments@.len() ==> att_key_in_upserts(
            after.attachments@,
            (#[trigger] before.attachments@[j]).attachment_id@,
        )
}

proof fn lemma_col_diffs_all_none(before: Seq<DeviceData>, after: Seq<DeviceDataNew>)
    requires
        forall|i: int| 0 <= i < after.len() ==> spec_col_entry(before, #[trigger] after[i]) is None,
    ensures
        spec_col_diffs(before, after).len() == 0,
    decreases after.len(),
{
    if after.len() > 0 {
        assert(forall|i: int|
            0 <= i < after.drop_last().len() ==> #[trigger] after.drop_last()[i] == after[i]);
        lemma_col_diffs_all_none(before, after.drop_last());
        assert(spec_col_entry(before, after.last()) is None);
    }
}

proof fn lemma_comp_after_diffs_all_none(
    before: Seq<DeviceComponent>,
    after: Seq<DeviceComponentUpsert>,
)
    requires
        forall|i: int| 0 <= i < after.len() ==> spec_comp_entry(before, #[trigger] after[i]) is None,
    ensures
        spec_comp_after_diffs(before, after).len() == 0,
    decreases after.len(),
{
    if after.len() > 0 {
        assert(forall|i: int|
            0 <= i < after.drop_last().len() ==> #[trigger] after.drop_last()[i] == after[i]);
        lemma_comp_after_diffs_all_none(before, after.drop_last());
        assert(spec_comp_entry(before, after.last()) is None);
    }
}

proof fn lemma_comp_removed_none(before: Seq<DeviceComponent>, after: Seq<DeviceComponentUpsert>)
    requires
        forall|j: int|
            0 <= j < before.len() ==> comp_key_in_upserts(
                after,
                (#[trigger] before[j]).component_id@,
            ),
    ensures
        spec_comp_removed_diffs(before, after).len() == 0,
    decreases before.len(),
{
    if before.len() > 0 {
        assert(forall|j: int|
            0 <= j < before.drop_last().len() ==> #[trigger] before.drop_last()[j] == before[j]);
        lemma_comp_removed_none(before.drop_last(), after);
        assert(comp_key_in_upserts(after, before.last().component_id@));
    }
}

proof fn lemma_att_after_diffs_all_none(
    before: Seq<DeviceAttachmentMetadata>,
    after: Seq<DeviceAttachmentUpsert>,
)
    requires
        forall|i: int| 0 <= i < after.len() ==> spec_att_entry(before, #[trigger] after[i]) is None,
    ensures
        spec_att_after_diffs(before, after).len() == 0,
    decreases after.len(),
{
    if after.len() > 0 {
        assert(forall|i: int|
            0 <= i < after.drop_last().len() ==> #[trigger] after.drop_last()[i] == after[i]);
        lemma_att_after_diffs_all_none(before, after.drop_last());
        assert(spec_att_entry(before, after.last()) is None);
    }
}

proof fn lemma_att_removed_none(
    before: Seq<DeviceAttachmentMetadata>,
    after: Seq<DeviceAttachmentUpsert>,
)
    requires
        forall|j: int|
            0 <= j < before.len() ==> att_key_in_upserts(
                after,
                (#[trigger] before[j]).attachment_id@,
            ),
    ensures
        spec_att_removed_diffs(before, after).len() == 0,
    decreases before.len(),
{
    if before.len() > 0 {
        assert(forall|j: int|
            0 <= j < before.drop_last().len() ==> #[trigger] before.drop_last()[j] == before[j]);
        lemma_att_removed_none(before.drop_last(), after);
        assert(att_key_in_upserts(after, before.last().attachment_id@));
    }
}

/// Law: a submission that is structurally equal to the existing snapshot
/// produces no diff at all — `compute_diff` returns `None` on such inputs.
pub proof fn law_identical_states_diff_none(before: Snapshot, after: AfterState)
    requires
        states_correspond(before, after),
    ensures
        spec_no_change(before, after),
{
    assert(spec_key_info_edit(before.key_info, after.key_info) is None);
    assert forall|i: int| 0 <= i < after.data@.len() implies spec_col_entry(
        before.data@,
        #[trigger] after.data@[i],
    ) is None by {
        assert(spec_find_data(before.data@, after.data@[i].column_definition_id) is Some);
    }
    lemma_col_diffs_all_none(before.data@, after.data@);
    assert forall|i: int| 0 <= i < after.components@.len() implies spec_comp_entry(
        before.components@,
        #[trigger] after.components@[i],
    ) is None by {
        let a = after.components@[i];
        assert(a matches DeviceComponentUpsert::NewExisting(n) && spec_comp_key(a)
            == n.component_id@);
    }
    lemma_comp_after_diffs_all_none(before.components@, after.components@);
    lemma_comp_removed_none(before.components@, after.components@);
    assert forall|i: int| 0 <= i < after.attachments@.len() implies spec_att_entry(
        before.attachments@,
        #[trigger] after.attachments@[i],
    ) is None by {
        let a = after.attachments@[i];
        assert(a matches DeviceAttachmentUpsert::Existing(e) && spec_att_key(a)
            == e.attachment_id@);
    }
    lemma_att_after_diffs_all_none(before.attachments@, after.attachments@);
    lemma_att_removed_none(before.attachments@, after.attachments@);
}

// The diff recorded for a brand-new device

proof fn lemma_new_col_diffs(after: Seq<DeviceDataNew>)
    ensures
        spec_col_diffs(Seq::empty(), after).len() == after.len(),
        forall|i: int|
            0 <= i < after.len() ==> #[trigger] spec_col_diffs(Seq::empty(), after)[i]
                == (DeviceDataColumnDiff {
                column_definition_id: after[i].column_definition_id,
                data_value: Some(after[i].data_value),
            }),
    decreases after.len(),
{
    if after.len() > 0 {
        lemma_new_col_diffs(after.drop_last());
        assert(forall|i: int|
            0 <= i < after.drop_last().len() ==> #[trigger] after.drop_last()[i] == after[i]);
        assert(spec_find_data(Seq::empty(), after.last().column_definition_id) is None);
    }
}

proof fn lemma_new_comp_diffs(after: Seq<DeviceComponentUpsert>)
    requires
        forall|i: int| 0 <= i < after.len() ==> !(#[trigger] after[i] is Delete),
    ensures
        spec_comp_after_diffs(Seq::empty(), after).len() == after.len(),
        forall|i: int|
            0 <= i < after.len() ==> (#[trigger] spec_comp_after_diffs(Seq::empty(), after)[i]
                matches DeviceComponentsComponentDiff::Add(d) && (after[i] matches
            DeviceComponentUpsert::NewExisting(n) && d.component_id == n.component_id
                && d.component_type == Some(n.component_type))),
    decreases after.len(),
{
    if after.len() > 0 {
        assert(forall|i: int|
            0 <= i < after.drop_last().len() ==> #[trigger] after.drop_last()[i] == after[i]);
        lemma_new_comp_diffs(after.drop_last());
        assert(spec_find_comp(Seq::empty(), spec_comp_key(after.last())) is None);
        assert(!(after[after.len() - 1] is Delete));
    }
}

proof fn lemma_new_att_diffs(after: Seq<DeviceAttachmentUpsert>)
    requires
        forall|i: int| 0 <= i < after.len() ==> #[trigger] after[i] is New,
    ensures
        spec_att_after_diffs(Seq::empty(), after).len() == after.len(),
        forall|i: int|
            0 <= i < after.len() ==> (#[trigger] spec_att_after_diffs(Seq::empty(), after)[i]
                matches DeviceAttachmentsAttachmentDiff::Add(d) && (after[i] matches
            DeviceAttachmentUpsert::New(n) && d.attachment_id == n.attachment_id && d.description
                == Some(n.description) && d.file_name == Some(n.file_name))),
    decreases after.len(),
{
    if after.len() > 0 {
        assert(forall|i: int|
            0 <= i < after.drop_last().len() ==> #[trigger] after.drop_last()[i] == after[i]);
        lemma_new_att_diffs(after.drop_last());
        assert(spec_find_att(Seq::empty(), spec_att_key(after.last())) is None);
        assert(after[after.len() - 1] is New);
    }
}

/// Law: for a brand-new device, every populated category appears in the diff
/// as an addition — one `Add` entry per submitted item, in submission order —
/// and a category left empty contributes no entries. Together with
/// `compute_diff`'s contract (the result is always `Some` for a new device,
/// with the key information recorded as an `Add`), this pins the diff of a
/// creation down completely.
pub proof fn law_new_device_diff_all_adds(after: AfterState)
    requires
        new_inputs_well_keyed(after),
    ensures
        spec_col_diffs(Seq::empty(), after.data@).len() == after.data@.len(),
        forall|i: int|
            0 <= i < after.data@.len() ==> #[trigger] spec_col_diffs(Seq::empty(), after.data@)[i]
                == (DeviceDataColumnDiff {
                column_definition_id: after.data@[i].column_definition_id,
                data_value: Some(after.data@[i].data_value),
            }),
        spec_comp_diffs(Seq::empty(), after.components@).len() == after.components@.len(),
        forall|i: int|
            0 <= i < after.components@.len() ==> (#[trigger] spec_comp_diffs(
                Seq::empty(),
                after.components@,
            )[i] matches DeviceComponentsComponentDiff::Add(d) && (after.components@[i] matches
            DeviceComponentUpsert::NewExisting(n) && d.component_id == n.component_id
                && d.component_type == Some(n.component_type))),
        spec_att_diffs(Seq::empty(), after.attachments@).len() == after.attachments@.len(),
        forall|i: int|
            0 <= i < after.attachments@.len() ==> (#[trigger] spec_att_diffs(
                Seq::empty(),
                after.attachments@,
            )[i] matches DeviceAttachmentsAttachmentDiff::Add(d) && (after.attachments@[i] matches
            DeviceAttachmentUpsert::New(n) && d.attachment_id == n.attachment_id && d.description
                == Some(n.description) && d.file_name == Some(n.file_name))),
{
    lemma_new_col_diffs(after.data@);
    lemma_new_comp_diffs(after.components@);
    lemma_new_att_diffs(after.attachments@);
    assert(spec_comp_removed_diffs(Seq::empty(), after.components@) =~= Seq::empty());
    assert(spec_att_removed_diffs(Seq::empty(), after.attachments@) =~= Seq::empty());
    assert(spec_comp_diffs(Seq::empty(), after.components@) =~= spec_comp_after_diffs(
        Seq::empty(),
        after.components@,
    ));
    assert(spec_att_diffs(Seq::empty(), after.attachments@) =~= spec_att_after_diffs(
        Seq::empty(),
        after.attachments@,
    ));
}

// Position independence of keyed matching

proof fn lemma_comp_after_diffs_member(
    before: Seq<DeviceComponent>,
    after: Seq<DeviceComponentUpsert>,
    d: DeviceComponentsComponentDiff,
)
    ensures
        spec_comp_after_diffs(before, after).contains(d) <==> exists|i: int|
            0 <= i < after.len() && spec_comp_entry(before, #[trigger] after[i]) == Some(d),
    decreases after.len(),
{
    if after.len() > 0 {
        lemma_comp_after_diffs_member(before, after.drop_last(), d);
        assert(forall|i: int|
            0 <= i < after.drop_last().len() ==> #[trigger] after.drop_last()[i] == after[i]);
        if spec_comp_after_diffs(before, after).contains(d) {
            if spec_comp_entry(before, after.last()) == Some(d) {
                assert(spec_comp_entry(before, after[after.len() - 1]) == Some(d));
            } else {
                assert(spec_comp_after_diffs(before, after.drop_last()).contains(d));
            }
        }
        if exists|i: int|
            0 <= i < after.len() && spec_comp_entry(before, #[trigger] after[i]) == Some(d) {
            let i = choose|i: int|
                0 <= i < after.len() && spec_comp_entry(before, #[trigger] after[i]) == Some(d);
            if i < after.len() - 1 {
                assert(spec_comp_entry(before, after.drop_last()[i]) == Some(d));
                let rest = spec_comp_after_diffs(before, after.drop_last());
                let k = choose|k: int| 0 <= k < rest.len() && rest[k] == d;
                match spec_comp_entry(before, after.last()) {
                    Some(_) => assert(spec_comp_after_diffs(before, after)[k] == d),
                    None => assert(spec_comp_after_diffs(before, after)[k] == d),
                }
            } else {
                let full = spec_comp_after_diffs(before, after);
                assert(full[full.len() - 1] == d);
            }
        }
    }
}

proof fn lemma_comp_removed_same(
    before: Seq<DeviceComponent>,
    after1: Seq<DeviceComponentUpsert>,
    after2: Seq<DeviceComponentUpsert>,
)
    requires
        forall|k: Seq<char>| comp_key_in_upserts(after1, k) <==> comp_key_in_upserts(after2, k),
    ensures
        spec_comp_removed_diffs(before, after1) == spec_comp_removed_diffs(before, after2),
    decreases before.len(),
{
    if before.len() > 0 {
        lemma_comp_removed_same(before.drop_last(), after1, after2);
        assert(comp_key_in_upserts(after1, before.last().component_id@) <==> comp_key_in_upserts(
            after2,
            before.last().component_id@,
        ));
    }
}

proof fn lemma_seq_add_contains<T>(a: Seq<T>, b: Seq<T>, x: T)
    ensures
        (a + b).contains(x) <==> a.contains(x) || b.contains(x),
{
    if a.contains(x) {
        let i = choose|i: int| 0 <= i < a.len() && a[i] == x;
        assert((a + b)[i] == x);
    }
    if b.contains(x) {
        let i = choose|i: int| 0 <= i < b.len() && b[i] == x;
        assert((a + b)[a.len() + i] == x);
    }
    if (a + b).contains(x) {
        let i = choose|i: int| 0 <= i < (a + b).len() && (a + b)[i] == x;
        if i < a.len() {
            assert(a[i] == x);
        } else {
            assert(b[i - a.len()] == x);
        }
    }
}

/// Law: component matching is keyed by identifier, not by position. Two
/// submissions that contain the same operations — regardless of order —
/// produce the same set of component diff entries, so reordering a submission
/// can never create spurious edit or delete entries.
pub proof fn law_comp_diff_order_independent(
    before: Seq<DeviceComponent>,
    after1: Seq<DeviceComponentUpsert>,
    after2: Seq<DeviceComponentUpsert>,
)
    requires
        forall|i: int|
            0 <= i < after1.len() ==> exists|j: int|
                0 <= j < after2.len() && #[trigger] after1[i] == after2[j],
        forall|j: int|
            0 <= j < after2.len() ==> exists|i: int|
                0 <= i < after1.len() && #[trigger] after2[j] == after1[i],
    ensures
        forall|d: DeviceComponentsComponentDiff|
            spec_comp_diffs(before, after1).contains(d) <==> spec_comp_diffs(
                before,
                after2,
            ).contains(d),
{
    assert forall|k: Seq<char>| comp_key_in_upserts(after1, k) <==> comp_key_in_upserts(
        after2,
        k,
    ) by {
        if comp_key_in_upserts(after1, k) {
            let i = choose|i: int| 0 <= i < after1.len() && spec_comp_key(#[trigger] after1[i]) == k;
            let j = choose|j: int| 0 <= j < after2.len() && after1[i] == after2[j];
            assert(spec_comp_key(after2[j]) == k);
        }
        if comp_key_in_upserts(after2, k) {
            let j = choose|j: int| 0 <= j < after2.len() && spec_comp_key(#[trigger] after2[j]) == k;
            let i = choose|i: int| 0 <= i < after1.len() && after2[j] == after1[i];
            assert(spec_comp_key(after1[i]) == k);
        }
    }
    lemma_comp_removed_same(before, after1, after2);
    assert forall|d: DeviceComponentsComponentDiff|
        spec_comp_diffs(before, after1).contains(d) <==> spec_comp_diffs(
            before,
            after2,
        ).contains(d) by {
        lemma_seq_add_contains(
            spec_comp_after_diffs(before, after1),
            spec_comp_removed_diffs(before, after1),
            d,
        );
        lemma_seq_add_contains(
            spec_comp_after_diffs(before, after2),
            spec_comp_removed_diffs(before, after2),
            d,
        );
        lemma_comp_after_diffs_member(before, after1, d);
        lemma_comp_after_diffs_member(before, after2, d);
        if spec_comp_after_diffs(before, after1).contains(d) {
            let i = choose|i: int|
                0 <= i < after1.len() && spec_comp_entry(before, #[trigger] after1[i]) == Some(d);
            let j = choose|j: int| 0 <= j < after2.len() && after1[i] == after2[j];
            assert(spec_comp_entry(before, after2[j]) == Some(d));
        }
        if spec_comp_after_diffs(before, after2).contains(d) {
            let j = choose|j: int|
                0 <= j < after2.len() && spec_comp_entry(before, #[trigger] after2[j]) == Some(d);
            let i = choose|i: int| 0 <= i < after1.len() && after2[j] == after1[i];
            assert(spec_comp_entry(before, after1[i]) == Some(d));
        }
    }
}

proof fn lemma_att_after_diffs_member(
    before: Seq<DeviceAttachmentMetadata>,
    after: Seq<DeviceAttachmentUpsert>,
    d: DeviceAttachmentsAttachmentDiff,
)
    ensures
        spec_att_after_diffs(before, after).contains(d) <==> exists|i: int|
            0 <= i < after.len() && spec_att_entry(before, #[trigger] after[i]) == Some(d),
    decreases after.len(),
{
    if after.len() > 0 {
        lemma_att_after_diffs_member(before, after.drop_last(), d);
        assert(forall|i: int|
            0 <= i < after.drop_last().len() ==> #[trigger] after.drop_last()[i] == after[i]);
        if spec_att_after_diffs(before, after).contains(d) {
            if spec_att_entry(before, after.last()) == Some(d) {
                assert(spec_att_entry(before, after[after.len() - 1]) == Some(d));
            } else {
                assert(spec_att_after_diffs(before, after.drop_last()).contains(d));
            }
        }
        if exists|i: int|
            0 <= i < after.len() && spec_att_entry(before, #[trigger] after[i]) == Some(d) {
            let i = choose|i: int|
                0 <= i < after.len() && spec_att_entry(before, #[trigger] after[i]) == Some(d);
            if i < after.len() - 1 {
                assert(spec_att_entry(before, after.drop_last()[i]) == Some(d));
                let rest = spec_att_after_diffs(before, after.drop_last());
                let k = choose|k: int| 0 <= k < rest.len() && rest[k] == d;
                match spec_att_entry(before, after.last()) {
                    Some(_) => assert(spec_att_after_diffs(before, after)[k] == d),
                    None => assert(spec_att_after_diffs(before, after)[k] == d),
                }
            } else {
                let full = spec_att_after_diffs(before, after);
                assert(full[full.len() - 1] == d);
            }
        }
    }
}

proof fn lemma_att_removed_same(
    before: Seq<DeviceAttachmentMetadata>,
    after1: Seq<DeviceAttachmentUpsert>,
    after2: Seq<DeviceAttachmentUpsert>,
)
    requires
        forall|k: Seq<char>| att_key_in_upserts(after1, k) <==> att_key_in_upserts(after2, k),
    ensures
        spec_att_removed_diffs(before, after1) == spec_att_removed_diffs(before, after2),
    decreases before.len(),
{
    if before.len() > 0 {
        lemma_att_removed_same(before.drop_last(), after1, after2);
        assert(att_key_in_upserts(after1, before.last().attachment_id@) <==> att_key_in_upserts(
            after2,
            before.last().attachment_id@,
        ));
    }
}

/// Law: attachment matching is keyed by identifier, not by position. Two
/// submissions that contain the same operations — regardless of order —
/// produce the same set of attachment diff entries.
pub proof fn law_att_diff_order_independent(
    before: Seq<DeviceAttachmentMetadata>,
    after1: Seq<DeviceAttachmentUpsert>,
    after2: Seq<DeviceAttachmentUpsert>,
)
    requires
        forall|i: int|
            0 <= i < after1.len() ==> exists|j: int|
                0 <= j < after2.len() && #[trigger] after1[i] == after2[j],
        forall|j: int|
            0 <= j < after2.len() ==> exists|i: int|
                0 <= i < after1.len() && #[trigger] after2[j] == after1[i],
    ensures
        forall|d: DeviceAttachmentsAttachmentDiff|
            spec_att_diffs(before, after1).contains(d) <==> spec_att_diffs(
                before,
                after2,
            ).contains(d),
{
    assert forall|k: Seq<char>| att_key_in_upserts(after1, k) <==> att_key_in_upserts(
        after2,
        k,
    ) by {
        if att_key_in_upserts(after1, k) {
            let i = choose|i: int| 0 <= i < after1.len() && spec_att_key(#[trigger] after1[i]) == k;
            let j = choose|j: int| 0 <= j < after2.len() && after1[i] == after2[j];
            assert(spec_att_key(after2[j]) == k);
        }
        if att_key_in_upserts(after2, k) {
            let j = choose|j: int| 0 <= j < after2.len() && spec_att_key(#[trigger] after2[j]) == k;
            let i = choose|i: int| 0 <= i < after1.len() && after2[j] == after1[i];
            assert(spec_att_key(after1[i]) == k);
        }
    }
    lemma_att_removed_same(before, after1, after2);
    assert forall|d: DeviceAttachmentsAttachmentDiff|
        spec_att_diffs(before, after1).contains(d) <==> spec_att_diffs(
            before,
            after2,
        ).contains(d) by {
        lemma_seq_add_contains(
            spec_att_after_diffs(before, after1),
            spec_att_removed_diffs(before, after1),
            d,
        );
        lemma_seq_add_contains(
            spec_att_after_diffs(before, after2),
            spec_att_removed_diffs(before, after2),
            d,
        );
        lemma_att_after_diffs_member(before, after1, d);
        lemma_att_after_diffs_member(before, after2, d);
        if spec_att_after_diffs(before, after1).contains(d) {
            let i = choose|i: int|
                0 <= i < after1.len() && spec_att_entry(before, #[trigger] after1[i]) == Some(d);
            let j = choose|j: int| 0 <= j < after2.len() && after1[i] == after2[j];
            assert(spec_att_entry(before, after2[j]) == Some(d));
        }
        if spec_att_after_diffs(before, after2).contains(d) {
            let j = choose|j: int|
                0 <= j < after2.len() && spec_att_entry(before, #[trigger] after2[j]) == Some(d);
            let i = choose|i: int| 0 <= i < after1.len() && after2[j] == after1[i];
            assert(spec_att_entry(before, after1[i]) == Some(d));
        }
    }
}


// Idempotence: a stable submission that the store already reflects changes
// nothing when applied again.

/// A submission that names every component and references every attachment:
/// applying it assigns no fresh identifiers, so applying it twice writes the
/// same records both times.
pub open spec fn spec_stable_submission(info: UpdatedDeviceInfo) -> bool {
    &&& forall|i: int|
        0 <= i < info.components@.len() ==> (#[trigger] info.components@[i]).component_id is Some
            && !info.components@[i].deleted
    &&& forall|i: int|
        0 <= i < info.attachments@.len() ==> (#[trigger] info.attachments@[i] matches
        UpdatedDeviceAttachment::Existing { deleted, .. } && !deleted)
}

/// Whether the store already holds exactly what a submission asks for: every
/// submitted column value stored, every named component live with the same
/// type, every referenced attachment live with the same description — and no
/// other live component or attachment on the device.
pub open spec fn spec_submission_matches_store(
    store: Store,
    iid: i32,
    info: UpdatedDeviceInfo,
) -> bool {
    &&& forall|i: int|
        0 <= i < info.column_data@.len() ==> ({
            let c = #[trigger] info.column_data@[i];
            let di = spec_data_index(store.device_data@, iid, c.column_definition_id);
            di != -1 && store.device_data@[di].data_value@ == c.data_value@
        })
    &&& forall|i: int|
        0 <= i < info.components@.len() ==> ({
            let c = #[trigger] info.components@[i];
            c.component_id matches Some(cid) && ({
                let ci = spec_component_index(store.components@, iid, cid@);
                ci != -1 && !store.components@[ci].deleted
                    && store.components@[ci].component_type@ == c.component_type@
            })
        })
    &&& forall|k: int|
        0 <= k < store.components@.len() && (#[trigger] store.components@[k]).device_key_info_id
            == iid && !store.components@[k].deleted ==> comp_id_among(
            info.components@,
            info.components@.len() as int,
            store.components@[k].component_id@,
        )
    &&& forall|i: int|
        0 <= i < info.attachments@.len() ==> ({
            let a = #[trigger] info.attachments@[i];
            a matches UpdatedDeviceAttachment::Existing { attachment_id, description, .. } && ({
                let ai = spec_attachment_index(store.attachments@, iid, attachment_id@);
                ai != -1 && !store.attachments@[ai].deleted
                    && store.attachments@[ai].description@ == description@
            })
        })
    &&& forall|k: int|
        0 <= k < store.attachments@.len() && (#[trigger] store.attachments@[k]).device_key_info_id
            == iid && !store.attachments@[k].deleted ==> att_id_among(
            info.attachments@,
            info.attachments@.len() as int,
            store.attachments@[k].attachment_id@,
        )
}

proof fn lemma_find_data_props(l: Seq<DeviceData>, col: i32)
    ensures
        match spec_find_data(l, col) {
            Some(e) => l.contains(e) && e.column_definition_id == col,
            None => forall|i: int| 0 <= i < l.len() ==> (#[trigger] l[i]).column_definition_id != col,
        },
    decreases l.len(),
{
    if l.len() > 0 && l[0].column_definition_id != col {
        let dropped = l.drop_first();
        lemma_find_data_props(dropped, col);
        assert forall|i: int| 0 < i < l.len() implies #[trigger] l[i] == dropped[i - 1] by {}
        match spec_find_data(dropped, col) {
            Some(e) => {
                let k = choose|k: int| 0 <= k < dropped.len() && dropped[k] == e;
                assert(l[k + 1] == e);
            },
            None => {},
        }
    }
}

proof fn lemma_find_comp_props(l: Seq<DeviceComponent>, key: Seq<char>)
    ensures
        match spec_find_comp(l, key) {
            Some(e) => l.contains(e) && e.component_id@ == key,
            None => forall|i: int| 0 <= i < l.len() ==> (#[trigger] l[i]).component_id@ != key,
        },
    decreases l.len(),
{
    if l.len() > 0 && l[0].component_id@ != key {
        let dropped = l.drop_first();
        lemma_find_comp_props(dropped, key);
        assert forall|i: int| 0 < i < l.len() implies #[trigger] l[i] == dropped[i - 1] by {}
        match spec_find_comp(dropped, key) {
            Some(e) => {
                let k = choose|k: int| 0 <= k < dropped.len() && dropped[k] == e;
                assert(l[k + 1] == e);
            },
            None => {},
        }
    }
}

proof fn lemma_find_att_props(l: Seq<DeviceAttachmentMetadata>, key: Seq<char>)
    ensures
        match spec_find_att(l, key) {
            Some(e) => l.contains(e) && e.attachment_id@ == key,
            None => forall|i: int| 0 <= i < l.len() ==> (#[trigger] l[i]).attachment_id@ != key,
        },
    decreases l.len(),
{
    if l.len() > 0 && l[0].attachment_id@ != key {
        let dropped = l.drop_first();
        lemma_find_att_props(dropped, key);
        assert forall|i: int| 0 < i < l.len() implies #[trigger] l[i] == dropped[i - 1] by {}
        match spec_find_att(dropped, key) {
            Some(e) => {
                let k = choose|k: int| 0 <= k < dropped.len() && dropped[k] == e;
                assert(l[k + 1] == e);
            },
            None => {},
        }
    }
}

proof fn lemma_data_projection_complete(rows: Seq<DeviceData>, dki: i32, k: int)
    requires
        0 <= k < rows.len(),
        rows[k].device_key_info_id == dki,
    ensures
        spec_data_of(rows, dki).contains(rows[k]),
    decreases rows.len(),
{
    if k == rows.len() - 1 {
        let full = spec_data_of(rows, dki);
        assert(full[full.len() - 1] == rows[k]);
    } else {
        let dropped = rows.drop_last();
        assert(dropped[k] == rows[k]);
        lemma_data_projection_complete(dropped, dki, k);
        let rest = spec_data_of(dropped, dki);
        let j = choose|j: int| 0 <= j < rest.len() && rest[j] == rows[k];
        assert(spec_data_of(rows, dki)[j] == rows[k]);
    }
}

proof fn lemma_comp_projection_complete(rows: Seq<DeviceComponentRow>, dki: i32, k: int)
    requires
        0 <= k < rows.len(),
        rows[k].device_key_info_id == dki,
        !rows[k].deleted,
    ensures
        spec_live_components_of(rows, dki).contains(
            DeviceComponent {
                id: rows[k].id,
                device_key_info_id: rows[k].device_key_info_id,
                component_id: rows[k].component_id,
                component_type: rows[k].component_type,
            },
        ),
    decreases rows.len(),
{
    let e = DeviceComponent {
        id: rows[k].id,
        device_key_info_id: rows[k].device_key_info_id,
        component_id: rows[k].component_id,
        component_type: rows[k].component_type,
    };
    if k == rows.len() - 1 {
        let full = spec_live_components_of(rows, dki);
        assert(full[full.len() - 1] == e);
    } else {
        let dropped = rows.drop_last();
        assert(dropped[k] == rows[k]);
        lemma_comp_projection_complete(dropped, dki, k);
        let rest = spec_live_components_of(dropped, dki);
        let j = choose|j: int| 0 <= j < rest.len() && rest[j] == e;
        assert(spec_live_components_of(rows, dki)[j] == e);
    }
}

proof fn lemma_att_projection_complete(rows: Seq<DeviceAttachmentRow>, dki: i32, k: int)
    requires
        0 <= k < rows.len(),
        rows[k].device_key_info_id == dki,
        !rows[k].deleted,
    ensures
        spec_live_attachments_of(rows, dki).contains(
            DeviceAttachmentMetadata {
                id: rows[k].id,
                device_key_info_id: rows[k].device_key_info_id,
                attachment_id: rows[k].attachment_id,
                description: rows[k].description,
                file_name: rows[k].file_name,
            },
        ),
    decreases rows.len(),
{
    let e = DeviceAttachmentMetadata {
        id: rows[k].id,
        device_key_info_id: rows[k].device_key_info_id,
        attachment_id: rows[k].attachment_id,
        description: rows[k].description,
        file_name: rows[k].file_name,
    };
    if k == rows.len() - 1 {
        let full = spec_live_attachments_of(rows, dki);
        assert(full[full.len() - 1] == e);
    } else {
        let dropped = rows.drop_last();
        assert(dropped[k] == rows[k]);
        lemma_att_projection_complete(dropped, dki, k);
        let rest = spec_live_attachments_of(dropped, dki);
        let j = choose|j: int| 0 <= j < rest.len() && rest[j] == e;
        assert(spec_live_attachments_of(rows, dki)[j] == e);
    }
}

/// Law: applying a submission the store already reflects is a no-op. For a
/// stable submission (every component named, every attachment referenced)
/// whose values, types and descriptions are already stored, and which covers
/// the device's live components and attachments, the normalized after-state
/// diffs to nothing — so the reconciliation appends no audit row. Together
/// with `upsert_device`'s contract this is the idempotence of resubmission:
/// the second of two identical applications changes nothing and logs nothing.
pub proof fn law_resubmission_is_no_change(
    store: Store,
    idx: int,
    iid: i32,
    info: UpdatedDeviceInfo,
    a: AfterState,
)
    requires
        store.wf(),
        0 <= idx < store.devices@.len(),
        store.devices@[idx].id == iid,
        store.devices@[idx].location_id == info.location_id,
        after_state_matches(info, a, iid, store.devices@[idx].device_id@),
        spec_stable_submission(info),
        spec_submission_matches_store(store, iid, info),
    ensures
        spec_no_change_vs(store, idx, iid, a),
{
    let bd = spec_data_of(store.device_data@, iid);
    let bc = spec_live_components_of(store.components@, iid);
    let ba = spec_live_attachments_of(store.attachments@, iid);
    lemma_data_of_unique(store.device_data@, iid);
    lemma_components_of_unique(store.components@, iid);
    lemma_attachments_of_unique(store.attachments@, iid);

    // Columns: every submitted value is already stored.
    assert forall|i: int| 0 <= i < a.data@.len() implies spec_col_entry(
        bd,
        #[trigger] a.data@[i],
    ) is None by {
        assert(data_row_matches(info.column_data@[i], a.data@[i], iid));
        let c = info.column_data@[i];
        let col = c.column_definition_id;
        let di = spec_data_index(store.device_data@, iid, col);
        lemma_data_index(store.device_data@, iid, col);
        lemma_data_projection_complete(store.device_data@, iid, di);
        lemma_find_data_props(bd, col);
        match spec_find_data(bd, col) {
            Some(e) => {
                let k = choose|k: int| 0 <= k < store.device_data@.len() && store.device_data@[k]
                    == e;
                assert(!(store.device_data@[k].device_key_info_id
                    == store.device_data@[di].device_key_info_id
                    && store.device_data@[k].column_definition_id
                    == store.device_data@[di].column_definition_id) || k == di);
                assert(e == store.device_data@[di]);
                assert(e.data_value@ == a.data@[i].data_value@);
            },
            None => {
                assert(bd.contains(store.device_data@[di]));
                assert(false);
            },
        }
    }
    lemma_col_diffs_all_none(bd, a.data@);

    // Components: every submitted component is already stored with its type,
    // and every live component is covered by the submission.
    assert forall|i: int| 0 <= i < a.components@.len() implies spec_comp_entry(
        bc,
        #[trigger] a.components@[i],
    ) is None by {
        assert(comp_op_matches(info.components@[i], a.components@[i], iid));
        let c = info.components@[i];
        let cid = c.component_id->Some_0;
        let ci = spec_component_index(store.components@, iid, cid@);
        lemma_component_index(store.components@, iid, cid@);
        lemma_comp_projection_complete(store.components@, iid, ci);
        lemma_find_comp_props(bc, cid@);
        let mapped = DeviceComponent {
            id: store.components@[ci].id,
            device_key_info_id: store.components@[ci].device_key_info_id,
            component_id: store.components@[ci].component_id,
            component_type: store.components@[ci].component_type,
        };
        match spec_find_comp(bc, cid@) {
            Some(e) => {
                let k = choose|k: int|
                    0 <= k < store.components@.len() && (
                    #[trigger] store.components@[k]).device_key_info_id == iid
                        && !store.components@[k].deleted && store.components@[k].component_id
                        == e.component_id && store.components@[k].component_type
                        == e.component_type;
                assert(!(store.components@[k].device_key_info_id
                    == store.components@[ci].device_key_info_id
                    && store.components@[k].component_id@ == store.components@[ci].component_id@)
                    || k == ci);
                assert(e.component_type@ == store.components@[ci].component_type@);
                assert(a.components@[i] matches DeviceComponentUpsert::NewExisting(n)
                    && n.component_type@ == e.component_type@);
            },
            None => {
                assert(bc.contains(mapped));
                assert(false);
            },
        }
    }
    lemma_comp_after_diffs_all_none(bc, a.components@);
    assert forall|j: int| 0 <= j < bc.len() implies comp_key_in_upserts(
        a.components@,
        (#[trigger] bc[j]).component_id@,
    ) by {
        assert(bc.contains(bc[j]));
        let k = choose|k: int|
            0 <= k < store.components@.len() && (#[trigger] store.components@[k]).device_key_info_id
                == iid && !store.components@[k].deleted && store.components@[k].component_id == bc[
                j
            ].component_id && store.components@[k].component_type == bc[j].component_type;
        assert(comp_id_among(
            info.components@,
            info.components@.len() as int,
            store.components@[k].component_id@,
        ));
        let t = choose|t: int|
            0 <= t < info.components@.len() && ((#[trigger] info.components@[t]).component_id
                matches Some(o) && o@ == bc[j].component_id@);
        assert(comp_op_matches(info.components@[t], a.components@[t], iid));
        assert(spec_comp_key(a.components@[t]) == bc[j].component_id@);
    }
    lemma_comp_removed_none(bc, a.components@);

    // Attachments: every reference matches the stored description, and every
    // live attachment is covered by the submission.
    assert forall|i: int| 0 <= i < a.attachments@.len() implies spec_att_entry(
        ba,
        #[trigger] a.attachments@[i],
    ) is None by {
        assert(att_op_matches(info.attachments@[i], a.attachments@[i], iid, store.devices@[idx].device_id@));
        match info.attachments@[i] {
            UpdatedDeviceAttachment::Existing { attachment_id, description, .. } => {
                let ai = spec_attachment_index(store.attachments@, iid, attachment_id@);
                lemma_attachment_index(store.attachments@, iid, attachment_id@);
                lemma_att_projection_complete(store.attachments@, iid, ai);
                lemma_find_att_props(ba, attachment_id@);
                let mapped = DeviceAttachmentMetadata {
                    id: store.attachments@[ai].id,
                    device_key_info_id: store.attachments@[ai].device_key_info_id,
                    attachment_id: store.attachments@[ai].attachment_id,
                    description: store.attachments@[ai].description,
                    file_name: store.attachments@[ai].file_name,
                };
                match spec_find_att(ba, attachment_id@) {
                    Some(e) => {
                        let k = choose|k: int|
                            0 <= k < store.attachments@.len() && (
                            #[trigger] store.attachments@[k]).device_key_info_id == iid
                                && !store.attachments@[k].deleted
                                && store.attachments@[k].attachment_id == e.attachment_id
                                && store.attachments@[k].description == e.description
                                && store.attachments@[k].file_name == e.file_name;
                        assert(!(store.attachments@[k].device_key_info_id
                            == store.attachments@[ai].device_key_info_id
                            && store.attachments@[k].attachment_id@
                            == store.attachments@[ai].attachment_id@) || k == ai);
                        assert(e.description@ == store.attachments@[ai].description@);
                        assert(a.attachments@[i] matches DeviceAttachmentUpsert::Existing(x)
                            && x.description@ == e.description@);
                    },
                    None => {
                        assert(ba.contains(mapped));
                        assert(false);
                    },
                }
            },
            UpdatedDeviceAttachment::New { .. } => {
                assert(false);
            },
        }
    }
    lemma_att_after_diffs_all_none(ba, a.attachments@);
    assert forall|j: int| 0 <= j < ba.len() implies att_key_in_upserts(
        a.attachments@,
        (#[trigger] ba[j]).attachment_id@,
    ) by {
        assert(ba.contains(ba[j]));
        let k = choose|k: int|
            0 <= k < store.attachments@.len() && (
            #[trigger] store.attachments@[k]).device_key_info_id == iid
                && !store.attachments@[k].deleted && store.attachments@[k].attachment_id == ba[
                j
            ].attachment_id && store.attachments@[k].description == ba[j].description
                && store.attachments@[k].file_name == ba[j].file_name;
        assert(att_id_among(
            info.attachments@,
            info.attachments@.len() as int,
            store.attachments@[k].attachment_id@,
        ));
        let t = choose|t: int|
            0 <= t < info.attachments@.len() && ((#[trigger] info.attachments@[t])
                matches UpdatedDeviceAttachment::Existing { attachment_id: o, .. } && o@ == ba[
                j
            ].attachment_id@);
        assert(att_op_matches(
            info.attachments@[t],
            a.attachments@[t],
            iid,
            store.devices@[idx].device_id@,
        ));
        assert(spec_att_key(a.attachments@[t]) == ba[j].attachment_id@);
    }
    lemma_att_removed_none(ba, a.attachments@);
}

} // verus!

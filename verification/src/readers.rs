//! Pure read operations: the complete device view, the change log newest
//! first, existence queries and attachment retrieval. None of these mutate
//! the store.

use vstd::prelude::*;
use vstd::multiset::group_multiset_axioms;
use vstd::seq_lib::group_to_multiset_ensures;

use crate::diff::Snapshot;
use crate::error::{Error, UserError};
use crate::models::{DeviceChange, DeviceChangeDisplay, User};
use crate::pages::FileFromMemory;
use crate::snapshot::spec_changes_of;
use crate::store::{
    lemma_attachment_index, lemma_device_index, lemma_user_index, spec_attachment_index,
    spec_device_index, spec_user_index, Store,
};

verus! {

// The display join: each change row paired with its acting user's name

/// The display name of the user with surrogate key `uid`, if the user still
/// exists.
pub open spec fn spec_user_name(users: Seq<User>, uid: Option<i32>) -> Option<String> {
    match uid {
        Some(u) => {
            let idx = spec_user_index(users, u);
            if idx == -1 {
                None
            } else {
                Some(users[idx].display_name)
            }
        },
        None => None,
    }
}

/// One change row joined with its acting user's display name.
pub open spec fn spec_display_row(users: Seq<User>, c: DeviceChange) -> DeviceChangeDisplay {
    DeviceChangeDisplay {
        id: c.id,
        device_key_info_id: c.device_key_info_id,
        timestamp: c.timestamp,
        done_automatically: c.done_automatically,
        user_id: c.user_id,
        user: spec_user_name(users, c.user_id),
        change: c.change,
    }
}

/// All change rows joined with their acting users' display names.
pub open spec fn spec_display_rows(users: Seq<User>, rows: Seq<DeviceChange>) -> Seq<
    DeviceChangeDisplay,
>
    decreases rows.len(),
{
    if rows.len() == 0 {
        Seq::empty()
    } else {
        spec_display_rows(users, rows.drop_last()).push(spec_display_row(users, rows.last()))
    }
}

/// Whether a sequence of display rows is ordered newest first.
pub open spec fn sorted_newest_first(rows: Seq<DeviceChangeDisplay>) -> bool {
    forall|i: int, j: int|
        0 <= i < j < rows.len() ==> (#[trigger] rows[i]).timestamp >= (#[trigger] rows[j]).timestamp
}

impl Store {
    /// The display name of the user with surrogate key `uid`, if any.
    fn user_name(&self, uid: Option<i32>) -> (r: Option<String>)
        ensures
            r == spec_user_name(self.users@, uid),
    {
        match uid {
            Some(u) => {
                let mut i: usize = 0;
                while i < self.users.len()
                    invariant
                        uid == Some(u),
                        i <= self.users@.len(),
                        forall|k: int| 0 <= k < i ==> (#[trigger] self.users@[k]).id != u,
                    decreases self.users@.len() - i,
                {
                    if self.users[i].id == u {
                        proof {
                            lemma_user_index(self.users@, u);
                        }
                        return Some(self.users[i].display_name.clone());
                    }
                    i += 1;
                }
                proof {
                    lemma_user_index(self.users@, u);
                }
                None
            },
            None => None,
        }
    }

    /// The device's change rows joined with user names, in store order.
    fn display_changes_of(&self, dki: i32) -> (r: Vec<DeviceChangeDisplay>)
        ensures
            r@ == spec_display_rows(self.users@, spec_changes_of(self.changes@, dki)),
    {
        let rows = self.changes_of(dki);
        let mut out: Vec<DeviceChangeDisplay> = Vec::new();
        let mut i: usize = 0;
        while i < rows.len()
            invariant
                i <= rows@.len(),
                rows@ == spec_changes_of(self.changes@, dki),
                out@ == spec_display_rows(self.users@, rows@.take(i as int)),
            decreases rows@.len() - i,
        {
            let c = &rows[i];
            out.push(
                DeviceChangeDisplay {
                    id: c.id,
                    device_key_info_id: c.device_key_info_id,
                    timestamp: c.timestamp,
                    done_automatically: c.done_automatically,
                    user_id: c.user_id,
                    user: self.user_name(c.user_id),
                    change: c.change.clone(),
                },
            );
            proof {
                assert(rows@.take(i + 1).drop_last() =~= rows@.take(i as int));
                assert(rows@.take(i + 1).last() == rows@[i as int]);
            }
            i += 1;
        }
        proof {
            assert(rows@.take(rows@.len() as int) =~= rows@);
        }
        out
    }
}

/// Orders display rows newest first. The result holds exactly the given rows.
fn sort_newest_first(input: Vec<DeviceChangeDisplay>) -> (r: Vec<DeviceChangeDisplay>)
    ensures
        r@.to_multiset() == input@.to_multiset(),
        sorted_newest_first(r@),
{
    broadcast use group_to_multiset_ensures;
    broadcast use group_multiset_axioms;

    let mut v = input;
    let ghost orig = v@;
    let mut out: Vec<DeviceChangeDisplay> = Vec::new();
    proof {
        assert(out@.to_multiset().len() == 0);
        assert(out@.to_multiset().add(v@.to_multiset()) =~= orig.to_multiset());
    }
    while v.len() > 0
        invariant
            out@.to_multiset().add(v@.to_multiset()) =~= orig.to_multiset(),
            sorted_newest_first(out@),
            forall|i: int|
                0 <= i < v@.len() && out@.len() > 0 ==> out@.last().timestamp >= (
                #[trigger] v@[i]).timestamp,
        decreases v@.len(),
    {
        let mut mi: usize = 0;
        let mut i: usize = 1;
        while i < v.len()
            invariant
                mi < i <= v@.len(),
                forall|j: int| 0 <= j < i ==> (#[trigger] v@[j]).timestamp <= v@[mi as int].timestamp,
            decreases v@.len() - i,
        {
            if v[i].timestamp > v[mi].timestamp {
                mi = i;
            }
            i += 1;
        }
        let ghost prev = v@;
        let ghost prev_out = out@;
        let x = v.remove(mi);
        out.push(x);
        proof {
            broadcast use group_to_multiset_ensures;
            broadcast use group_multiset_axioms;

            assert(prev[mi as int] == x);
            assert(v@ == prev.remove(mi as int));
            assert(prev.remove(mi as int).to_multiset() =~= prev.to_multiset().remove(x));
            assert(out@ == prev_out.push(x));
            assert(prev_out.push(x).to_multiset() =~= prev_out.to_multiset().insert(x));
            assert(prev.contains(x));
            assert(prev.to_multiset().count(x) > 0);
            assert(out@.to_multiset().add(v@.to_multiset()) =~= orig.to_multiset());
            assert forall|i2: int| 0 <= i2 < v@.len() implies out@.last().timestamp >= (
            #[trigger] v@[i2]).timestamp by {
                if i2 < mi {
                    assert(v@[i2] == prev[i2]);
                } else {
                    assert(v@[i2] == prev[i2 + 1]);
                }
            }
            assert forall|a: int, b: int| 0 <= a < b < out@.len() implies (
            #[trigger] out@[a]).timestamp >= (#[trigger] out@[b]).timestamp by {
                if b < out@.len() - 1 {
                    assert(prev_out[a] == out@[a] && prev_out[b] == out@[b]);
                } else {
                    assert(out@[b] == x);
                    if out@.len() >= 2 {
                        assert(prev_out.last().timestamp >= prev[mi as int].timestamp);
                        assert(prev_out[a] == out@[a]);
                    }
                }
            }
        }
    }
    out
}

/// The change log of a device, joined with user display names, newest first.
pub fn list_change_log(store: &Store, device: &String) -> (r: Result<
    Vec<DeviceChangeDisplay>,
    Error,
>)
    requires
        store.wf(),
    ensures
        match r {
            Ok(rows) => ({
                let idx = spec_device_index(store.devices@, device@);
                &&& idx != -1
                &&& rows@.to_multiset() == spec_display_rows(
                    store.users@,
                    spec_changes_of(store.changes@, store.devices@[idx].id),
                ).to_multiset()
                &&& sorted_newest_first(rows@)
            }),
            Err(e) => spec_device_index(store.devices@, device@) == -1 && (e matches Error::User(u)
                && u is NotFound),
        },
{
    let di = match store.find_device_index(device) {
        Some(i) => i,
        None => {
            return Err(Error::User(UserError::NotFound("Invalid device ID.")));
        },
    };
    proof {
        lemma_device_index(store.devices@, device@);
    }
    let dki = store.devices[di].id;
    Ok(sort_newest_first(store.display_changes_of(dki)))
}

/// The complete view of a device: its snapshot plus its change log, newest
/// first.
pub fn load_device_info(store: &Store, device: &String) -> (r: Result<
    (Snapshot, Vec<DeviceChangeDisplay>),
    Error,
>)
    requires
        store.wf(),
    ensures
        match r {
            Ok((snap, rows)) => ({
                let idx = spec_device_index(store.devices@, device@);
                &&& idx != -1
                &&& snap.key_info.id == store.devices@[idx].id
                &&& snap.key_info.device_id@ == device@
                &&& rows@.to_multiset() == spec_display_rows(
                    store.users@,
                    spec_changes_of(store.changes@, store.devices@[idx].id),
                ).to_multiset()
                &&& sorted_newest_first(rows@)
            }),
            Err(e) => spec_device_index(store.devices@, device@) == -1 && (e matches Error::User(u)
                && u is NotFound),
        },
{
    let snap = match store.get_device_snapshot(device) {
        Some(s) => s,
        None => {
            return Err(Error::User(UserError::NotFound("Invalid device ID.")));
        },
    };
    proof {
        lemma_device_index(store.devices@, device@);
    }
    let changes = sort_newest_first(store.display_changes_of(snap.key_info.id));
    Ok((snap, changes))
}

/// Whether a device with the given public identifier exists.
pub fn get_device_exists(store: &Store, device: &String) -> (r: bool)
    ensures
        r == (spec_device_index(store.devices@, device@) != -1),
{
    store.device_id_exists(device)
}

/// Whether some other, non-deleted device already carries this column value.
pub open spec fn spec_data_value_exists(
    store: Store,
    column_id: i32,
    device_opt: Option<String>,
    value: String,
) -> bool {
    exists|i: int, j: int|
        0 <= i < store.device_data@.len() && 0 <= j < store.devices@.len() && (
        #[trigger] store.device_data@[i]).column_definition_id == column_id
            && store.device_data@[i].data_value@ == value@ && (
        #[trigger] store.devices@[j]).id == store.device_data@[i].device_key_info_id
            && !store.devices@[j].deleted && (match device_opt {
            Some(d) => store.devices@[j].device_id@ != d@,
            None => true,
        })
}

/// Checks whether a column value is already in use by another, non-deleted
/// device; the current device's own value does not count as a match.
pub fn data_value_exists(
    store: &Store,
    column_id: i32,
    device_opt: Option<&String>,
    value: &String,
) -> (r: bool)
    ensures
        r == spec_data_value_exists(*store, column_id, match device_opt {
            Some(d) => Some(*d),
            None => None,
        }, *value),
{
    let ghost dev_ghost: Option<String> = match device_opt {
        Some(d) => Some(*d),
        None => None,
    };
    let mut i: usize = 0;
    while i < store.device_data.len()
        invariant
            i <= store.device_data@.len(),
            dev_ghost == (match device_opt {
                Some(d) => Some(*d),
                None => None,
            }),
            forall|i2: int, j2: int|
                !(0 <= i2 < i && 0 <= j2 < store.devices@.len() && (
                #[trigger] store.device_data@[i2]).column_definition_id == column_id
                    && store.device_data@[i2].data_value@ == value@ && (
                #[trigger] store.devices@[j2]).id == store.device_data@[i2].device_key_info_id
                    && !store.devices@[j2].deleted && (match dev_ghost {
                    Some(d) => store.devices@[j2].device_id@ != d@,
                    None => true,
                })),
        decreases store.device_data@.len() - i,
    {
        let row = &store.device_data[i];
        if row.column_definition_id == column_id && row.data_value.eq(value) {
            let mut j: usize = 0;
            while j < store.devices.len()
                invariant
                    j <= store.devices@.len(),
                    i < store.device_data@.len(),
                    row == store.device_data@[i as int],
                    row.column_definition_id == column_id,
                    row.data_value@ == value@,
                    dev_ghost == (match device_opt {
                        Some(d) => Some(*d),
                        None => None,
                    }),
                    forall|j2: int|
                        !(0 <= j2 < j && (#[trigger] store.devices@[j2]).id
                            == store.device_data@[i as int].device_key_info_id
                            && !store.devices@[j2].deleted && (match dev_ghost {
                            Some(d) => store.devices@[j2].device_id@ != d@,
                            None => true,
                        })),
                decreases store.devices@.len() - j,
            {
                let dev = &store.devices[j];
                if dev.id == row.device_key_info_id && !dev.deleted {
                    let excluded = match device_opt {
                        Some(d) => dev.device_id.eq(d),
                        None => false,
                    };
                    if !excluded {
                        return true;
                    }
                }
                j += 1;
            }
        }
        i += 1;
    }
    false
}

/// Fetches an attachment's contents by device and attachment identifier, for
/// download.
pub fn get_attachment(store: &Store, device: &String, attachment: &String) -> (r: Result<
    FileFromMemory,
    Error,
>)
    requires
        store.wf(),
    ensures
        match r {
            Ok(f) => ({
                let di = spec_device_index(store.devices@, device@);
                &&& di != -1
                &&& ({
                    let ai = spec_attachment_index(
                        store.attachments@,
                        store.devices@[di].id,
                        attachment@,
                    );
                    &&& ai != -1
                    &&& f.file_name@ == store.attachments@[ai].file_name@
                    &&& f.contents@ == store.attachments@[ai].file_data@
                })
            }),
            Err(e) => e matches Error::User(u) && u is NotFound,
        },
{
    let di = match store.find_device_index(device) {
        Some(i) => i,
        None => {
            return Err(Error::User(UserError::NotFound("Attachment not found.")));
        },
    };
    proof {
        lemma_device_index(store.devices@, device@);
    }
    let dki = store.devices[di].id;
    let ai = match store.find_attachment_index(dki, attachment) {
        Some(i) => i,
        None => {
            return Err(Error::User(UserError::NotFound("Attachment not found.")));
        },
    };
    proof {
        lemma_attachment_index(store.attachments@, dki, attachment@);
    }
    let row = &store.attachments[ai];
    let mut contents: Vec<u8> = Vec::new();
    let mut b: usize = 0;
    while b < row.file_data.len()
        invariant
            b <= row.file_data@.len(),
            contents@ == row.file_data@.take(b as int),
            row == store.attachments@[ai as int],
        decreases row.file_data@.len() - b,
    {
        contents.push(row.file_data[b]);
        proof {
            assert(row.file_data@.take(b + 1).drop_last() =~= row.file_data@.take(b as int));
            assert(row.file_data@.take(b + 1).last() == row.file_data@[b as int]);
        }
        b += 1;
    }
    proof {
        assert(row.file_data@.take(row.file_data@.len() as int) =~= row.file_data@);
    }
    Ok(FileFromMemory::new(&row.file_name, contents))
}

} // verus!

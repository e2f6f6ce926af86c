use pecan::diff::{
    compute_diff, AfterState, DeviceAttachmentsAttachmentDiff, DeviceComponentsComponentDiff,
    DeviceDiff, DeviceKeyInfoDiff, Snapshot,
};
use pecan::models::{
    DeviceAttachmentMetadata, DeviceAttachmentUpsert, DeviceComponent, DeviceComponentNew,
    DeviceComponentUpsert, DeviceData, DeviceDataNew, DeviceInfo,
};

fn key_info(location_id: i32) -> DeviceInfo {
    DeviceInfo {
        id: 1,
        device_id: String::from("123456"),
        deleted: false,
        location_id,
        location: String::from("Lab"),
        last_updated: 0,
    }
}

fn key_info_new(location_id: i32) -> pecan::models::DeviceKeyInfoNew {
    pecan::models::DeviceKeyInfoNew { device_id: String::from("123456"), location_id }
}

fn data_row(col: i32, value: &str) -> DeviceData {
    DeviceData {
        id: 0,
        device_key_info_id: 1,
        column_definition_id: col,
        data_value: String::from(value),
    }
}

fn data_new(col: i32, value: &str) -> DeviceDataNew {
    DeviceDataNew { device_key_info_id: 1, column_definition_id: col, data_value: String::from(value) }
}

fn comp_row(id: &str, kind: &str) -> DeviceComponent {
    DeviceComponent {
        id: 0,
        device_key_info_id: 1,
        component_id: String::from(id),
        component_type: String::from(kind),
    }
}

fn comp_up(id: &str, kind: &str) -> DeviceComponentUpsert {
    DeviceComponentUpsert::NewExisting(DeviceComponentNew {
        device_key_info_id: 1,
        component_id: String::from(id),
        component_type: String::from(kind),
    })
}

fn att_row(id: &str, desc: &str, name: &str) -> DeviceAttachmentMetadata {
    DeviceAttachmentMetadata {
        id: 0,
        device_key_info_id: 1,
        attachment_id: String::from(id),
        description: String::from(desc),
        file_name: String::from(name),
    }
}

#[test]
fn identical_states_yield_no_diff() {
    // Structural equality, not identity: freshly built values with the same
    // contents diff to nothing.
    let before = Snapshot {
        key_info: key_info(1),
        data: vec![data_row(5, "x"), data_row(6, "y")],
        components: vec![comp_row("111", "fan")],
        attachments: vec![att_row("900", "manual", "m.pdf")],
    };
    let after = AfterState {
        key_info: key_info_new(1),
        data: vec![data_new(5, "x"), data_new(6, "y")],
        components: vec![comp_up("111", "fan")],
        attachments: vec![DeviceAttachmentUpsert::Existing(
            pecan::models::DeviceAttachmentExisting {
                device_key_info_id: 1,
                attachment_id: String::from("900"),
                description: String::from("manual"),
            },
        )],
    };
    assert!(compute_diff(Some(&before), &after).is_none());
}

#[test]
fn reordered_lists_yield_no_diff() {
    // Matching is keyed by identifier: permuting both submitted lists still
    // produces no diff against the same snapshot.
    let before = Snapshot {
        key_info: key_info(1),
        data: vec![data_row(5, "x"), data_row(6, "y")],
        components: vec![comp_row("111", "fan"), comp_row("222", "disk")],
        attachments: vec![],
    };
    let after = AfterState {
        key_info: key_info_new(1),
        data: vec![data_new(6, "y"), data_new(5, "x")],
        components: vec![comp_up("222", "disk"), comp_up("111", "fan")],
        attachments: vec![],
    };
    assert!(compute_diff(Some(&before), &after).is_none());
}

#[test]
fn new_device_diff_is_all_additions() {
    let after = AfterState {
        key_info: key_info_new(3),
        data: vec![data_new(5, "x")],
        components: vec![comp_up("111", "fan")],
        attachments: vec![],
    };
    let d = compute_diff(None, &after).unwrap();
    match d.device_key_info {
        Some(DeviceKeyInfoDiff::Add(data)) => assert_eq!(data.location_id, Some(3)),
        other => panic!("expected an addition, got {:?}", other),
    }
    let cols = d.device_data.unwrap().0;
    assert_eq!(cols.len(), 1);
    assert_eq!(cols[0].column_definition_id, 5);
    assert_eq!(cols[0].data_value.as_deref(), Some("x"));
    let comps = d.device_components.unwrap().0;
    assert_eq!(comps.len(), 1);
    match &comps[0] {
        DeviceComponentsComponentDiff::Add(data) => {
            assert_eq!(data.component_id, "111");
            assert_eq!(data.component_type.as_deref(), Some("fan"));
        },
        other => panic!("expected an addition, got {:?}", other),
    }
    assert!(d.device_attachments.is_none());
}

#[test]
fn changed_value_yields_edit_entry() {
    let before = Snapshot {
        key_info: key_info(1),
        data: vec![data_row(5, "x")],
        components: vec![],
        attachments: vec![],
    };
    let after = AfterState {
        key_info: key_info_new(1),
        data: vec![data_new(5, "z")],
        components: vec![],
        attachments: vec![],
    };
    let d = compute_diff(Some(&before), &after).unwrap();
    assert!(d.device_key_info.is_none());
    let cols = d.device_data.unwrap().0;
    assert_eq!(cols.len(), 1);
    assert_eq!(cols[0].column_definition_id, 5);
    assert_eq!(cols[0].data_value.as_deref(), Some("z"));
}

#[test]
fn component_left_out_yields_delete_entry() {
    let before = Snapshot {
        key_info: key_info(1),
        data: vec![],
        components: vec![comp_row("111", "fan")],
        attachments: vec![],
    };
    let after = AfterState {
        key_info: key_info_new(1),
        data: vec![],
        components: vec![],
        attachments: vec![],
    };
    let d = compute_diff(Some(&before), &after).unwrap();
    let comps = d.device_components.unwrap().0;
    assert_eq!(comps.len(), 1);
    match &comps[0] {
        DeviceComponentsComponentDiff::Delete { component_id } => assert_eq!(component_id, "111"),
        other => panic!("expected a deletion, got {:?}", other),
    }
}

#[test]
fn attachment_left_out_yields_delete_entry() {
    let before = Snapshot {
        key_info: key_info(1),
        data: vec![],
        components: vec![],
        attachments: vec![att_row("900", "manual", "m.pdf")],
    };
    let after = AfterState {
        key_info: key_info_new(1),
        data: vec![],
        components: vec![],
        attachments: vec![],
    };
    let d = compute_diff(Some(&before), &after).unwrap();
    let atts = d.device_attachments.unwrap().0;
    assert_eq!(atts.len(), 1);
    match &atts[0] {
        DeviceAttachmentsAttachmentDiff::Delete { attachment_id } => {
            assert_eq!(attachment_id, "900")
        },
        other => panic!("expected a deletion, got {:?}", other),
    }
}

#[test]
fn serializer_renders_the_audit_shape() {
    let diff = DeviceDiff {
        device_key_info: Some(DeviceKeyInfoDiff::Delete),
        device_data: None,
        device_components: None,
        device_attachments: None,
    };
    let json = pecan::json::diff_to_json(&diff);
    assert_eq!(json, "{\"deviceKeyInfo\":{\"operation\":\"delete\"}}");
}

#[test]
fn serializer_renders_negative_numbers() {
    let diff = DeviceDiff {
        device_key_info: Some(DeviceKeyInfoDiff::Edit(pecan::diff::DeviceKeyInfoDiffData {
            location_id: Some(-12),
        })),
        device_data: None,
        device_components: None,
        device_attachments: None,
    };
    let json = pecan::json::diff_to_json(&diff);
    assert_eq!(json, "{\"deviceKeyInfo\":{\"operation\":\"edit\",\"locationId\":-12}}");
}

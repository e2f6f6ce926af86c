use base64::Engine;

use pecan::devices::{
    checkout_device, create_device, delete_device, restore_device, update_device, upsert_device,
};
use pecan::error::{Error, UserError};
use pecan::models::{
    CheckoutInfo, SubmittedColumnData, UpdatedDeviceAttachment, UpdatedDeviceComponent,
    UpdatedDeviceInfo,
};
use pecan::store::Store;

const MAX_ATTACHMENT: u64 = 1024;

fn b64(bytes: &[u8]) -> String {
    base64::engine::general_purpose::STANDARD.encode(bytes)
}

fn empty_submission(location_id: i32) -> UpdatedDeviceInfo {
    UpdatedDeviceInfo { location_id, column_data: vec![], components: vec![], attachments: vec![] }
}

fn store_with_location() -> (Store, i32) {
    let mut store = Store::new();
    let loc = store.insert_location(&String::from("Lab")).unwrap();
    (store, loc)
}

fn user_err(r: Result<String, Error>) -> UserError {
    match r {
        Err(Error::User(u)) => u,
        other => panic!("expected a user error, got {:?}", other.is_ok()),
    }
}

#[test]
fn create_device_assigns_six_digit_identifier() {
    let (mut store, loc) = store_with_location();
    let id = create_device(&mut store, MAX_ATTACHMENT, &empty_submission(loc), 1, 100).unwrap();
    assert_eq!(id.len(), 6);
    assert!(id.chars().all(|c| c.is_ascii_digit()));
    assert_eq!(store.devices.len(), 1);
    assert_eq!(store.devices[0].device_id, id);
    assert_eq!(store.devices[0].location_id, loc);
    assert!(!store.devices[0].deleted);
}

#[test]
fn create_with_unknown_location_is_not_found() {
    let mut store = Store::new();
    let r = upsert_device(&mut store, MAX_ATTACHMENT, None, &empty_submission(42), 1, 100);
    assert!(matches!(user_err(r), UserError::NotFound(_)));
    assert_eq!(store.changes.len(), 0);
    assert_eq!(store.devices.len(), 0);
}

#[test]
fn update_unknown_device_is_not_found() {
    let (mut store, loc) = store_with_location();
    let r = upsert_device(
        &mut store,
        MAX_ATTACHMENT,
        Some(String::from("999999")),
        &empty_submission(loc),
        1,
        100,
    );
    assert!(matches!(user_err(r), UserError::NotFound(_)));
}

#[test]
fn update_deleted_device_is_invalid_state() {
    let (mut store, loc) = store_with_location();
    let id = create_device(&mut store, MAX_ATTACHMENT, &empty_submission(loc), 1, 100).unwrap();
    delete_device(&mut store, &id, 1, 200).unwrap();
    let r = upsert_device(&mut store, MAX_ATTACHMENT, Some(id), &empty_submission(loc), 1, 300);
    assert!(matches!(user_err(r), UserError::InvalidState(_)));
}

#[test]
fn scenario_create_logs_add_diff() {
    // Creating a device with one column value logs a diff whose key info is
    // an addition and whose data section carries exactly the new value.
    let (mut store, loc) = store_with_location();
    let submission = UpdatedDeviceInfo {
        location_id: loc,
        column_data: vec![SubmittedColumnData { column_definition_id: 5, data_value: String::from("x") }],
        components: vec![],
        attachments: vec![],
    };
    create_device(&mut store, MAX_ATTACHMENT, &submission, 7, 100).unwrap();
    assert_eq!(store.changes.len(), 1);
    let row = &store.changes[0];
    assert!(!row.done_automatically);
    assert_eq!(row.user_id, Some(7));
    assert_eq!(row.timestamp, 100);
    let v: serde_json::Value = serde_json::from_str(&row.change).unwrap();
    assert_eq!(v["deviceKeyInfo"]["operation"], "add");
    assert_eq!(v["deviceKeyInfo"]["locationId"], loc);
    assert_eq!(v["deviceData"][0]["columnDefinitionId"], 5);
    assert_eq!(v["deviceData"][0]["dataValue"], "x");
    assert!(v.get("deviceComponents").is_none());
    assert!(v.get("deviceAttachments").is_none());
}

#[test]
fn scenario_location_change_logs_edit_only() {
    // Changing only the location yields a diff holding nothing but the
    // key-information edit.
    let (mut store, loc1) = store_with_location();
    let loc2 = store.insert_location(&String::from("Shelf")).unwrap();
    let id = create_device(&mut store, MAX_ATTACHMENT, &empty_submission(loc1), 1, 100).unwrap();
    update_device(&mut store, MAX_ATTACHMENT, id, &empty_submission(loc2), 1, 200).unwrap();
    assert_eq!(store.changes.len(), 2);
    let v: serde_json::Value = serde_json::from_str(&store.changes[1].change).unwrap();
    assert_eq!(v["deviceKeyInfo"]["operation"], "edit");
    assert_eq!(v["deviceKeyInfo"]["locationId"], loc2);
    assert!(v.get("deviceData").is_none());
    assert!(v.get("deviceComponents").is_none());
    assert!(v.get("deviceAttachments").is_none());
}

#[test]
fn scenario_identical_resubmission_logs_nothing() {
    // Resubmitting the same state succeeds, returns the same identifier, and
    // appends no change-log row.
    let (mut store, loc) = store_with_location();
    let submission = UpdatedDeviceInfo {
        location_id: loc,
        column_data: vec![
            SubmittedColumnData { column_definition_id: 5, data_value: String::from("x") },
            SubmittedColumnData { column_definition_id: 6, data_value: String::from("y") },
        ],
        components: vec![],
        attachments: vec![],
    };
    let id = create_device(&mut store, MAX_ATTACHMENT, &submission, 1, 100).unwrap();
    assert_eq!(store.changes.len(), 1);
    let id2 = update_device(&mut store, MAX_ATTACHMENT, id.clone(), &submission, 1, 200).unwrap();
    assert_eq!(id, id2);
    assert_eq!(store.changes.len(), 1);
}

#[test]
fn reordered_components_log_nothing() {
    // Matching is keyed by identifier, not position: resubmitting the same
    // components in another order records no spurious change.
    let (mut store, loc) = store_with_location();
    let comp = |id: &str, kind: &str| UpdatedDeviceComponent {
        component_id: Some(String::from(id)),
        deleted: false,
        component_type: String::from(kind),
    };
    let first = UpdatedDeviceInfo {
        location_id: loc,
        column_data: vec![],
        components: vec![comp("111", "fan"), comp("222", "disk")],
        attachments: vec![],
    };
    let id = create_device(&mut store, MAX_ATTACHMENT, &first, 1, 100).unwrap();
    assert_eq!(store.changes.len(), 1);
    let reordered = UpdatedDeviceInfo {
        location_id: loc,
        column_data: vec![],
        components: vec![comp("222", "disk"), comp("111", "fan")],
        attachments: vec![],
    };
    update_device(&mut store, MAX_ATTACHMENT, id, &reordered, 1, 200).unwrap();
    assert_eq!(store.changes.len(), 1);
}

#[test]
fn scenario_create_and_delete_component_is_bad_request() {
    // A component marked deleted without an identifier is rejected before
    // anything is written.
    let (mut store, loc) = store_with_location();
    let submission = UpdatedDeviceInfo {
        location_id: loc,
        column_data: vec![],
        components: vec![UpdatedDeviceComponent {
            component_id: None,
            deleted: true,
            component_type: String::from("fan"),
        }],
        attachments: vec![],
    };
    let r = upsert_device(&mut store, MAX_ATTACHMENT, None, &submission, 1, 100);
    assert!(matches!(user_err(r), UserError::BadRequest(_)));
    assert_eq!(store.devices.len(), 0);
    assert_eq!(store.components.len(), 0);
    assert_eq!(store.changes.len(), 0);
}

#[test]
fn scenario_oversized_attachment_rolls_back() {
    // An oversized payload fails with a user error and leaves no trace, the
    // key-information upsert included.
    let (mut store, loc1) = store_with_location();
    let loc2 = store.insert_location(&String::from("Shelf")).unwrap();
    let id = create_device(&mut store, MAX_ATTACHMENT, &empty_submission(loc1), 1, 100).unwrap();
    let big = vec![0u8; (MAX_ATTACHMENT + 1) as usize];
    let submission = UpdatedDeviceInfo {
        location_id: loc2,
        column_data: vec![],
        components: vec![],
        attachments: vec![UpdatedDeviceAttachment::New {
            description: String::from("too big"),
            file_name: String::from("big.bin"),
            file_data: b64(&big),
        }],
    };
    let r = upsert_device(&mut store, MAX_ATTACHMENT, Some(id), &submission, 1, 200);
    assert!(matches!(user_err(r), UserError::BadRequest(_)));
    // the attempted location change did not stick, and nothing was logged
    assert_eq!(store.devices[0].location_id, loc1);
    assert_eq!(store.attachments.len(), 0);
    assert_eq!(store.changes.len(), 1);
}

#[test]
fn invalid_base64_is_bad_request() {
    let (mut store, loc) = store_with_location();
    let submission = UpdatedDeviceInfo {
        location_id: loc,
        column_data: vec![],
        components: vec![],
        attachments: vec![UpdatedDeviceAttachment::New {
            description: String::from("broken"),
            file_name: String::from("f.bin"),
            file_data: String::from("@@not-base64@@"),
        }],
    };
    let r = upsert_device(&mut store, MAX_ATTACHMENT, None, &submission, 1, 100);
    assert!(matches!(user_err(r), UserError::BadRequest(_)));
    assert_eq!(store.devices.len(), 0);
}

#[test]
fn new_attachment_payload_is_decoded_and_stored() {
    // The stored payload is the decoded bytes, not the submitted text.
    let (mut store, loc) = store_with_location();
    let payload = b"\x00\x01binary payload\xff";
    let submission = UpdatedDeviceInfo {
        location_id: loc,
        column_data: vec![],
        components: vec![],
        attachments: vec![UpdatedDeviceAttachment::New {
            description: String::from("  a manual  "),
            file_name: String::from(" manual.pdf "),
            file_data: b64(payload),
        }],
    };
    create_device(&mut store, MAX_ATTACHMENT, &submission, 1, 100).unwrap();
    assert_eq!(store.attachments.len(), 1);
    let row = &store.attachments[0];
    assert_eq!(row.file_data, payload.to_vec());
    assert_eq!(row.description, "a manual");
    assert_eq!(row.file_name, "manual.pdf");
    assert!(!row.deleted);
    assert_eq!(row.attachment_id.len(), 3);
}

#[test]
fn unnamed_attachment_gets_default_file_name() {
    let (mut store, loc) = store_with_location();
    let submission = UpdatedDeviceInfo {
        location_id: loc,
        column_data: vec![],
        components: vec![],
        attachments: vec![UpdatedDeviceAttachment::New {
            description: String::from("d"),
            file_name: String::from("   "),
            file_data: b64(b"data"),
        }],
    };
    let id = create_device(&mut store, MAX_ATTACHMENT, &submission, 1, 100).unwrap();
    let row = &store.attachments[0];
    assert_eq!(row.file_name, format!("{}-{}.bin", id, row.attachment_id));
}

#[test]
fn existing_attachment_updates_description_only() {
    let (mut store, loc) = store_with_location();
    let submission = UpdatedDeviceInfo {
        location_id: loc,
        column_data: vec![],
        components: vec![],
        attachments: vec![UpdatedDeviceAttachment::New {
            description: String::from("old"),
            file_name: String::from("f.bin"),
            file_data: b64(b"payload"),
        }],
    };
    let id = create_device(&mut store, MAX_ATTACHMENT, &submission, 1, 100).unwrap();
    let aid = store.attachments[0].attachment_id.clone();
    let edit = UpdatedDeviceInfo {
        location_id: loc,
        column_data: vec![],
        components: vec![],
        attachments: vec![UpdatedDeviceAttachment::Existing {
            attachment_id: aid.clone(),
            deleted: false,
            description: String::from("new words"),
        }],
    };
    update_device(&mut store, MAX_ATTACHMENT, id, &edit, 1, 200).unwrap();
    let row = &store.attachments[0];
    assert_eq!(row.description, "new words");
    assert_eq!(row.file_data, b"payload".to_vec());
    assert_eq!(row.file_name, "f.bin");
    let v: serde_json::Value = serde_json::from_str(&store.changes[1].change).unwrap();
    assert_eq!(v["deviceAttachments"][0]["operation"], "edit");
    assert_eq!(v["deviceAttachments"][0]["attachmentId"], aid.as_str());
    assert_eq!(v["deviceAttachments"][0]["description"], "new words");
}

#[test]
fn deleting_unknown_attachment_is_bad_request() {
    let (mut store, loc) = store_with_location();
    let id = create_device(&mut store, MAX_ATTACHMENT, &empty_submission(loc), 1, 100).unwrap();
    let edit = UpdatedDeviceInfo {
        location_id: loc,
        column_data: vec![],
        components: vec![],
        attachments: vec![UpdatedDeviceAttachment::Existing {
            attachment_id: String::from("777"),
            deleted: true,
            description: String::new(),
        }],
    };
    let r = upsert_device(&mut store, MAX_ATTACHMENT, Some(id), &edit, 1, 200);
    assert!(matches!(user_err(r), UserError::BadRequest(_)));
}

#[test]
fn duplicate_column_values_are_bad_request() {
    let (mut store, loc) = store_with_location();
    let submission = UpdatedDeviceInfo {
        location_id: loc,
        column_data: vec![
            SubmittedColumnData { column_definition_id: 5, data_value: String::from("x") },
            SubmittedColumnData { column_definition_id: 5, data_value: String::from("y") },
        ],
        components: vec![],
        attachments: vec![],
    };
    let r = upsert_device(&mut store, MAX_ATTACHMENT, None, &submission, 1, 100);
    assert!(matches!(user_err(r), UserError::BadRequest(_)));
}

#[test]
fn columns_absent_from_resubmission_are_retained() {
    // Append-only augmentation: a column left out of a later submission keeps
    // its stored value and is not treated as a deletion.
    let (mut store, loc) = store_with_location();
    let first = UpdatedDeviceInfo {
        location_id: loc,
        column_data: vec![SubmittedColumnData { column_definition_id: 5, data_value: String::from("x") }],
        components: vec![],
        attachments: vec![],
    };
    let id = create_device(&mut store, MAX_ATTACHMENT, &first, 1, 100).unwrap();
    let second = UpdatedDeviceInfo {
        location_id: loc,
        column_data: vec![SubmittedColumnData { column_definition_id: 6, data_value: String::from("y") }],
        components: vec![],
        attachments: vec![],
    };
    update_device(&mut store, MAX_ATTACHMENT, id, &second, 1, 200).unwrap();
    assert_eq!(store.device_data.len(), 2);
    assert!(store.device_data.iter().any(|r| r.column_definition_id == 5 && r.data_value == "x"));
    assert!(store.device_data.iter().any(|r| r.column_definition_id == 6 && r.data_value == "y"));
}

#[test]
fn component_soft_delete_keeps_the_row() {
    let (mut store, loc) = store_with_location();
    let first = UpdatedDeviceInfo {
        location_id: loc,
        column_data: vec![],
        components: vec![UpdatedDeviceComponent {
            component_id: Some(String::from("111")),
            deleted: false,
            component_type: String::from("fan"),
        }],
        attachments: vec![],
    };
    let id = create_device(&mut store, MAX_ATTACHMENT, &first, 1, 100).unwrap();
    let second = UpdatedDeviceInfo {
        location_id: loc,
        column_data: vec![],
        components: vec![UpdatedDeviceComponent {
            component_id: Some(String::from("111")),
            deleted: true,
            component_type: String::from("fan"),
        }],
        attachments: vec![],
    };
    update_device(&mut store, MAX_ATTACHMENT, id, &second, 1, 200).unwrap();
    assert_eq!(store.components.len(), 1);
    assert!(store.components[0].deleted);
    let v: serde_json::Value = serde_json::from_str(&store.changes[1].change).unwrap();
    assert_eq!(v["deviceComponents"][0]["operation"], "delete");
    assert_eq!(v["deviceComponents"][0]["componentId"], "111");
}

#[test]
fn component_without_id_gets_generated_digits() {
    let (mut store, loc) = store_with_location();
    let submission = UpdatedDeviceInfo {
        location_id: loc,
        column_data: vec![],
        components: vec![UpdatedDeviceComponent {
            component_id: None,
            deleted: false,
            component_type: String::from("fan"),
        }],
        attachments: vec![],
    };
    create_device(&mut store, MAX_ATTACHMENT, &submission, 1, 100).unwrap();
    assert_eq!(store.components.len(), 1);
    let cid = &store.components[0].component_id;
    assert_eq!(cid.len(), 3);
    assert!(cid.chars().all(|c| c.is_ascii_digit()));
}

#[test]
fn checkout_moves_device_and_logs_edit() {
    let (mut store, loc1) = store_with_location();
    let loc2 = store.insert_location(&String::from("Shelf")).unwrap();
    let id = create_device(&mut store, MAX_ATTACHMENT, &empty_submission(loc1), 1, 100).unwrap();
    let name = checkout_device(
        &mut store,
        &CheckoutInfo { device_id: id.clone(), location_id: loc2 },
        1,
        200,
    )
    .unwrap();
    assert_eq!(name, "Shelf");
    assert_eq!(store.devices[0].location_id, loc2);
    assert_eq!(store.changes.len(), 2);
    let v: serde_json::Value = serde_json::from_str(&store.changes[1].change).unwrap();
    assert_eq!(v["deviceKeyInfo"]["operation"], "edit");
    assert_eq!(v["deviceKeyInfo"]["locationId"], loc2);
}

#[test]
fn checkout_of_missing_entities_is_not_found() {
    let (mut store, loc) = store_with_location();
    let id = create_device(&mut store, MAX_ATTACHMENT, &empty_submission(loc), 1, 100).unwrap();
    let bad_location = checkout_device(
        &mut store,
        &CheckoutInfo { device_id: id, location_id: 999 },
        1,
        200,
    );
    assert!(matches!(bad_location, Err(Error::User(UserError::NotFound(_)))));
    let bad_device = checkout_device(
        &mut store,
        &CheckoutInfo { device_id: String::from("000000"), location_id: loc },
        1,
        200,
    );
    assert!(matches!(bad_device, Err(Error::User(UserError::NotFound(_)))));
    assert_eq!(store.changes.len(), 1);
}

#[test]
fn checkout_to_same_location_logs_nothing() {
    let (mut store, loc) = store_with_location();
    let id = create_device(&mut store, MAX_ATTACHMENT, &empty_submission(loc), 1, 100).unwrap();
    checkout_device(&mut store, &CheckoutInfo { device_id: id, location_id: loc }, 1, 200).unwrap();
    assert_eq!(store.changes.len(), 1);
}

#[test]
fn delete_and_restore_log_their_operations() {
    let (mut store, loc) = store_with_location();
    let id = create_device(&mut store, MAX_ATTACHMENT, &empty_submission(loc), 1, 100).unwrap();
    delete_device(&mut store, &id, 1, 200).unwrap();
    assert!(store.devices[0].deleted);
    restore_device(&mut store, &id, 1, 300).unwrap();
    assert!(!store.devices[0].deleted);
    let d: serde_json::Value = serde_json::from_str(&store.changes[1].change).unwrap();
    let r: serde_json::Value = serde_json::from_str(&store.changes[2].change).unwrap();
    assert_eq!(d["deviceKeyInfo"]["operation"], "delete");
    assert_eq!(r["deviceKeyInfo"]["operation"], "restore");
    // deleting again is rejected
    let again = restore_device(&mut store, &id, 1, 400);
    assert!(matches!(again, Err(Error::User(UserError::BadRequest(_)))));
}

#[test]
fn json_escapes_special_characters() {
    let (mut store, loc) = store_with_location();
    let tricky = "he said \"hi\"\\\n\tdone";
    let submission = UpdatedDeviceInfo {
        location_id: loc,
        column_data: vec![SubmittedColumnData {
            column_definition_id: 1,
            data_value: String::from(tricky),
        }],
        components: vec![],
        attachments: vec![],
    };
    create_device(&mut store, MAX_ATTACHMENT, &submission, 1, 100).unwrap();
    let v: serde_json::Value = serde_json::from_str(&store.changes[0].change).unwrap();
    assert_eq!(v["deviceData"][0]["dataValue"], tricky);
}

use base64::Engine;

use pecan::auth::{create_user_if_new, get_token_cookie_valid_duration, get_token_valid_duration};
use pecan::config::{AppConfig, LdapServerType, LdapTlsSettings};
use pecan::devices::{create_device, update_device};
use pecan::models::{
    SubmittedColumnData, UpdatedDeviceAttachment, UpdatedDeviceInfo, UserNew, UserSource,
    PossibleValuesSetting,
};
use pecan::pages::{
    edit_page_redir, edit_page_with_param_redir, index_page_redir, logged_in_false,
    logged_in_true, login_page_redir, FileFromMemory,
};
use pecan::readers::{data_value_exists, get_attachment, get_device_exists, list_change_log, load_device_info};
use pecan::store::Store;

const MAX_ATTACHMENT: u64 = 1024;

fn b64(bytes: &[u8]) -> String {
    base64::engine::general_purpose::STANDARD.encode(bytes)
}

fn empty_submission(location_id: i32) -> UpdatedDeviceInfo {
    UpdatedDeviceInfo { location_id, column_data: vec![], components: vec![], attachments: vec![] }
}

#[test]
fn change_log_lists_newest_first() {
    let mut store = Store::new();
    let loc1 = store.insert_location(&String::from("Lab")).unwrap();
    let loc2 = store.insert_location(&String::from("Shelf")).unwrap();
    let id = create_device(&mut store, MAX_ATTACHMENT, &empty_submission(loc1), 1, 100).unwrap();
    update_device(&mut store, MAX_ATTACHMENT, id.clone(), &empty_submission(loc2), 1, 300).unwrap();
    update_device(&mut store, MAX_ATTACHMENT, id.clone(), &empty_submission(loc1), 1, 200).unwrap();
    let rows = list_change_log(&store, &id).unwrap();
    assert_eq!(rows.len(), 3);
    assert_eq!(rows[0].timestamp, 300);
    assert_eq!(rows[1].timestamp, 200);
    assert_eq!(rows[2].timestamp, 100);
}

#[test]
fn change_log_joins_user_names() {
    let mut store = Store::new();
    let loc = store.insert_location(&String::from("Lab")).unwrap();
    let uid = create_user_if_new(
        &mut store,
        &UserNew {
            source: UserSource::Ldap,
            unique_identifier: String::from("jdoe"),
            display_name: String::from("J. Doe"),
        },
    )
    .unwrap();
    let id = create_device(&mut store, MAX_ATTACHMENT, &empty_submission(loc), uid, 100).unwrap();
    let rows = list_change_log(&store, &id).unwrap();
    assert_eq!(rows[0].user.as_deref(), Some("J. Doe"));
    assert_eq!(rows[0].user_id, Some(uid));
    // a change by a user that no longer exists keeps a null name
    let id2 = create_device(&mut store, MAX_ATTACHMENT, &empty_submission(loc), 999, 100).unwrap();
    let rows2 = list_change_log(&store, &id2).unwrap();
    assert_eq!(rows2[0].user, None);
}

#[test]
fn load_device_info_returns_the_snapshot() {
    let mut store = Store::new();
    let loc = store.insert_location(&String::from("Lab")).unwrap();
    let submission = UpdatedDeviceInfo {
        location_id: loc,
        column_data: vec![SubmittedColumnData { column_definition_id: 5, data_value: String::from("x") }],
        components: vec![],
        attachments: vec![],
    };
    let id = create_device(&mut store, MAX_ATTACHMENT, &submission, 1, 100).unwrap();
    let (snap, changes) = load_device_info(&store, &id).unwrap();
    assert_eq!(snap.key_info.device_id, id);
    assert_eq!(snap.key_info.location, "Lab");
    assert_eq!(snap.key_info.location_id, loc);
    assert_eq!(snap.key_info.last_updated, 100);
    assert_eq!(snap.data.len(), 1);
    assert_eq!(snap.data[0].data_value, "x");
    assert_eq!(changes.len(), 1);
    assert!(load_device_info(&store, &String::from("000000")).is_err());
}

#[test]
fn device_existence_is_reported() {
    let mut store = Store::new();
    let loc = store.insert_location(&String::from("Lab")).unwrap();
    let id = create_device(&mut store, MAX_ATTACHMENT, &empty_submission(loc), 1, 100).unwrap();
    assert!(get_device_exists(&store, &id));
    assert!(!get_device_exists(&store, &String::from("000000")));
}

#[test]
fn attachment_contents_can_be_fetched() {
    let mut store = Store::new();
    let loc = store.insert_location(&String::from("Lab")).unwrap();
    let submission = UpdatedDeviceInfo {
        location_id: loc,
        column_data: vec![],
        components: vec![],
        attachments: vec![UpdatedDeviceAttachment::New {
            description: String::from("d"),
            file_name: String::from("m.pdf"),
            file_data: b64(b"contents"),
        }],
    };
    let id = create_device(&mut store, MAX_ATTACHMENT, &submission, 1, 100).unwrap();
    let aid = store.attachments[0].attachment_id.clone();
    let f = get_attachment(&store, &id, &aid).unwrap();
    assert_eq!(f.file_name, "m.pdf");
    assert_eq!(f.contents, b"contents".to_vec());
    assert!(get_attachment(&store, &id, &String::from("000")).is_err());
}

#[test]
fn data_value_existence_skips_own_and_deleted_devices() {
    let mut store = Store::new();
    let loc = store.insert_location(&String::from("Lab")).unwrap();
    let submission = UpdatedDeviceInfo {
        location_id: loc,
        column_data: vec![SubmittedColumnData { column_definition_id: 5, data_value: String::from("x") }],
        components: vec![],
        attachments: vec![],
    };
    let id = create_device(&mut store, MAX_ATTACHMENT, &submission, 1, 100).unwrap();
    // some other device asking: the value is taken
    assert!(data_value_exists(&store, 5, None, &String::from("x")));
    assert!(data_value_exists(&store, 5, Some(&String::from("000000")), &String::from("x")));
    // the owner asking about its own value: not a conflict
    assert!(!data_value_exists(&store, 5, Some(&id), &String::from("x")));
    // a different value or column: not a conflict
    assert!(!data_value_exists(&store, 5, None, &String::from("y")));
    assert!(!data_value_exists(&store, 6, None, &String::from("x")));
}

#[test]
fn user_provisioning_is_idempotent() {
    let mut store = Store::new();
    let new_user = UserNew {
        source: UserSource::Ldap,
        unique_identifier: String::from("jdoe"),
        display_name: String::from("J. Doe"),
    };
    let a = create_user_if_new(&mut store, &new_user).unwrap();
    let b = create_user_if_new(&mut store, &new_user).unwrap();
    assert_eq!(a, b);
    assert_eq!(store.users.len(), 1);
}

#[test]
fn token_durations_are_in_seconds() {
    assert_eq!(get_token_valid_duration(7), 7 * 86400);
    assert_eq!(get_token_cookie_valid_duration(7), 7 * 86400 - 15);
}

#[test]
fn default_config_is_sensible() {
    let c = AppConfig::default();
    assert_eq!(c.serve_path, "dist");
    assert_eq!(c.token_valid_days, 7);
    assert_eq!(c.max_attachment_size, 3 * 1024 * 1024);
    assert!(c.ldap.is_none());
    assert!(c.validate());
    assert_eq!(LdapServerType::default(), LdapServerType::Ldap);
    let tls = LdapTlsSettings::default();
    assert!(!tls.enabled && tls.verify_certificates);
}

#[test]
fn enum_codes_are_stable() {
    assert_eq!(UserSource::Local.code(), 1);
    assert_eq!(UserSource::Ldap.code(), 2);
    assert_eq!(PossibleValuesSetting::FreeTyped.code(), 1);
    assert_eq!(PossibleValuesSetting::Suggested.code(), 2);
    assert_eq!(PossibleValuesSetting::Restricted.code(), 3);
}

#[test]
fn page_helpers_report_session_state() {
    assert!(logged_in_true());
    assert!(!logged_in_false());
    assert_eq!(login_page_redir(), "/");
    assert_eq!(index_page_redir(), "/login");
    assert_eq!(edit_page_redir(), "/login");
    assert_eq!(edit_page_with_param_redir(), "/login");
    let f = FileFromMemory::new(&String::from("a.txt"), vec![1, 2, 3]);
    assert_eq!(f.file_name, "a.txt");
    assert_eq!(f.contents, vec![1, 2, 3]);
}

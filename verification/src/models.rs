//! Data model: persisted rows, query results, and submission shapes.
//!
//! Timestamps are plain integers (milliseconds since the Unix epoch); binary
//! payloads are byte vectors. Every type here is a plain value that contracts
//! can speak about directly.

use vstd::prelude::*;

verus! {

// Persisted rows and query-result shapes

/// A stored location that devices can reference.
#[derive(Debug, PartialEq, Eq)]
pub struct LocationDefinition {
    pub id: i32,
    pub name: String,
}

/// A new location to insert.
#[derive(Debug, PartialEq, Eq)]
pub struct LocationDefinitionNew {
    pub name: String,
}

/// The key information row of a device.
#[derive(Debug, PartialEq, Eq)]
pub struct DeviceKeyInfo {
    pub id: i32,
    pub device_id: String,
    pub deleted: bool,
    pub location_id: i32,
}

/// The insertable key information of a device.
#[derive(Debug, PartialEq, Eq)]
pub struct DeviceKeyInfoNew {
    pub device_id: String,
    pub location_id: i32,
}

/// A device's key information joined with its location name and the
/// timestamp of its latest change.
#[derive(Debug, PartialEq, Eq)]
pub struct DeviceInfo {
    pub id: i32,
    pub device_id: String,
    pub deleted: bool,
    pub location_id: i32,
    pub location: String,
    pub last_updated: i64,
}

/// A stored column value of a device.
#[derive(Debug, PartialEq, Eq)]
pub struct DeviceData {
    pub id: i32,
    pub device_key_info_id: i32,
    pub column_definition_id: i32,
    pub data_value: String,
}

/// An insertable column value of a device.
#[derive(Debug, PartialEq, Eq)]
pub struct DeviceDataNew {
    pub device_key_info_id: i32,
    pub column_definition_id: i32,
    pub data_value: String,
}

/// A non-deleted component of a device, as loaded for display and diffing.
#[derive(Debug, PartialEq, Eq)]
pub struct DeviceComponent {
    pub id: i32,
    pub device_key_info_id: i32,
    pub component_id: String,
    pub component_type: String,
}

/// An insertable component of a device.
#[derive(Debug, PartialEq, Eq)]
pub struct DeviceComponentNew {
    pub device_key_info_id: i32,
    pub component_id: String,
    pub component_type: String,
}

/// A stored component row, including its soft-deletion flag.
#[derive(Debug, PartialEq, Eq)]
pub struct DeviceComponentRow {
    pub id: i32,
    pub device_key_info_id: i32,
    pub component_id: String,
    pub component_type: String,
    pub deleted: bool,
}

/// One submitted component operation: insert-or-update, or soft-delete by
/// component identifier.
#[derive(Debug, PartialEq, Eq)]
pub enum DeviceComponentUpsert {
    NewExisting(DeviceComponentNew),
    Delete(String),
}

/// A complete stored attachment, payload included.
#[derive(Debug, PartialEq, Eq)]
pub struct DeviceAttachment {
    pub id: i32,
    pub device_key_info_id: i32,
    pub attachment_id: String,
    pub description: String,
    pub file_name: String,
    pub file_data: Vec<u8>,
}

/// A non-deleted attachment of a device without its payload, as loaded for
/// display and diffing.
#[derive(Debug, PartialEq, Eq)]
pub struct DeviceAttachmentMetadata {
    pub id: i32,
    pub device_key_info_id: i32,
    pub attachment_id: String,
    pub description: String,
    pub file_name: String,
}

/// A stored attachment row, including its soft-deletion flag.
#[derive(Debug, PartialEq, Eq)]
pub struct DeviceAttachmentRow {
    pub id: i32,
    pub device_key_info_id: i32,
    pub attachment_id: String,
    pub description: String,
    pub file_name: String,
    pub file_data: Vec<u8>,
    pub deleted: bool,
}

/// An insertable attachment, with its decoded payload.
#[derive(Debug, PartialEq, Eq)]
pub struct DeviceAttachmentNew {
    pub device_key_info_id: i32,
    pub attachment_id: String,
    pub description: String,
    pub file_name: String,
    pub file_data: Vec<u8>,
}

/// An update to an existing attachment: only the description may change.
#[derive(Debug, PartialEq, Eq)]
pub struct DeviceAttachmentExisting {
    pub device_key_info_id: i32,
    pub attachment_id: String,
    pub description: String,
}

/// One submitted attachment operation.
#[derive(Debug, PartialEq, Eq)]
pub enum DeviceAttachmentUpsert {
    New(DeviceAttachmentNew),
    Existing(DeviceAttachmentExisting),
    Delete(String),
}

/// A stored change-log row.
#[derive(Debug, PartialEq, Eq)]
pub struct DeviceChange {
    pub id: i32,
    pub device_key_info_id: i32,
    pub timestamp: i64,
    pub done_automatically: bool,
    pub user_id: Option<i32>,
    pub change: String,
}

/// An insertable change-log row.
#[derive(Debug, PartialEq, Eq)]
pub struct DeviceChangeNew {
    pub device_key_info_id: i32,
    pub timestamp: i64,
    pub done_automatically: bool,
    pub user_id: i32,
    pub change: String,
}

/// A change-log row joined with the acting user's display name, for display.
#[derive(Debug, PartialEq, Eq)]
pub struct DeviceChangeDisplay {
    pub id: i32,
    pub device_key_info_id: i32,
    pub timestamp: i64,
    pub done_automatically: bool,
    pub user_id: Option<i32>,
    pub user: Option<String>,
    pub change: String,
}

/// Where a user account came from.
#[derive(Debug, Clone, Copy, PartialEq, Eq, Structural)]
pub enum UserSource {
    Local,
    Ldap,
}

impl UserSource {
    /// The stable integer code this source is persisted as.
    pub open spec fn spec_code(&self) -> i32 {
        match self {
            UserSource::Local => 1,
            UserSource::Ldap => 2,
        }
    }

    /// The stable integer code this source is persisted as.
    pub fn code(&self) -> (r: i32)
        ensures
            r == self.spec_code(),
    {
        match self {
            UserSource::Local => 1,
            UserSource::Ldap => 2,
        }
    }
}

/// A stored user account.
#[derive(Debug, PartialEq, Eq)]
pub struct User {
    pub id: i32,
    pub source: UserSource,
    pub unique_identifier: String,
    pub display_name: String,
    pub associated_location_id: Option<i32>,
}

/// An insertable user account.
#[derive(Debug, PartialEq, Eq)]
pub struct UserNew {
    pub source: UserSource,
    pub unique_identifier: String,
    pub display_name: String,
}

/// A stored login token. Token issuance and validation belong to the session
/// layer around this library; only the shape is modeled here.
#[derive(Debug, PartialEq, Eq)]
pub struct Token {
    pub id: i32,
    pub user_id: i32,
    pub value: String,
    pub expires: i64,
    pub valid: bool,
}

/// An insertable login token, shaped for the session layer around this
/// library.
#[derive(Debug, PartialEq, Eq)]
pub struct TokenNew {
    pub user_id: i32,
    pub value: String,
    pub expires: i64,
}

/// A column definition: one dynamic attribute devices can carry.
#[derive(Debug, PartialEq, Eq)]
pub struct ColumnDefinition {
    pub id: i32,
    pub name: String,
    pub ordering_key: Option<i32>,
    pub not_null: bool,
    pub unique_values: bool,
    pub show_in_main_page: bool,
    pub show_on_labels: bool,
    pub exclusively_possible_values: bool,
    pub default_value_id: Option<i32>,
}

/// An insertable column definition.
#[derive(Debug, PartialEq, Eq)]
pub struct ColumnDefinitionNew {
    pub name: String,
    pub ordering_key: Option<i32>,
    pub not_null: bool,
    pub unique_values: bool,
    pub show_in_main_page: bool,
    pub show_on_labels: bool,
    pub exclusively_possible_values: bool,
    pub default_value_id: Option<i32>,
}

/// A predefined value a column may offer.
#[derive(Debug, PartialEq, Eq)]
pub struct ColumnPossibleValue {
    pub id: i32,
    pub column_definition_id: i32,
    pub value: String,
}

/// An insertable predefined column value.
#[derive(Debug, PartialEq, Eq)]
pub struct ColumnPossibleValueNew {
    pub column_definition_id: i32,
    pub value: String,
}

/// A column definition joined with its default value, for display.
#[derive(Debug, PartialEq, Eq)]
pub struct ColumnDefinitionSelected {
    pub id: i32,
    pub name: String,
    pub ordering_key: Option<i32>,
    pub not_null: bool,
    pub unique_values: bool,
    pub show_in_main_page: bool,
    pub show_on_labels: bool,
    pub exclusively_possible_values: bool,
    pub default_value_id: Option<i32>,
    pub default_value: Option<String>,
}

/// How a column constrains its values to the predefined set.
#[derive(Debug, Clone, Copy, PartialEq, Eq, Structural)]
pub enum PossibleValuesSetting {
    /// The user may type any value.
    FreeTyped,
    /// Predefined values are offered while typing but not enforced.
    Suggested,
    /// The user must pick one of the predefined values.
    Restricted,
}

impl PossibleValuesSetting {
    /// The stable integer code this setting is persisted as.
    pub open spec fn spec_code(&self) -> i32 {
        match self {
            PossibleValuesSetting::FreeTyped => 1,
            PossibleValuesSetting::Suggested => 2,
            PossibleValuesSetting::Restricted => 3,
        }
    }

    /// The stable integer code this setting is persisted as.
    pub fn code(&self) -> (r: i32)
        ensures
            r == self.spec_code(),
    {
        match self {
            PossibleValuesSetting::FreeTyped => 1,
            PossibleValuesSetting::Suggested => 2,
            PossibleValuesSetting::Restricted => 3,
        }
    }
}

// Submission shapes (the caller-provided after-state of an upsert)

/// A submitted device: location, column values, components and attachments.
#[derive(Debug, PartialEq, Eq)]
pub struct UpdatedDeviceInfo {
    pub location_id: i32,
    pub column_data: Vec<SubmittedColumnData>,
    pub components: Vec<UpdatedDeviceComponent>,
    pub attachments: Vec<UpdatedDeviceAttachment>,
}

/// A submitted component: optional identifier, deletion flag and type.
#[derive(Debug, PartialEq, Eq)]
pub struct UpdatedDeviceComponent {
    pub component_id: Option<String>,
    pub deleted: bool,
    pub component_type: String,
}

/// A submitted attachment: either a new upload (payload still encoded in
/// base64) or a reference to an existing attachment.
#[derive(Debug, PartialEq, Eq)]
pub enum UpdatedDeviceAttachment {
    New { description: String, file_name: String, file_data: String },
    Existing { attachment_id: String, deleted: bool, description: String },
}

/// One submitted column value.
#[derive(Debug, PartialEq, Eq)]
pub struct SubmittedColumnData {
    pub column_definition_id: i32,
    pub data_value: String,
}

/// A submitted search query.
#[derive(Debug, PartialEq, Eq)]
pub struct SubmittedSearchQuery {
    pub device_id: String,
    pub location_id: Option<i32>,
    pub column_data: Vec<SubmittedColumnData>,
}

/// A submitted checkout: move a device to a location.
#[derive(Debug, PartialEq, Eq)]
pub struct CheckoutInfo {
    pub device_id: String,
    pub location_id: i32,
}

/// A query for whether a column value is already in use by another device.
#[derive(Debug, PartialEq, Eq)]
pub struct ValueExistsQuery {
    pub device_id: Option<String>,
    pub value: String,
}

// Clone implementations that provably preserve the value.

impl Clone for LocationDefinition {
    fn clone(&self) -> (r: Self)
        ensures
            r == *self,
    {
        LocationDefinition { id: self.id, name: self.name.clone() }
    }
}

impl Clone for DeviceKeyInfo {
    fn clone(&self) -> (r: Self)
        ensures
            r == *self,
    {
        DeviceKeyInfo {
            id: self.id,
            device_id: self.device_id.clone(),
            deleted: self.deleted,
            location_id: self.location_id,
        }
    }
}

impl Clone for DeviceInfo {
    fn clone(&self) -> (r: Self)
        ensures
            r == *self,
    {
        DeviceInfo {
            id: self.id,
            device_id: self.device_id.clone(),
            deleted: self.deleted,
            location_id: self.location_id,
            location: self.location.clone(),
            last_updated: self.last_updated,
        }
    }
}

impl Clone for DeviceData {
    fn clone(&self) -> (r: Self)
        ensures
            r == *self,
    {
        DeviceData {
            id: self.id,
            device_key_info_id: self.device_key_info_id,
            column_definition_id: self.column_definition_id,
            data_value: self.data_value.clone(),
        }
    }
}

impl Clone for DeviceDataNew {
    fn clone(&self) -> (r: Self)
        ensures
            r == *self,
    {
        DeviceDataNew {
            device_key_info_id: self.device_key_info_id,
            column_definition_id: self.column_definition_id,
            data_value: self.data_value.clone(),
        }
    }
}

impl Clone for DeviceComponent {
    fn clone(&self) -> (r: Self)
        ensures
            r == *self,
    {
        DeviceComponent {
            id: self.id,
            device_key_info_id: self.device_key_info_id,
            component_id: self.component_id.clone(),
            component_type: self.component_type.clone(),
        }
    }
}

impl Clone for DeviceComponentRow {
    fn clone(&self) -> (r: Self)
        ensures
            r == *self,
    {
        DeviceComponentRow {
            id: self.id,
            device_key_info_id: self.device_key_info_id,
            component_id: self.component_id.clone(),
            component_type: self.component_type.clone(),
            deleted: self.deleted,
        }
    }
}

impl Clone for DeviceAttachmentMetadata {
    fn clone(&self) -> (r: Self)
        ensures
            r == *self,
    {
        DeviceAttachmentMetadata {
            id: self.id,
            device_key_info_id: self.device_key_info_id,
            attachment_id: self.attachment_id.clone(),
            description: self.description.clone(),
            file_name: self.file_name.clone(),
        }
    }
}

impl Clone for DeviceChange {
    fn clone(&self) -> (r: Self)
        ensures
            r == *self,
    {
        DeviceChange {
            id: self.id,
            device_key_info_id: self.device_key_info_id,
            timestamp: self.timestamp,
            done_automatically: self.done_automatically,
            user_id: self.user_id,
            change: self.change.clone(),
        }
    }
}

impl Clone for DeviceChangeDisplay {
    fn clone(&self) -> (r: Self)
        ensures
            r == *self,
    {
        DeviceChangeDisplay {
            id: self.id,
            device_key_info_id: self.device_key_info_id,
            timestamp: self.timestamp,
            done_automatically: self.done_automatically,
            user_id: self.user_id,
            user: match &self.user {
                Some(u) => Some(u.clone()),
                None => None,
            },
            change: self.change.clone(),
        }
    }
}

} // verus!

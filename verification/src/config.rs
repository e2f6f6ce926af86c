//! The application configuration, as plain already-parsed values. Loading
//! and merging configuration sources is not part of this library.

use vstd::prelude::*;

verus! {

/// The app configuration.
#[derive(Debug, PartialEq, Eq)]
pub struct AppConfig {
    /// The path to the directory to serve the front-end files from.
    pub serve_path: String,
    /// How many days a login token is valid for, before a user has to log in
    /// again.
    pub token_valid_days: u32,
    /// The maximum attachment size allowed on upload, in bytes.
    pub max_attachment_size: u64,
    /// Settings for directory-server authentication, if enabled.
    pub ldap: Option<LdapSettings>,
}

impl AppConfig {
    /// Whether the configuration is acceptable: tokens must be valid for at
    /// least one day.
    pub fn validate(&self) -> (r: bool)
        ensures
            r == (self.token_valid_days >= 1),
    {
        self.token_valid_days >= 1
    }
}

impl Default for AppConfig {
    /// Seven-day tokens and a three-mebibyte attachment limit.
    fn default() -> (r: Self)
        ensures
            r.serve_path@ == "dist"@,
            r.token_valid_days == 7,
            r.max_attachment_size == 3145728,
            r.ldap is None,
    {
        AppConfig {
            serve_path: "dist".to_owned(),
            token_valid_days: 7,
            max_attachment_size: 3145728,
            ldap: None,
        }
    }
}

/// Settings for directory-server authentication.
#[derive(Debug, PartialEq, Eq)]
pub struct LdapSettings {
    /// Whether directory authentication is enabled.
    pub enabled: bool,
    /// The server to connect to, including scheme, host and port.
    pub server_url: String,
    /// The kind of directory server being spoken to.
    pub server_type: LdapServerType,
    /// Transport-security settings.
    pub tls: LdapTlsSettings,
    /// The read-only reader account used to search for users.
    pub reader: LdapReaderSettings,
    /// The bases to start the search for users from.
    pub search_bases: Vec<String>,
    /// The directory attribute that stores the user display name.
    pub user_display_name_attribute: String,
}

/// The kind of directory server being spoken to.
#[derive(Debug, Clone, Copy, PartialEq, Eq, Structural)]
pub enum LdapServerType {
    Ldap,
    ActiveDirectory,
}

impl Default for LdapServerType {
    fn default() -> (r: Self)
        ensures
            r == LdapServerType::Ldap,
    {
        LdapServerType::Ldap
    }
}

/// Transport-security settings for the directory connection.
#[derive(Debug, Clone, Copy, PartialEq, Eq, Structural)]
pub struct LdapTlsSettings {
    /// Whether transport security is enabled.
    pub enabled: bool,
    /// Whether to verify the server's certificates.
    pub verify_certificates: bool,
}

impl Default for LdapTlsSettings {
    /// Disabled, but verifying certificates when enabled.
    fn default() -> (r: Self)
        ensures
            !r.enabled,
            r.verify_certificates,
    {
        LdapTlsSettings { enabled: false, verify_certificates: true }
    }
}

/// The read-only reader account used to search for users.
#[derive(Debug, PartialEq, Eq)]
pub struct LdapReaderSettings {
    /// The complete distinguished name of the account.
    pub distinguished_name: String,
    /// The password for binding to the account.
    pub password: String,
}

} // verus!

//! The computed parts of authentication: token durations, user provisioning
//! and authenticated-user shapes. The directory protocol itself is not part
//! of this library; an authenticator hands back plain values.

use vstd::prelude::*;

use crate::error::Error;
use crate::models::{User, UserNew};
use crate::store::{lemma_user_ident_index, spec_user_ident_index, Store};

verus! {

/// What a successful directory authentication hands back: the stable unique
/// identifier of the account and its display name.
#[derive(Debug, PartialEq, Eq)]
pub struct AuthenticationReturn {
    pub unique_identifier: String,
    pub display_name: String,
}

/// The settings an authenticator is built from, already resolved to plain
/// values: the server address, the reader's credentials, the search bases and
/// the display-name attribute.
#[derive(Debug, PartialEq, Eq)]
pub struct LdapAuthenticator {
    pub server_url: String,
    pub verify_certificates: bool,
    pub reader_dn: String,
    pub reader_password: String,
    pub search_bases: Vec<String>,
    pub user_display_name_attribute: String,
}

/// A request's authenticated user, required for API routes.
#[derive(Debug, PartialEq, Eq)]
pub struct AuthedUser(pub User);

/// A request's authenticated user, where pages forward to the login screen
/// instead of failing.
#[derive(Debug, PartialEq, Eq)]
pub struct AuthedUserForwarding(pub User);

/// Why a request carries no authenticated user.
#[derive(Debug, Clone, Copy, PartialEq, Eq, Structural)]
pub enum AuthedUserError {
    /// No token cookie was presented.
    MissingCookie,
    /// The presented token is unknown, expired or invalidated.
    InvalidToken,
}

/// A submitted credentials pair.
#[derive(Debug, PartialEq, Eq)]
pub struct AuthData {
    pub username: String,
    pub password: String,
}

/// How many seconds a login token is valid for.
pub fn get_token_valid_duration(days: u32) -> (r: i64)
    ensures
        r == days * 86400,
{
    (days as i64) * 86400
}

/// How many seconds the token cookie is valid for: slightly shorter than the
/// token itself, so a held cookie never outlives its token.
pub fn get_token_cookie_valid_duration(days: u32) -> (r: i64)
    ensures
        r == days * 86400 - 15,
{
    (days as i64) * 86400 - 15
}

/// Returns the existing user with this unique identifier, or provisions a
/// new account. Returns the user's surrogate key.
pub fn create_user_if_new(store: &mut Store, user_new: &UserNew) -> (r: Result<i32, Error>)
    requires
        old(store).wf(),
    ensures
        final(store).wf(),
        ({
            let idx = spec_user_ident_index(old(store).users@, user_new.unique_identifier@);
            match r {
                Ok(id) => {
                    &&& (idx != -1 ==> id == old(store).users@[idx].id && *final(store) == *old(
                        store,
                    ))
                    &&& (idx == -1 ==> ({
                        &&& final(store).users@ == old(store).users@.push(
                            User {
                                id: old(store).next_id,
                                source: user_new.source,
                                unique_identifier: user_new.unique_identifier,
                                display_name: user_new.display_name,
                                associated_location_id: None,
                            },
                        )
                        &&& id == old(store).next_id
                        &&& final(store).devices@ == old(store).devices@
                        &&& final(store).locations@ == old(store).locations@
                        &&& final(store).device_data@ == old(store).device_data@
                        &&& final(store).components@ == old(store).components@
                        &&& final(store).attachments@ == old(store).attachments@
                        &&& final(store).changes@ == old(store).changes@
                    }))
                },
                Err(_) => *final(store) == *old(store) && old(store).next_id == i32::MAX,
            }
        }),
{
    let mut i: usize = 0;
    while i < store.users.len()
        invariant
            *store == *old(store),
            store.wf(),
            i <= store.users@.len(),
            forall|k: int|
                0 <= k < i ==> (#[trigger] store.users@[k]).unique_identifier@
                    != user_new.unique_identifier@,
        decreases store.users@.len() - i,
    {
        if store.users[i].unique_identifier.eq(&user_new.unique_identifier) {
            proof {
                lemma_user_ident_index(store.users@, user_new.unique_identifier@);
            }
            return Ok(store.users[i].id);
        }
        i += 1;
    }
    proof {
        lemma_user_ident_index(store.users@, user_new.unique_identifier@);
    }
    store.insert_user(user_new)
}

} // verus!

//! The computed parts of the page-serving layer: an in-memory file response
//! and the targets of the authentication redirects. Serving itself is not
//! part of this library.

use vstd::prelude::*;

verus! {

/// A file held in memory, to be sent with a name-derived content type.
#[derive(Debug, PartialEq, Eq)]
pub struct FileFromMemory {
    pub file_name: String,
    pub contents: Vec<u8>,
}

impl FileFromMemory {
    /// Wraps in-memory contents under a file name.
    pub fn new(file_name: &String, contents: Vec<u8>) -> (r: Self)
        ensures
            r.file_name@ == file_name@,
            r.contents == contents,
    {
        FileFromMemory { file_name: file_name.clone(), contents }
    }
}

/// Whether a session is reported as logged in when the request carried a
/// valid user.
pub fn logged_in_true() -> (r: bool)
    ensures
        r,
{
    true
}

/// Whether a session is reported as logged in when the request carried no
/// valid user.
pub fn logged_in_false() -> (r: bool)
    ensures
        !r,
{
    false
}

/// Where an already-authenticated visit to the login page is redirected.
pub fn login_page_redir() -> (r: &'static str)
    ensures
        r@ == "/"@,
{
    "/"
}

/// Where an unauthenticated visit to the index page is redirected.
pub fn index_page_redir() -> (r: &'static str)
    ensures
        r@ == "/login"@,
{
    "/login"
}

/// Where an unauthenticated visit to the edit page is redirected.
pub fn edit_page_redir() -> (r: &'static str)
    ensures
        r@ == "/login"@,
{
    "/login"
}

/// Where an unauthenticated visit to a device's edit page is redirected.
pub fn edit_page_with_param_redir() -> (r: &'static str)
    ensures
        r@ == "/login"@,
{
    "/login"
}

} // verus!

//! Identifiers and start times of saved chat sessions.

use vstd::prelude::*;

verus! {

/// A fresh session id: `uuid::Uuid::new_v4()` rendered by `to_string()`, a
/// random version-4 UUID in its lower-case hyphenated form. The uuid crate
/// writes that form as exactly 36 characters; which id comes out is chance
/// and is not stated.
#[verifier::external_body]
pub(crate) fn create_session_id() -> (id: String)
    ensures
        id@.len() == 36,
{
    uuid::Uuid::new_v4().to_string()
}

/// The current UTC time as an RFC 3339 string:
/// `chrono::Utc::now().to_rfc3339()`. Which time comes back is the
/// clock's, and nothing is stated of it.
#[verifier::external_body]
pub(crate) fn utc_now_rfc3339() -> (t: String) {
    chrono::Utc::now().to_rfc3339()
}

} // verus!

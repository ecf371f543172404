//! The record returned when a session is opened: an access token for later
//! requests and the user's identifier.

use vstd::prelude::*;

verus! {

/// A freshly created session.
pub struct Response {
    pub access_token: String,
    pub user: String,
}

} // verus!

//! The user record: the user group and each membership carry a group key
//! wrapped (`sym_enc_g_key`) under the key one level up in the hierarchy,
//! to be unwrapped with `crate::crypto::decrypt_key`.

use vstd::prelude::*;

verus! {

/// One group membership of the user.
pub struct Membership {
    pub group: String,
    pub group_type: String,
    pub sym_enc_g_key: Vec<u8>,
}

/// The user record.
pub struct Response {
    pub memberships: Vec<Membership>,
    pub user_group: UserGroup,
}

/// The user's own group.
pub struct UserGroup {
    pub sym_enc_g_key: Vec<u8>,
}

} // verus!

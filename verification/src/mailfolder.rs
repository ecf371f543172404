//! A mail folder record: the folder `name` is an authenticated ciphertext
//! under the folder's session key, which in turn travels wrapped in
//! `owner_enc_session_key`.

use vstd::prelude::*;

verus! {

/// One mail folder record.
pub struct Folder {
    pub folder_type: String,
    pub id: (String, String),
    pub mails: String,
    pub name: Vec<u8>,
    pub owner_enc_session_key: Vec<u8>,
    pub owner_group: String,
    pub parent_folder: Option<(String, String)>,
    pub permissions: String,
    pub sub_folders: String,
}

} // verus!

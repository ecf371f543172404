//! An attachment file record: the `name` and `mime_type` buffers are
//! authenticated ciphertexts under the file's session key, which travels
//! wrapped in `owner_enc_session_key`.

use vstd::prelude::*;

verus! {

/// One attachment file record.
pub struct File {
    pub data: String,
    pub mime_type: Vec<u8>,
    pub name: Vec<u8>,
    pub owner_enc_session_key: Vec<u8>,
    pub size: String,
}

} // verus!

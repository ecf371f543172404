//! The payload for creating a draft mail: the protected fields (subject,
//! body text, sender name, recipient names, confidentiality flag) are
//! authenticated ciphertexts under the draft's session key, produced by
//! `crate::crypto::encrypt_with_mac` before the record leaves the client.

use vstd::prelude::*;

verus! {

/// The draft's content, ready to be embedded into the create request.
pub struct DraftData {
    pub added_attachments: Vec<()>,
    pub bcc_recipients: Vec<Recipient>,
    pub body_text: Vec<u8>,
    pub cc_recipients: Vec<Recipient>,
    pub confidential: Vec<u8>,
    pub id: String,
    pub removed_attachments: Vec<()>,
    pub reply_tos: Vec<()>,
    pub sender_mail_address: String,
    pub sender_name: Vec<u8>,
    pub subject: Vec<u8>,
    pub to_recipients: Vec<Recipient>,
}

/// One recipient of the draft; the display `name` is an authenticated
/// ciphertext under the draft's session key.
pub struct Recipient {
    pub id: String,
    pub mail_address: String,
    pub name: Vec<u8>,
}

} // verus!

//! A stored mail record as the vendor returns it: plain fields, with the
//! protected ones (subject, sender name, confidentiality flag, session key)
//! held as raw byte buffers after transport decoding. Decrypting those
//! buffers is the business of `crate::crypto`.

use vstd::prelude::*;

verus! {

/// One mail record. The `subject` and `confidential` buffers are
/// authenticated ciphertexts under the mail's session key; the
/// `owner_enc_session_key` is that session key wrapped under the owner
/// group's key.
pub struct Mail {
    pub area: String,
    pub attachments: Vec<(String, String)>,
    pub body: String,
    pub bcc_recipients: Vec<()>,
    pub cc_recipients: Vec<()>,
    pub confidential: Vec<u8>,
    pub conversation_entry: (String, String),
    pub different_envelope_sender: (),
    pub headers: (),
    pub id: (String, String),
    pub list_unsubscribe: String,
    pub moved_time: String,
    pub owner: String,
    pub owner_enc_session_key: Vec<u8>,
    pub owner_group: String,
    pub permissions: String,
    pub received_date: String,
    pub reply_tos: Vec<()>,
    pub reply_type: String,
    pub restrictions: (),
    pub sent_date: String,
    pub sender: Sender,
    pub state: String,
    pub subject: Vec<u8>,
    pub to_recipients: Vec<Sender>,
    pub trashed: String,
    pub unread: String,
}

/// A mail address entry; the display `name` is an authenticated ciphertext
/// under the mail's session key.
pub struct Sender {
    pub address: String,
    pub contact: (),
    pub id: String,
    pub name: Vec<u8>,
}

} // verus!

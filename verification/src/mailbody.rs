//! A mail body record: the `text` buffer is an authenticated ciphertext
//! under the mail's session key.

use vstd::prelude::*;

verus! {

/// One mail body record.
pub struct Mailbody {
    pub text: Vec<u8>,
}

} // verus!

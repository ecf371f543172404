//! Client-side cryptography for a hosted mailbox: a hierarchy of 128-bit
//! keys rooted in a passphrase, key wrapping between levels, and
//! authenticated encryption (AES-128-CBC with an HMAC-SHA256 tag) for the
//! stored content itself.

pub mod crypto;
pub mod model;
mod primitives;

pub mod create_draft;
pub mod file;
pub mod mail;
pub mod mailbody;
pub mod mailfolder;
pub mod session;
pub mod user;

pub use crypto::SubKeys;
pub use crypto::create_key;
pub use crypto::create_user_passphrase_key;
pub use crypto::decrypt_key;
pub use crypto::decrypt_with_mac;
pub use crypto::encrypt_key;
pub use crypto::encrypt_with_mac;
pub use crypto::encrypt_with_mac_and_iv;

//! Builds the record types and decrypts their protected fields through the
//! cryptographic core, the way the surrounding client uses them.

use tutanota_client::create_draft::DraftData;
use tutanota_client::create_draft::Recipient;
use tutanota_client::crypto::SubKeys;
use tutanota_client::crypto::decrypt_key;
use tutanota_client::crypto::decrypt_with_mac;
use tutanota_client::crypto::encrypt_key;
use tutanota_client::crypto::encrypt_with_mac;
use tutanota_client::file::File;
use tutanota_client::mail::Mail;
use tutanota_client::mail::Sender;
use tutanota_client::mailbody::Mailbody;
use tutanota_client::mailfolder::Folder;
use tutanota_client::session::Response as SessionResponse;
use tutanota_client::user::Membership;
use tutanota_client::user::Response as UserResponse;
use tutanota_client::user::UserGroup;

#[test]
fn folder_name_decrypts_with_its_unwrapped_session_key() {
    let group_key = [4u8; 16];
    let session_key = [11u8; 16];
    let folder = Folder {
        folder_type: "0".to_string(),
        id: ("list".to_string(), "element".to_string()),
        mails: "mails".to_string(),
        name: encrypt_with_mac(&SubKeys::new(&session_key), b"Inbox").unwrap(),
        owner_enc_session_key: encrypt_key(&group_key, &session_key).unwrap(),
        owner_group: "group".to_string(),
        parent_folder: None,
        permissions: "permissions".to_string(),
        sub_folders: "subfolders".to_string(),
    };
    let session = decrypt_key(&group_key, &folder.owner_enc_session_key).unwrap();
    let name = decrypt_with_mac(&SubKeys::new(&session), &folder.name).unwrap();
    assert_eq!(name, b"Inbox".to_vec());
}

#[test]
fn mail_subject_and_sender_name_decrypt() {
    let session_key = [12u8; 16];
    let sub_keys = SubKeys::new(&session_key);
    let mail = Mail {
        area: "1".to_string(),
        attachments: vec![],
        body: "body-id".to_string(),
        bcc_recipients: vec![],
        cc_recipients: vec![],
        confidential: encrypt_with_mac(&sub_keys, b"1").unwrap(),
        conversation_entry: ("a".to_string(), "b".to_string()),
        different_envelope_sender: (),
        headers: (),
        id: ("list".to_string(), "element".to_string()),
        list_unsubscribe: String::new(),
        moved_time: String::new(),
        owner: "owner".to_string(),
        owner_enc_session_key: vec![],
        owner_group: "group".to_string(),
        permissions: "permissions".to_string(),
        received_date: "0".to_string(),
        reply_tos: vec![],
        reply_type: "0".to_string(),
        restrictions: (),
        sent_date: "0".to_string(),
        sender: Sender {
            address: "alice@example.com".to_string(),
            contact: (),
            id: "sender-id".to_string(),
            name: encrypt_with_mac(&sub_keys, b"Alice").unwrap(),
        },
        state: "2".to_string(),
        subject: encrypt_with_mac(&sub_keys, b"Hello").unwrap(),
        to_recipients: vec![],
        trashed: "0".to_string(),
        unread: "1".to_string(),
    };
    assert_eq!(decrypt_with_mac(&sub_keys, &mail.subject).unwrap(), b"Hello".to_vec());
    assert_eq!(decrypt_with_mac(&sub_keys, &mail.sender.name).unwrap(), b"Alice".to_vec());
    assert_eq!(decrypt_with_mac(&sub_keys, &mail.confidential).unwrap(), b"1".to_vec());
}

#[test]
fn mailbody_and_file_fields_decrypt() {
    let session_key = [13u8; 16];
    let sub_keys = SubKeys::new(&session_key);
    let body = Mailbody { text: encrypt_with_mac(&sub_keys, b"the body text").unwrap() };
    assert_eq!(decrypt_with_mac(&sub_keys, &body.text).unwrap(), b"the body text".to_vec());

    let file = File {
        data: "data-id".to_string(),
        mime_type: encrypt_with_mac(&sub_keys, b"text/plain").unwrap(),
        name: encrypt_with_mac(&sub_keys, b"notes.txt").unwrap(),
        owner_enc_session_key: vec![],
        size: "9".to_string(),
    };
    assert_eq!(decrypt_with_mac(&sub_keys, &file.name).unwrap(), b"notes.txt".to_vec());
    assert_eq!(decrypt_with_mac(&sub_keys, &file.mime_type).unwrap(), b"text/plain".to_vec());
}

#[test]
fn user_record_leads_from_root_key_to_group_keys() {
    let root = [0x31u8; 16];
    let user_group_key = [0x32u8; 16];
    let mail_group_key = [0x33u8; 16];
    let user = UserResponse {
        memberships: vec![Membership {
            group: "mail-group".to_string(),
            group_type: "5".to_string(),
            sym_enc_g_key: encrypt_key(&user_group_key, &mail_group_key).unwrap(),
        }],
        user_group: UserGroup { sym_enc_g_key: encrypt_key(&root, &user_group_key).unwrap() },
    };
    let ugk = decrypt_key(&root, &user.user_group.sym_enc_g_key).unwrap();
    assert_eq!(ugk, user_group_key.to_vec());
    let mgk = decrypt_key(&ugk, &user.memberships[0].sym_enc_g_key).unwrap();
    assert_eq!(mgk, mail_group_key.to_vec());
}

#[test]
fn draft_fields_are_ciphertexts_under_the_session_key() {
    let session_key = [0x44u8; 16];
    let sub_keys = SubKeys::new(&session_key);
    let draft = DraftData {
        added_attachments: vec![],
        bcc_recipients: vec![],
        body_text: encrypt_with_mac(&sub_keys, b"draft body").unwrap(),
        cc_recipients: vec![],
        confidential: encrypt_with_mac(&sub_keys, b"1").unwrap(),
        id: "draft-id".to_string(),
        removed_attachments: vec![],
        reply_tos: vec![],
        sender_mail_address: "me@example.com".to_string(),
        sender_name: encrypt_with_mac(&sub_keys, b"Me").unwrap(),
        subject: encrypt_with_mac(&sub_keys, b"Draft subject").unwrap(),
        to_recipients: vec![Recipient {
            id: "r".to_string(),
            mail_address: "you@example.com".to_string(),
            name: encrypt_with_mac(&sub_keys, b"You").unwrap(),
        }],
    };
    assert_eq!(decrypt_with_mac(&sub_keys, &draft.subject).unwrap(), b"Draft subject".to_vec());
    assert_eq!(decrypt_with_mac(&sub_keys, &draft.body_text).unwrap(), b"draft body".to_vec());
    assert_eq!(
        decrypt_with_mac(&sub_keys, &draft.to_recipients[0].name).unwrap(),
        b"You".to_vec()
    );
}

#[test]
fn session_response_carries_token_and_user() {
    let response = SessionResponse {
        access_token: "token".to_string(),
        user: "user-id".to_string(),
    };
    assert_eq!(response.access_token, "token");
    assert_eq!(response.user, "user-id");
}

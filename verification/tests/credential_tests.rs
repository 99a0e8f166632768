use statusline::credential::{
    access_token_from, creds_file_access_token, credential_access_token, decode_credential_blob,
    token_file_access_token, TokenDocument, TokenPlace,
};
use statusline::types::{default_theme, input_json_payload, UserConfig};

#[test]
fn blob_as_utf8() {
    assert_eq!(decode_credential_blob(b"{\"a\":1}"), Some("{\"a\":1}".to_string()));
    assert_eq!(decode_credential_blob(b""), Some(String::new()));
}

#[test]
fn blob_as_utf16() {
    // "hi" in UTF-16, native byte order; 0xff makes it invalid UTF-8.
    let mut blob = Vec::new();
    for u in [0x68u16, 0xff69u16] {
        blob.extend_from_slice(&u.to_ne_bytes());
    }
    assert_eq!(decode_credential_blob(&blob), Some("h\u{ff69}".to_string()));
}

#[test]
fn blob_with_unpaired_surrogate() {
    let mut blob = Vec::new();
    blob.extend_from_slice(&0xd800u16.to_ne_bytes());
    assert_eq!(decode_credential_blob(&blob), None);
}

fn text(s: &str) -> TokenPlace {
    TokenPlace::Text(s.to_string())
}

fn doc(nested: TokenPlace, top: TokenPlace) -> TokenDocument {
    TokenDocument { nested, top }
}

#[test]
fn token_in_credential_document() {
    // {"token":{"access_token":"t1"}}
    assert_eq!(credential_access_token(&doc(text("t1"), TokenPlace::Absent)), Some("t1".to_string()));
    // {"access_token":"t2"}
    assert_eq!(credential_access_token(&doc(TokenPlace::Absent, text("t2"))), Some("t2".to_string()));
    // A nested value that is not a string hides the top-level one.
    assert_eq!(credential_access_token(&doc(TokenPlace::NotText, text("t2"))), None);
    // A nested string wins over the top-level one.
    assert_eq!(credential_access_token(&doc(text("a"), text("b"))), Some("a".to_string()));
    assert_eq!(credential_access_token(&doc(TokenPlace::Absent, TokenPlace::NotText)), None);
    assert_eq!(credential_access_token(&doc(TokenPlace::Absent, TokenPlace::Absent)), None);
}

#[test]
fn token_in_files() {
    assert_eq!(token_file_access_token(&doc(TokenPlace::Absent, text("t"))), None);
    assert_eq!(token_file_access_token(&doc(text("t"), TokenPlace::Absent)), Some("t".to_string()));
    assert_eq!(token_file_access_token(&doc(TokenPlace::NotText, text("t"))), None);
    assert_eq!(creds_file_access_token(&doc(text("t"), TokenPlace::Absent)), None);
    assert_eq!(creds_file_access_token(&doc(TokenPlace::Absent, text("u"))), Some("u".to_string()));
    assert_eq!(creds_file_access_token(&doc(text("t"), TokenPlace::NotText)), None);
}

#[test]
fn token_source_order() {
    let cred = doc(TokenPlace::Absent, text("from-cred"));
    let file = doc(text("from-file"), TokenPlace::Absent);
    let creds = doc(TokenPlace::Absent, text("from-creds"));
    let empty = doc(TokenPlace::Absent, TokenPlace::Absent);
    assert_eq!(access_token_from(Some(&cred), Some(&file), Some(&creds)), Some("from-cred".to_string()));
    assert_eq!(access_token_from(Some(&empty), Some(&file), Some(&creds)), Some("from-file".to_string()));
    assert_eq!(access_token_from(Some(&empty), Some(&empty), Some(&creds)), Some("from-creds".to_string()));
    assert_eq!(access_token_from(None, None, Some(&creds)), Some("from-creds".to_string()));
    // The token file is read at its nested place only.
    assert_eq!(access_token_from(None, Some(&cred), None), None);
    assert_eq!(access_token_from(None, None, None), None);
}

#[test]
fn piped_input_payload() {
    assert_eq!(input_json_payload("  {\"cwd\":\"/x\"}\n"), Some("{\"cwd\":\"/x\"}".to_string()));
    assert_eq!(input_json_payload("\u{feff}{}"), Some("{}".to_string()));
    assert_eq!(input_json_payload("\u{feff}"), None);
    assert_eq!(input_json_payload("   "), None);
    assert_eq!(input_json_payload(""), None);
}

#[test]
fn default_configuration() {
    assert_eq!(default_theme(), "frost");
    let c = UserConfig::default();
    assert_eq!(c.theme, "frost");
    assert!(c.show_vcs && c.show_quota && c.show_context && c.show_settings);
    assert!(c.saved_accounts.is_empty());
}

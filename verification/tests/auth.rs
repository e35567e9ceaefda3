use ipams_client::auth::{
    current_user_id, delete_token, get_current_username, get_user_id_from_token, is_logged_in, load_token, read_name,
    save_token, token_payload, token_payload_plain, KeyringFault, TokenCache,
};
use ipams_client::base64::base64_url_decode;
use ipams_client::json::read_document;

// {"sub":"u1","username":"ann"}
const ANN: &str = "h.eyJzdWIiOiJ1MSIsInVzZXJuYW1lIjoiYW5uIn0.s";
// {"sub":"u??>>","name":"b"}, whose text holds a letter that only addresses use
const ODD: &str = "h.eyJzdWIiOiJ1Pz8-PiIsIm5hbWUiOiJiIn0.s";

fn some(s: &str) -> Option<String> {
    Some(s.to_string())
}

#[test]
fn base64_groups() {
    assert_eq!(base64_url_decode("TWFu"), b"Man".to_vec());
    assert_eq!(base64_url_decode("TWE="), b"Ma".to_vec());
    assert_eq!(base64_url_decode("TQ=="), b"M".to_vec());
    assert_eq!(base64_url_decode("TWFuTWE="), b"ManMa".to_vec());
    assert_eq!(base64_url_decode(""), Vec::<u8>::new());
}

#[test]
fn base64_passes_over_what_fills_no_group() {
    assert_eq!(base64_url_decode("TWFuTW"), b"Man".to_vec());
    assert_eq!(base64_url_decode("TWFu====TWFu"), b"Man".to_vec());
    // a character outside the alphabet counts as zeros
    assert_eq!(base64_url_decode("!!!!"), vec![0, 0, 0]);
    assert_eq!(base64_url_decode("+/+/"), vec![0xfb, 0xff, 0xbf]);
    // the fourth character counts though the third is missing
    assert_eq!(base64_url_decode("TQ=B"), vec![0x4d, 1]);
}

#[test]
fn user_of_a_token() {
    assert_eq!(get_user_id_from_token(ANN), some("u1"));
    assert_eq!(get_user_id_from_token(ODD), some("u??>>"));
    assert_eq!(token_payload(ANN), Some(b"{\"sub\":\"u1\",\"username\":\"ann\"}".to_vec()));
}

#[test]
fn user_of_something_else() {
    assert_eq!(get_user_id_from_token("no dots"), None);
    assert_eq!(get_user_id_from_token("a.b.c"), None);
    // {"sub":7}
    assert_eq!(get_user_id_from_token("h.eyJzdWIiOjd9.s"), None);
    // the second part may be the last
    assert_eq!(get_user_id_from_token("h.eyJzdWIiOiJ1MSJ9"), some("u1"));
    assert_eq!(token_payload("x"), None);
    assert_eq!(token_payload_plain("x"), None);
}

#[test]
fn name_of_the_user() {
    assert_eq!(get_current_username(&some(ANN)), some("ann"));
    assert_eq!(get_current_username(&None), None);
    // read without the letters of addresses, the document is another one
    assert_ne!(token_payload_plain(ODD), token_payload(ODD));
}

#[test]
fn first_name_that_is_there() {
    let doc = |s: &str| read_document(s.as_bytes());
    assert_eq!(read_name(&doc("{\"username\":\"a\",\"name\":\"b\",\"display_name\":\"c\"}")), some("a"));
    assert_eq!(read_name(&doc("{\"username\":1,\"name\":\"b\",\"display_name\":\"c\"}")), some("b"));
    assert_eq!(read_name(&doc("{\"display_name\":\"c\"}")), some("c"));
    assert_eq!(read_name(&doc("[]")), None);
    assert_eq!(read_name(&doc("no json")), None);
}

#[test]
fn current_user_or_nobody() {
    assert_eq!(current_user_id(&some(ANN)), "u1");
    assert_eq!(current_user_id(&some("x")), "anonymous");
    assert_eq!(current_user_id(&None), "anonymous");
}

#[test]
fn token_is_at_hand_before_the_keyring() {
    let mut cache = TokenCache::new();
    assert!(cache.is_empty());
    assert!(!is_logged_in(&mut cache, &None));
    assert_eq!(load_token(&mut cache, &some("")), None);
    assert_eq!(load_token(&mut cache, &some("k")), some("k"));
    // from now on it is at hand
    assert_eq!(load_token(&mut cache, &some("other")), some("k"));
    assert!(is_logged_in(&mut cache, &None));
}

#[test]
fn keyring_faults_do_not_touch_the_cache() {
    let mut cache = TokenCache::new();
    let e = save_token(&mut cache, "t", &Err(KeyringFault::Refused("locked".to_string())));
    assert_eq!(e, Err("Failed to save token: locked".to_string()));
    assert_eq!(load_token(&mut cache, &None), some("t"));
    let e = save_token(&mut cache, "u", &Err(KeyringFault::Open("none".to_string())));
    assert_eq!(e, Err("Failed to create keyring entry: none".to_string()));
    assert_eq!(save_token(&mut cache, "v", &Ok(())), Ok(()));
    let e = delete_token(&mut cache, &Err(KeyringFault::Refused("locked".to_string())));
    assert_eq!(e, Err("Failed to delete token: locked".to_string()));
    assert!(cache.is_empty());
    assert_eq!(delete_token(&mut cache, &Ok(())), Ok(()));
}

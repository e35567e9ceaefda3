use ipams_client::auth::{load_token, save_token, KeyringFault, TokenCache};
use ipams_client::deep_link::{
    handle_auth, handle_deep_link, handle_upload, link_token, no_project_text, parse_number, parse_query, read_link,
    Link, UploadLink, UploadParams,
};
use ipams_client::pairs::TextMap;
use ipams_client::shell::{asks_login, event_link, link_argument, logout};
use ipams_client::transfer::manager::{get_all_tasks, Manager};
use ipams_client::transfer::message::Effect;

// {"sub":"u1"} and {"sub":"u2"}
const U1: &str = "h.eyJzdWIiOiJ1MSJ9.s";
const U2: &str = "h.eyJzdWIiOiJ1MiJ9.s";

fn some(s: &str) -> Option<String> {
    Some(s.to_string())
}

fn query(text: &str) -> TextMap {
    match handle_deep_link(text) {
        Ok(Link::Upload(q)) => q,
        Ok(Link::Auth(q)) => q,
        _ => panic!("no link"),
    }
}

fn shown(out: &Vec<Effect<String>>) -> String {
    format!("{:?}", out)
}

fn begun(r: UploadLink) -> UploadParams {
    match r {
        UploadLink::Begin(p) => p,
        _ => panic!("nothing begins"),
    }
}

#[test]
fn links_are_told_apart() {
    assert!(matches!(handle_deep_link("ipams://upload?project_id=1"), Ok(Link::Upload(_))));
    assert!(matches!(handle_deep_link("ipams://auth?token=t"), Ok(Link::Auth(_))));
    assert!(matches!(handle_deep_link("ipams://else?x=1"), Ok(Link::Unknown)));
    assert!(matches!(handle_deep_link("ipams:upload"), Ok(Link::Unknown)));
    match handle_deep_link("no link") {
        Err(e) => assert_eq!(e, "Invalid URL: relative URL without a base"),
        Ok(_) => panic!("a link"),
    }
}

#[test]
fn parameters_are_decoded() {
    let q = query("ipams://upload?project_id=p%201&folder_id=a+b&x=1&x=2");
    assert_eq!(q.get("project_id"), some("p 1"));
    assert_eq!(q.get("folder_id"), some("a b"));
    assert_eq!(q.get("x"), some("2"));
    assert_eq!(link_token(&q), None);
}

#[test]
fn host_decides() {
    let pairs = vec![("k".to_string(), "v".to_string())];
    assert!(matches!(read_link(&some("upload"), &pairs), Link::Upload(_)));
    assert!(matches!(read_link(&some("auth"), &pairs), Link::Auth(_)));
    assert!(matches!(read_link(&some("Upload"), &pairs), Link::Unknown));
    assert!(matches!(read_link(&None, &pairs), Link::Unknown));
    assert_eq!(parse_query(&pairs).get("k"), some("v"));
}

#[test]
fn numbers_of_files() {
    assert_eq!(parse_number("0"), Some(0));
    assert_eq!(parse_number("+12"), Some(12));
    assert_eq!(parse_number("4294967295"), Some(4294967295));
    assert_eq!(parse_number("0000000000000000000000001"), Some(1));
    for bad in ["", "+", "-1", "4294967296", "99999999999999999999999", "1 ", " 1", "++1", "a"] {
        assert_eq!(parse_number(bad), None, "{}", bad);
        assert!(bad.parse::<u32>().is_err());
    }
}

#[test]
fn login_by_link() {
    let mut cache = TokenCache::new();
    let mut out = Vec::new();
    let r = handle_auth(&mut cache, &query(&format!("ipams://auth?token={}", U1)), &Ok(()), &mut out);
    assert_eq!(r, Ok(()));
    assert_eq!(load_token(&mut cache, &None), some(U1));
    assert_eq!(shown(&out), format!("[ShowWindow, Emit(TokenSaved {{ token: {:?} }})]", U1));
}

#[test]
fn login_by_link_fails() {
    let mut cache = TokenCache::new();
    let mut out = Vec::new();
    let r = handle_auth(&mut cache, &query("ipams://auth?x=1"), &Ok(()), &mut out);
    assert_eq!(r, Err("Missing token parameter".to_string()));
    let kept = Err(KeyringFault::Refused("no".to_string()));
    let r = handle_auth(&mut cache, &query("ipams://auth?token=t"), &kept, &mut out);
    assert_eq!(r, Err("Failed to save token: no".to_string()));
    assert_eq!(load_token(&mut cache, &None), some("t"));
    assert!(out.is_empty());
}

#[test]
fn upload_by_link() {
    let mut cache = TokenCache::new();
    let mut out = Vec::new();
    let q = query(&format!("ipams://upload?project_id=p&folder_id=f&asset_type_id=a&count=3&token={}", U1));
    let (r, keep) = handle_upload(&mut cache, &q, &None, &mut out);
    let p = begun(r);
    assert_eq!((p.project_id.as_str(), p.folder_id, p.asset_type_id, p.count), ("p", some("f"), some("a"), 3));
    assert_eq!(p.token, some(U1));
    assert_eq!(keep, some(U1));
    assert_eq!(load_token(&mut cache, &None), some(U1));
    assert_eq!(shown(&out), "[ShowWindow]");
}

#[test]
fn folders_and_counts_by_link() {
    let count = |q: &str| {
        let mut cache = TokenCache::new();
        let (r, _) = handle_upload(&mut cache, &query(q), &some("k"), &mut Vec::new());
        begun(r).count
    };
    assert_eq!(count("ipams://upload?project_id=p&mode=folder&count=5"), 0);
    assert_eq!(count("ipams://upload?project_id=p&mode=file&count=5"), 5);
    assert_eq!(count("ipams://upload?project_id=p&count=0"), 0);
    assert_eq!(count("ipams://upload?project_id=p&count=x"), 1);
    assert_eq!(count("ipams://upload?project_id=p"), 1);
}

#[test]
fn another_user_is_turned_away() {
    let mut cache = TokenCache::new();
    let _ = save_token(&mut cache, U1, &Ok(()));
    let mut out = Vec::new();
    let q = query(&format!("ipams://upload?project_id=p&token={}", U2));
    let (r, keep) = handle_upload(&mut cache, &q, &None, &mut out);
    assert!(matches!(r, UploadLink::Mismatch));
    assert_eq!(keep, None);
    assert_eq!(load_token(&mut cache, &None), some(U1));
    assert_eq!(shown(&out), "[Emit(UserMismatch)]");
}

#[test]
fn a_token_without_a_user_is_taken() {
    let mut cache = TokenCache::new();
    let _ = save_token(&mut cache, U1, &Ok(()));
    let (r, keep) = handle_upload(&mut cache, &query("ipams://upload?project_id=p&token=x"), &None, &mut Vec::new());
    assert_eq!(begun(r).token, some("x"));
    assert_eq!(keep, some("x"));
}

#[test]
fn upload_needs_login_and_project() {
    let mut cache = TokenCache::new();
    let mut out = Vec::new();
    let (r, _) = handle_upload(&mut cache, &query("ipams://upload?project_id=p"), &None, &mut out);
    assert!(matches!(r, UploadLink::Login));
    let (r, _) = handle_upload(&mut cache, &query("ipams://upload?count=1"), &some("k"), &mut out);
    assert!(matches!(r, UploadLink::NoProject));
    assert_eq!(no_project_text(), "Missing project_id parameter");
    assert!(out.is_empty());
}

#[test]
fn link_among_the_arguments() {
    let args: Vec<String> = ["app", "ipams:/x", "ipams://a", "ipams://b"].iter().map(|s| s.to_string()).collect();
    assert_eq!(link_argument(&args), Some(2));
    assert_eq!(link_argument(&vec!["app".to_string()]), None);
}

#[test]
fn link_in_an_event() {
    assert_eq!(event_link("\"ipams://a\""), "ipams://a");
    assert_eq!(event_link("ipams://a"), "ipams://a");
    assert_eq!(event_link("\"a\\\"b\""), "a\"b");
    assert_eq!(event_link("\""), "\"");
    assert_eq!(event_link("\"a"), "\"a");
    assert_eq!(event_link("[\\\"x\\\"]"), "[\"x\"]");
}

#[test]
fn login_at_the_start() {
    assert!(asks_login(false, false));
    assert!(!asks_login(true, false) && !asks_login(false, true) && !asks_login(true, true));
}

#[test]
fn logging_out() {
    let mut cache = TokenCache::new();
    let _ = save_token(&mut cache, U1, &Ok(()));
    let mut m = Manager::new(&Vec::new());
    let mut out = Vec::new();
    let gone = Err(KeyringFault::Refused("no".to_string()));
    assert_eq!(logout(&mut cache, &mut m, &gone, &mut out), Err("Failed to delete token: no".to_string()));
    assert!(out.is_empty());
    assert_eq!(logout(&mut cache, &mut m, &Ok(()), &mut out), Ok(()));
    assert!(cache.is_empty());
    assert!(get_all_tasks(&m, "u1").is_empty());
    assert_eq!(shown(&out), "[Save]");
}

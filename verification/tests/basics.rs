use ipams_client::checksum::{hex_text, FileHasher};
use ipams_client::clock::{chrono_now_iso, epoch_to_ymd_hms, is_representable};
use ipams_client::pairs::TextMap;
use ipams_client::path::parent_text;
use ipams_client::text::{
    comes_before, contains_text, decimal_text, insert_ascending, join_text, push_signed, replace_text, split_text,
    starts_with_text, trim_end_char,
};

fn parent(p: &str) -> Option<String> {
    parent_text(p)
}

#[test]
fn dates() {
    assert_eq!(epoch_to_ymd_hms(0), (1970, 1, 1, 0, 0, 0));
    assert_eq!(epoch_to_ymd_hms(951782399), (2000, 2, 28, 23, 59, 59));
    assert_eq!(epoch_to_ymd_hms(951782400), (2000, 2, 29, 0, 0, 0));
    assert_eq!(epoch_to_ymd_hms(1704067199), (2023, 12, 31, 23, 59, 59));
    assert_eq!(epoch_to_ymd_hms(4107542400), (2100, 3, 1, 0, 0, 0));
}

#[test]
fn date_text_is_padded() {
    assert_eq!(chrono_now_iso(0), "1970-01-01T00:00:00Z");
    assert_eq!(chrono_now_iso(1700000000), "2023-11-14T22:13:20Z");
}

#[test]
fn dates_have_a_last_year() {
    assert!(is_representable(0));
    assert!(is_representable(1568703873082 * 86400 - 1));
    assert!(!is_representable(1568703873082 * 86400));
}

#[test]
fn checksum_is_half_of_the_hash() {
    let mut h = FileHasher::new();
    assert!(h.has_room(5));
    h.absorb(b"hello");
    h.absorb(b" world");
    assert_eq!(h.checksum(), "b94d27b9934d3e08a52e52d7da7dabfa");
    assert_eq!(FileHasher::new().checksum(), "e3b0c44298fc1c149afbf4c8996fb924");
}

#[test]
fn pieces_do_not_matter() {
    let mut a = FileHasher::new();
    a.absorb(b"hello world");
    let mut b = FileHasher::new();
    b.absorb(b"h");
    b.absorb(b"");
    b.absorb(b"ello world");
    assert_eq!(a.checksum(), b.checksum());
}

#[test]
fn hexadecimal() {
    assert_eq!(hex_text(&vec![0, 15, 16, 255, 7], 4), "000f10ff");
}

#[test]
fn parents_of_paths() {
    assert_eq!(parent("a/b/c.txt"), Some("a/b".to_string()));
    assert_eq!(parent("a/b/"), Some("a".to_string()));
    assert_eq!(parent("a//b"), Some("a".to_string()));
    assert_eq!(parent("a/./b"), Some("a".to_string()));
    assert_eq!(parent("a/."), Some("".to_string()));
    assert_eq!(parent("a"), Some("".to_string()));
    assert_eq!(parent("./a"), Some(".".to_string()));
    assert_eq!(parent("/a"), Some("/".to_string()));
    assert_eq!(parent("a/.."), Some("a".to_string()));
    assert_eq!(parent("/"), None);
    assert_eq!(parent("//"), None);
    assert_eq!(parent(""), None);
    for p in ["a/b/c.txt", "a/b/", "a//b", "a/./b", "a/.", "a", "./a", "/a", "a/..", "/", "//", "", ".", "./", "..", "/.", "/./a", ".//a"] {
        let expected = std::path::Path::new(p).parent().map(|q| q.to_string_lossy().to_string());
        assert_eq!(parent(p), expected, "{}", p);
    }
}

#[test]
fn later_text_counts() {
    let mut m = TextMap::new();
    m.insert("k".to_string(), "1".to_string());
    m.insert("l".to_string(), "2".to_string());
    m.insert("k".to_string(), "3".to_string());
    assert_eq!(m.get("k"), Some("3".to_string()));
    assert_eq!(m.get("l"), Some("2".to_string()));
    assert_eq!(m.get("m"), None);
    assert!(m.contains("k") && !m.contains("m"));
}

#[test]
fn texts() {
    assert!(contains_text("abcabd", "abd") && !contains_text("abc", "abd") && contains_text("abc", ""));
    assert!(starts_with_text("ipams://x", "ipams://") && !starts_with_text("ipams:/", "ipams://"));
    assert_eq!(trim_end_char("a//b//", '/'), "a//b");
    assert_eq!(replace_text("aaa", "aa", "b"), "ba");
    assert_eq!(split_text("a//b", '/'), vec!["a", "", "b"]);
    assert_eq!(join_text(&vec!["a".to_string(), "b".to_string()], "; "), "a; b");
    assert_eq!(decimal_text(18446744073709551615), "18446744073709551615");
    let mut s = String::from("x");
    push_signed(&mut s, -2147483648);
    push_signed(&mut s, 7);
    assert_eq!(s, "x-21474836487");
}

#[test]
fn order_of_texts() {
    assert!(comes_before("a", "ab") && comes_before("Z", "a") && !comes_before("a", "a") && !comes_before("b", "ab"));
    let mut v: Vec<String> = Vec::new();
    for t in ["b", "a/c", "a", "b", "é", "z"] {
        insert_ascending(&mut v, t.to_string());
    }
    let mut expected: Vec<String> = ["b", "a/c", "a", "é", "z"].iter().map(|s| s.to_string()).collect();
    expected.sort();
    assert_eq!(v, expected);
}

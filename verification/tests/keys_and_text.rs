use dr_write::keys::{
    counter_key, counter_label, crossref_url, decode_doi, fetch_message, fetch_succeeded, full_path,
    index_key, new_uid, node_key, raw_key,
};
use dr_write::text::{chars_of, replace_all, split, string_of, trim};

#[test]
fn uid_is_name_and_time_stamp() {
    assert_eq!(new_uid("bob", 42), "dr-bob-42");
    assert_eq!(new_uid("", 0), "dr--0");
    assert_eq!(new_uid("ann", u64::MAX), "dr-ann-18446744073709551615");
}

#[test]
fn counter_keys_and_labels() {
    assert_eq!(counter_key("dr-bob-1", "f"), "next-f-dr-bob-1");
    assert_eq!(counter_key("dr-bob-1", "d"), "next-d-dr-bob-1");
    assert_eq!(counter_label("f", 7), "f7");
    assert_eq!(counter_label("d", 0), "d0");
    // a negative counter is read as a u64, as `as u64` does
    assert_eq!(counter_label("d", -1), "d18446744073709551615");
}

#[test]
fn record_keys() {
    assert_eq!(index_key("dr-bob-1"), "folders-dr-bob-1");
    assert_eq!(raw_key("thesis", "10.1000/xyz"), "raw-thesis::10.1000/xyz");
    assert_eq!(node_key("thesis", "10.1000/xyz"), "doi-thesis::10.1000/xyz");
    assert_ne!(raw_key("a", "b"), node_key("a", "b"));
}

#[test]
fn folder_paths() {
    assert_eq!(full_path("", "essays"), "essays");
    assert_eq!(full_path("school", "essays"), "school_essays");
    assert_eq!(full_path("a_b", ""), "a_b_");
}

#[test]
fn doi_from_url_is_decoded() {
    assert_eq!(decode_doi("10.1000%2Fabc%2F1"), "10.1000/abc/1");
    assert_eq!(decode_doi("10.1000/abc"), "10.1000/abc");
    assert_eq!(decode_doi("%2f"), "%2f");
    assert_eq!(decode_doi("%%2F2F"), "%/2F");
}

#[test]
fn crossref_address_and_status() {
    assert_eq!(crossref_url("10.1/x"), "https://api.crossref.org/works/10.1/x");
    assert!(fetch_succeeded(200));
    assert!(fetch_succeeded(299));
    assert!(!fetch_succeeded(300));
    assert!(!fetch_succeeded(199));
    assert!(!fetch_succeeded(404));
}

#[test]
fn fetch_message_body() {
    assert_eq!(fetch_message("dr-bob-1", "10.1/x"), b"doi-dr-bob-1-10.1/x".to_vec());
    assert_eq!(fetch_message("é", "x"), "doi-é-x".as_bytes().to_vec());
}

#[test]
fn replace_scans_from_the_left() {
    assert_eq!(replace_all("aaa", "aa", "b"), "ba");
    assert_eq!(replace_all("<p>x</p>", "<p>", ""), "x</p>");
    assert_eq!(replace_all("abc", "zz", "y"), "abc");
    assert_eq!(replace_all("", "a", "b"), "");
    assert_eq!(replace_all("a", "ab", "c"), "a");
}

#[test]
fn split_keeps_empty_pieces() {
    let parts = split(&chars_of("a//b/"), '/');
    assert_eq!(parts, vec!["a".to_string(), "".to_string(), "b".to_string(), "".to_string()]);
    let parts = split(&chars_of(""), '/');
    assert_eq!(parts, vec!["".to_string()]);
}

#[test]
fn trim_removes_unicode_white_space() {
    let t = trim(&chars_of("\u{3000} \t x y \n\u{a0}"));
    assert_eq!(string_of(&t), "x y");
    let t = trim(&chars_of("   "));
    assert_eq!(string_of(&t), "");
}

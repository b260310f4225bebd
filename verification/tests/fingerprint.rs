use clipshare::api::MimeContent;
use clipshare::fingerprint::{has_changed, hash_contents, to_hex};

fn item(mime: &str, data: &str) -> MimeContent {
    MimeContent { mime_type: mime.to_string(), data: data.to_string() }
}

#[test]
fn empty_snapshot_hashes_to_the_digest_of_no_bytes() {
    assert_eq!(
        hash_contents(&[]),
        "e3b0c44298fc1c149afbf4c8996fb92427ae41e4649b934ca495991b7852b855"
    );
}

#[test]
fn fingerprint_is_sha256_of_mime_then_payload() {
    // The digest of the bytes "text/plainhello".
    assert_eq!(
        hash_contents(&[item("text/plain", "hello")]),
        "5ff052f19da6d1a80e95d3f3269cc442aaa1600570fca8c60a8421be4e1b727b"
    );
}

#[test]
fn fingerprint_streams_items_in_snapshot_order() {
    let snapshot = [item("text/plain", "hello"), item("text/html", "<b>hi</b>")];
    assert_eq!(
        hash_contents(&snapshot),
        "22c7f538501259dd15cdae5bf226b8b5cef8a4af8eadefbba887dd5adb8ae0e5"
    );
    let swapped = [item("text/html", "<b>hi</b>"), item("text/plain", "hello")];
    assert_ne!(hash_contents(&snapshot), hash_contents(&swapped));
}

#[test]
fn fingerprint_hashes_text_as_utf8() {
    assert_eq!(
        hash_contents(&[item("text/plain", "h\u{e9}llo")]),
        "59eff7a3fafdec338a7123b34d31826acccfc2c236430a5f4e5fa870a49cfd02"
    );
}

#[test]
fn equal_snapshots_have_equal_fingerprints() {
    let a = vec![item("text/plain", "hello"), item("image/png", "aGVsbG8=")];
    let b = vec![item("text/plain", "hello"), item("image/png", "aGVsbG8=")];
    assert_eq!(hash_contents(&a), hash_contents(&b));
    assert_eq!(hash_contents(&a), hash_contents(&a.clone()));
}

#[test]
fn a_changed_payload_or_type_changes_the_fingerprint() {
    let base = hash_contents(&[item("text/plain", "hello")]);
    assert_ne!(base, hash_contents(&[item("text/plain", "hellp")]));
    assert_ne!(base, hash_contents(&[item("text/html", "hello")]));
    assert_ne!(base, hash_contents(&[item("text/plain", "hello"), item("text/plain", "x")]));
}

#[test]
fn items_are_hashed_without_a_separator() {
    // The type and the payload run together, so these two snapshots feed
    // the same bytes, "abc", to the hash.
    let left = hash_contents(&[item("ab", "c")]);
    let right = hash_contents(&[item("a", "bc")]);
    assert_eq!(left, right);
    assert_eq!(left, "ba7816bf8f01cfea414140de5dae2223b00361a396177a9cb410ff61f20015ad");
}

#[test]
fn fingerprint_is_64_lower_case_hex_digits() {
    let digest = hash_contents(&[item("image/png", "iVBORw0KGgo=")]);
    assert_eq!(digest.len(), 64);
    assert!(digest.chars().all(|c| c.is_ascii_digit() || ('a'..='f').contains(&c)));
}

#[test]
fn hex_writes_two_lower_case_digits_per_byte() {
    assert_eq!(to_hex(&[0x00, 0x0a, 0xff, 0x10]), "000aff10");
    assert_eq!(to_hex(&[0xde, 0xad, 0xbe, 0xef]), "deadbeef");
    assert_eq!(to_hex(&[]), "");
}

#[test]
fn has_changed_is_inequality() {
    assert!(has_changed("abc", ""));
    assert!(has_changed("abc", "abd"));
    assert!(has_changed("abc", "ab"));
    assert!(!has_changed("abc", "abc"));
    assert!(!has_changed("", ""));
}

#[test]
fn clone_keeps_both_fields() {
    let first = item("text/plain", "hello");
    let copy = first.clone();
    assert_eq!(copy.mime_type, "text/plain");
    assert_eq!(copy.data, "hello");
}

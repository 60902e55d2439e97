use rust_qr::fingerprint::{
    FileRecord, Fnv1a64, extension_selected, fingerprint_hex, fingerprint_records, portable_path,
};

fn hash(bytes: &[u8]) -> u64 {
    let mut hasher = Fnv1a64::new();
    hasher.write(bytes);
    hasher.finish()
}

#[test]
fn fnv1a_matches_reference_vectors() {
    assert_eq!(hash(b""), 0xcbf29ce484222325);
    assert_eq!(hash(b"a"), 0xaf63dc4c8601ec8c);
    assert_eq!(hash(b"foobar"), 0x85944171f73967e8);
}

#[test]
fn hashing_in_pieces_equals_hashing_at_once() {
    let mut hasher = Fnv1a64::new();
    hasher.write(b"foo");
    hasher.write(b"");
    hasher.write(b"bar");
    assert_eq!(hasher.finish(), hash(b"foobar"));
}

#[test]
fn fingerprint_covers_path_length_contents_and_separators() {
    let records = vec![
        FileRecord {
            relative_path: "a.png".to_string(),
            length: Some(3),
            contents: Some(vec![1, 2, 3]),
        },
        FileRecord { relative_path: "dir/b.jpg".to_string(), length: None, contents: None },
    ];
    let digest = fingerprint_records(&records);
    assert_eq!(digest, 0xa1c711e5c7459c5d);
    assert_eq!(fingerprint_hex(digest), "a1c711e5c7459c5d");
    assert_eq!(fingerprint_records(&[]), 0xcbf29ce484222325);
}

#[test]
fn hex_is_zero_padded_lowercase() {
    assert_eq!(fingerprint_hex(0), "0000000000000000");
    assert_eq!(fingerprint_hex(0xABC), "0000000000000abc");
    assert_eq!(fingerprint_hex(u64::MAX), "ffffffffffffffff");
}

#[test]
fn extensions_match_without_ascii_case() {
    let images = ["png", "jpg", "jpeg"];
    assert!(extension_selected(Some("PNG"), &images));
    assert!(extension_selected(Some("jpeg"), &images));
    assert!(!extension_selected(Some("txt"), &images));
    assert!(!extension_selected(None, &images));
    assert!(!extension_selected(Some("png"), &[]));
}

#[test]
fn portable_paths_use_forward_slashes() {
    assert_eq!(portable_path("dir\\sub\\a.png"), "dir/sub/a.png");
    assert_eq!(portable_path("plain.png"), "plain.png");
}

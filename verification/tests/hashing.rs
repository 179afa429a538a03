use hash_object::digest::hash_object;
use hash_object::header::{build_header, frame};
use hash_object::object_type::ObjectType;

#[test]
fn determinism_same_input_same_digest() {
    let payload = b"some payload bytes";
    let first = hash_object(ObjectType::Blob, payload);
    let second = hash_object(ObjectType::Blob, payload);
    assert_eq!(first, second);
    let third = hash_object(ObjectType::Commit, payload);
    let fourth = hash_object(ObjectType::Commit, payload);
    assert_eq!(third, fourth);
}

#[test]
fn type_sensitivity_distinct_tags_distinct_digests() {
    let payload = b"hello";
    let blob = hash_object(ObjectType::Blob, payload);
    let tree = hash_object(ObjectType::Tree, payload);
    let commit = hash_object(ObjectType::Commit, payload);
    let tag = hash_object(ObjectType::Tag, payload);
    assert_ne!(blob, tree);
    assert_ne!(blob, commit);
    assert_ne!(blob, tag);
    assert_ne!(tree, commit);
    assert_ne!(tree, tag);
    assert_ne!(commit, tag);
}

#[test]
fn length_sensitivity_suffix_changes_digest() {
    let short = b"abc";
    let long = b"abcd";
    assert_ne!(
        hash_object(ObjectType::Blob, short),
        hash_object(ObjectType::Blob, long)
    );
    let empty = b"";
    let one = b"\n";
    assert_ne!(
        hash_object(ObjectType::Blob, empty),
        hash_object(ObjectType::Blob, one)
    );
}

#[test]
fn invalid_type_rejected() {
    assert!(ObjectType::parse("banana").is_none());
    assert!(ObjectType::parse("Blob").is_none());
    assert!(ObjectType::parse("blob ").is_none());
    assert!(ObjectType::parse("").is_none());
    assert!(ObjectType::parse("blobs").is_none());
}

#[test]
fn valid_types_parse() {
    assert_eq!(ObjectType::parse("blob"), Some(ObjectType::Blob));
    assert_eq!(ObjectType::parse("tree"), Some(ObjectType::Tree));
    assert_eq!(ObjectType::parse("commit"), Some(ObjectType::Commit));
    assert_eq!(ObjectType::parse("tag"), Some(ObjectType::Tag));
}

#[test]
fn empty_blob_known_digest() {
    assert_eq!(
        hash_object(ObjectType::Blob, b""),
        "e69de29bb2d1d6434b8b29ae775ad8c2e48c5391"
    );
}

#[test]
fn known_vector_what_is_up_doc() {
    let payload = b"what is up, doc?";
    assert_eq!(payload.len(), 16);
    assert_eq!(
        hash_object(ObjectType::Blob, payload),
        "bd9dbf5aae1a3862dd1526723246b20206e5fc37"
    );
}

#[test]
fn empty_tree_known_digest() {
    assert_eq!(
        hash_object(ObjectType::Tree, b""),
        "4b825dc642cb6eb9a060e54bf8d69288fbee4904"
    );
}

#[test]
fn default_type_is_blob() {
    assert_eq!(
        ObjectType::parse_or_default(None),
        Some(ObjectType::Blob)
    );
    assert_eq!(
        ObjectType::parse_or_default(None),
        ObjectType::parse_or_default(Some("blob"))
    );
    let payload = b"default check";
    let omitted = hash_object(ObjectType::parse_or_default(None).unwrap(), payload);
    let explicit = hash_object(
        ObjectType::parse_or_default(Some("blob")).unwrap(),
        payload,
    );
    assert_eq!(omitted, explicit);
}

#[test]
fn header_layout() {
    assert_eq!(build_header(ObjectType::Blob, 0), b"blob 0\0".to_vec());
    assert_eq!(build_header(ObjectType::Tree, 7), b"tree 7\0".to_vec());
    assert_eq!(
        build_header(ObjectType::Commit, 1234),
        b"commit 1234\0".to_vec()
    );
    assert_eq!(build_header(ObjectType::Tag, 10), b"tag 10\0".to_vec());
}

#[test]
fn frame_prepends_header() {
    assert_eq!(frame(ObjectType::Blob, b"abc"), b"blob 3\0abc".to_vec());
    assert_eq!(frame(ObjectType::Tag, b""), b"tag 0\0".to_vec());
}

#[test]
fn digest_is_40_lowercase_hex() {
    let digest = hash_object(ObjectType::Blob, b"anything at all");
    assert_eq!(digest.len(), 40);
    assert!(digest
        .chars()
        .all(|c| c.is_ascii_digit() || ('a'..='f').contains(&c)));
}

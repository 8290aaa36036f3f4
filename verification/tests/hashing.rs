use tidymac::hashing::{bytes_eq, hash_bytes, hasher_finalize, hasher_new, hasher_update,
    opt_digest_eq};

#[test]
fn digest_is_32_bytes_and_not_the_input() {
    let input = vec![1u8, 2, 3];
    let d = hash_bytes(&input);
    assert_eq!(d.len(), 32);
    assert_ne!(d, input);
}

#[test]
fn digest_matches_reference_implementation() {
    let d = hash_bytes(b"abc");
    let reference = blake3::hash(b"abc");
    assert_eq!(d.as_slice(), reference.as_bytes());
}

#[test]
fn equal_input_equal_digest() {
    assert_eq!(hash_bytes(b"same bytes"), hash_bytes(b"same bytes"));
    assert_ne!(hash_bytes(b"same bytes"), hash_bytes(b"other bytes"));
}

#[test]
fn incremental_hashing_matches_one_shot() {
    let mut h = hasher_new();
    hasher_update(&mut h, b"hello ");
    hasher_update(&mut h, b"world");
    let streamed = hasher_finalize(&h);
    assert_eq!(streamed, hash_bytes(b"hello world"));
}

#[test]
fn finalize_is_idempotent() {
    let mut h = hasher_new();
    hasher_update(&mut h, b"data");
    assert_eq!(hasher_finalize(&h), hasher_finalize(&h));
}

#[test]
fn byte_equality_helpers() {
    assert!(bytes_eq(&vec![1, 2, 3], &vec![1, 2, 3]));
    assert!(!bytes_eq(&vec![1, 2, 3], &vec![1, 2, 4]));
    assert!(!bytes_eq(&vec![1, 2], &vec![1, 2, 3]));
    assert!(opt_digest_eq(&Some(vec![9, 9]), &Some(vec![9, 9])));
    assert!(!opt_digest_eq(&Some(vec![9, 9]), &Some(vec![9, 8])));
    assert!(!opt_digest_eq(&None, &None));
    assert!(!opt_digest_eq(&Some(vec![1]), &None));
}

use packsync::hashing::sha512_hex;
use sha2::Digest;

#[test]
fn digest_matches_a_one_shot_hash() {
    let data = b"the quick brown fox jumps over the lazy dog".to_vec();
    let expected: String = sha2::Sha512::digest(&data).iter().map(|b| format!("{b:02x}")).collect();
    assert_eq!(sha512_hex(&data), expected);
}

#[test]
fn digest_is_128_lowercase_hex_characters() {
    let digest = sha512_hex(b"abc");
    assert_eq!(digest.len(), 128);
    assert!(digest.chars().all(|c| c.is_ascii_hexdigit() && !c.is_ascii_uppercase()));
    let empty = sha512_hex(b"");
    assert_eq!(empty.len(), 128);
}

#[test]
fn same_bytes_hash_the_same_twice() {
    let data = b"unchanged content".to_vec();
    assert_eq!(sha512_hex(&data), sha512_hex(&data));
}

#[test]
fn one_changed_byte_changes_the_digest() {
    let a = b"content version a".to_vec();
    let mut b = a.clone();
    b[0] ^= 1;
    assert_ne!(sha512_hex(&a), sha512_hex(&b));
}

#[test]
fn streaming_covers_inputs_larger_than_one_chunk() {
    // longer than the internal chunk, so the loop takes several turns
    let data = vec![7u8; 50_000];
    let expected: String = sha2::Sha512::digest(&data).iter().map(|b| format!("{b:02x}")).collect();
    assert_eq!(sha512_hex(&data), expected);
}

use dynarray::hashing::{hash_to_index, index_from_digest};

#[test]
fn index_from_digest_reads_big_endian_prefix() {
    let digest = [0u8, 0, 0, 0, 0, 0, 1, 2, 0xff, 0xff];
    assert_eq!(index_from_digest(&digest, 1000), 258);
    assert_eq!(index_from_digest(&digest, 7), 258 % 7);
    let top = [0xffu8; 8];
    assert_eq!(index_from_digest(&top, 1 << 20), (1 << 20) - 1);
    assert_eq!(index_from_digest(&top, 1), 0);
}

#[test]
fn hash_to_index_uses_sha256_prefix() {
    assert_eq!(hash_to_index("", 1000), 652);
    assert_eq!(hash_to_index("abc", 1000), 74);
    assert_eq!(hash_to_index("abc", 50), 24);
    assert_eq!(hash_to_index("nome", 50), 45);
    assert_eq!(hash_to_index("Primeiro", 50), 32);
    assert_eq!(hash_to_index("Primeiro", 7), 6);
    assert_eq!(hash_to_index("anything", 1), 0);
}

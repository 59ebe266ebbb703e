use flat_template::hash::{xxh64, xxh64_range};

#[test]
fn matches_xxh64_empty_vector() {
    assert_eq!(xxh64(b"", 0), 0xef46_db37_51d8_e999);
}

#[test]
fn matches_xxh64_short_inputs() {
    assert_eq!(xxh64(b"a", 0), 0xd24e_c4f1_a98c_6e5b);
    assert_eq!(xxh64(b"abc", 0), 0x44bc_2cf5_ad77_0999);
}

#[test]
fn matches_xxh64_input_longer_than_a_stripe() {
    let input = b"Nobody inspects the spammish repetition";
    assert_eq!(xxh64(input, 0), 0xfbce_a83c_8a37_8bf1);
}

#[test]
fn seed_changes_the_hash() {
    assert_ne!(xxh64(b"abc", 0), xxh64(b"abc", 1));
}

#[test]
fn range_hash_is_hash_of_the_slice() {
    let input: Vec<u8> = (0u8..100).collect();
    for (offset, len) in [(0usize, 0usize), (3, 1), (5, 7), (10, 33), (1, 64), (0, 100), (37, 63)] {
        assert_eq!(
            xxh64_range(&input, offset, len, 7),
            xxh64(&input[offset..offset + len], 7)
        );
    }
}

#[test]
fn empty_range_past_the_end_hashes_nothing() {
    let input = [1u8, 2, 3];
    assert_eq!(xxh64_range(&input, 10, 0, 5), xxh64(b"", 5));
    assert_eq!(xxh64_range(&input, 3, 0, 0), 0xef46_db37_51d8_e999);
}

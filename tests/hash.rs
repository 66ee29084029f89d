use fileshare::hash::{generate_hash, hash_from_draws};

#[test]
fn generated_hash_has_length_and_alphabet() {
    for len in [0usize, 1, 10, 16, 64] {
        let h = generate_hash(len);
        assert_eq!(h.chars().count(), len);
        assert!(h
            .chars()
            .all(|c| c.is_ascii_lowercase() || c.is_ascii_digit()));
        assert!(!h.contains('_'));
    }
}

#[test]
fn generated_hashes_differ() {
    let a = generate_hash(16);
    let b = generate_hash(16);
    assert_ne!(a, b);
}

#[test]
fn draws_map_to_alphabet() {
    assert_eq!(hash_from_draws(&vec![0, 25, 26, 35]), "az09");
    assert_eq!(hash_from_draws(&vec![]), "");
    assert_eq!(hash_from_draws(&vec![7, 4, 11, 11, 14]), "hello");
}

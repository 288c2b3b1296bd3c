use blockchain::helpers::{generate_random_string, get_checksum};

#[test]
fn test_get_checksum() {
    assert_eq!(get_checksum(b"1"), "9c2e4d8f");
}

#[test]
fn test_generate_random_string() {
    let mut results = std::collections::HashSet::new();
    for _ in 0..50 {
        results.insert(generate_random_string());
    }
    assert_eq!(results.len(), 50);
}

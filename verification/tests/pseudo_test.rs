use chronicle_bot::storage::pseudonymize;

#[test]
fn test_pseudonymize_deterministic() {
    let user_id: u64 = 123456789012345678;
    let result1 = pseudonymize(user_id);
    let result2 = pseudonymize(user_id);
    assert_eq!(result1, result2, "Same input must always produce the same output");
}

#[test]
fn test_pseudonymize_different_inputs() {
    let id_a: u64 = 111111111111111111;
    let id_b: u64 = 222222222222222222;
    let result_a = pseudonymize(id_a);
    let result_b = pseudonymize(id_b);
    assert_ne!(
        result_a, result_b,
        "Different user IDs must produce different pseudonyms"
    );
}

#[test]
fn test_pseudonymize_length() {
    let test_ids: Vec<u64> = vec![0, 1, u64::MAX, 999999999999999999, 42];
    for id in test_ids {
        let result = pseudonymize(id);
        assert_eq!(
            result.len(),
            16,
            "Pseudonym for user_id {} should be 16 hex chars, got {} ('{}')",
            id,
            result.len(),
            result
        );
        assert!(
            result.chars().all(|c| c.is_ascii_hexdigit()),
            "Pseudonym should only contain hex characters, got '{}'",
            result
        );
    }
}

#[test]
fn pseudonyms_are_digests_of_the_decimal_id() {
    assert_eq!(pseudonymize(0), "5feceb66ffc86f38");
    assert_eq!(pseudonymize(1), "6b86b273ff34fce1");
    assert_eq!(pseudonymize(42), "73475cb40a568e8d");
    assert_eq!(pseudonymize(123456789012345678), "37f96542b663971b");
}

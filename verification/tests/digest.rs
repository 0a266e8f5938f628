use puzzle_registry::solution_digest;

#[test]
fn debug_get_hash() {
    // Using a unit test to rapidly debug and iterate
    let debug_solution = "near_test";
    let debug_hash_bytes = near_sdk::env::sha256(debug_solution.as_bytes());
    let debug_hash_string = hex::encode(debug_hash_bytes);

    println!("Let's debug: {:?}", debug_hash_string);
}

#[test]
fn digest_matches_reference_pipeline() {
    // The library's digest must agree with hashing and encoding done directly
    // through the underlying crates.
    let expected = hex::encode(near_sdk::env::sha256("near_test".as_bytes()));
    assert_eq!(solution_digest("near_test"), expected);
    assert_ne!(solution_digest("near_test"), "near_test");
}

#[test]
fn digest_known_value() {
    // SHA-256 test vector published with the hashing crate's documentation.
    assert_eq!(
        solution_digest("The phrase that will be hashed"),
        "7fc38bc74a0d0e592d2b8381839adc2649007d5bca11f92eeddef78681b4e3a3"
    );
}

#[test]
fn digest_shape() {
    let d = solution_digest("");
    assert_eq!(d.len(), 64);
    assert!(d.chars().all(|c| c.is_ascii_hexdigit() && !c.is_ascii_uppercase()));
}

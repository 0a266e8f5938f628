use puzzle_registry::Answer;
use puzzle_registry::AnswerDirection;
use puzzle_registry::CoordinatePair;
use puzzle_registry::PuzzleError;
use puzzle_registry::PuzzleStatus;
use puzzle_registry::Welcome;
use puzzle_registry::PRIZE_AMOUNT;

fn sha256_hex(s: &str) -> String {
    hex::encode(near_sdk::env::sha256(s.as_bytes()))
}

fn sample_answer() -> Answer {
    Answer {
        num: 1,
        start: CoordinatePair { x: 19, y: 31 },
        direction: AnswerDirection::Across,
        length: 8,
        clue: "not far but".to_string(),
    }
}

#[test]
fn scenario_fresh_create_lists_one_unsolved() {
    let alice = "alice".to_string();
    let mut contract = Welcome::new(alice.clone());
    contract
        .new_puzzle(&alice, "near_test".to_string(), Vec::new())
        .expect("the owner may create a fresh puzzle");
    let unsolved = contract.get_unsolved_puzzles();
    assert_eq!(unsolved.puzzles.len(), 1);
    assert_eq!(unsolved.puzzles[0].solution_hash, sha256_hex("near_test"));
    assert_eq!(unsolved.puzzles[0].status, PuzzleStatus::Unsolved);
    assert!(unsolved.puzzles[0].answer.is_empty());
}

#[test]
fn scenario_submit_pays_and_empties_list() {
    let alice = "alice".to_string();
    let bob = "bob".to_string();
    let mut contract = Welcome::new(alice.clone());
    contract
        .new_puzzle(&alice, "near_test".to_string(), Vec::new())
        .expect("the owner may create a fresh puzzle");
    let payout = contract
        .submit_solution(&bob, "near_test".to_string(), "solved it!".to_string())
        .expect("a correct first reveal succeeds");
    assert_eq!(payout.receiver, "bob");
    assert_eq!(payout.amount, PRIZE_AMOUNT);
    assert_eq!(payout.amount, 5_000_000_000_000_000_000_000_000u128);
    let status = contract.get_puzzle_status(sha256_hex("near_test"));
    assert_eq!(
        status,
        Some(PuzzleStatus::Solved {
            memo: "solved it!".to_string()
        })
    );
    assert_eq!(contract.get_unsolved_puzzles().puzzles.len(), 0);
}

#[test]
fn scenario_second_submit_rejected() {
    let alice = "alice".to_string();
    let bob = "bob".to_string();
    let mut contract = Welcome::new(alice.clone());
    contract
        .new_puzzle(&alice, "near_test".to_string(), Vec::new())
        .expect("the owner may create a fresh puzzle");
    contract
        .submit_solution(&bob, "near_test".to_string(), "solved it!".to_string())
        .expect("a correct first reveal succeeds");
    let second = contract.submit_solution(&bob, "near_test".to_string(), "again".to_string());
    assert_eq!(second.unwrap_err(), PuzzleError::AlreadySolved);
    let status = contract.get_puzzle_status(sha256_hex("near_test"));
    assert_eq!(
        status,
        Some(PuzzleStatus::Solved {
            memo: "solved it!".to_string()
        })
    );
    assert_eq!(contract.get_unsolved_puzzles().puzzles.len(), 0);
}

#[test]
fn scenario_unknown_solution_not_found() {
    let alice = "alice".to_string();
    let carol = "carol".to_string();
    let mut contract = Welcome::new(alice);
    let outcome = contract.submit_solution(&carol, "unknown_phrase".to_string(), "x".to_string());
    assert_eq!(outcome.unwrap_err(), PuzzleError::NotFound);
}

#[test]
fn scenario_non_owner_create_rejected() {
    let alice = "alice".to_string();
    let bob = "bob".to_string();
    let mut contract = Welcome::new(alice);
    let outcome = contract.new_puzzle(&bob, "near_test".to_string(), vec![sample_answer()]);
    assert_eq!(outcome.unwrap_err(), PuzzleError::Unauthorized);
    assert_eq!(contract.get_unsolved_puzzles().puzzles.len(), 0);
    assert_eq!(contract.get_puzzle_status(sha256_hex("near_test")), None);
}

#[test]
fn create_twice_keeps_first_puzzle() {
    let alice = "alice".to_string();
    let mut contract = Welcome::new(alice.clone());
    contract
        .new_puzzle(&alice, "near_test".to_string(), vec![sample_answer()])
        .expect("the owner may create a fresh puzzle");
    let second = contract.new_puzzle(&alice, "near_test".to_string(), Vec::new());
    assert_eq!(second.unwrap_err(), PuzzleError::AlreadyExists);
    let unsolved = contract.get_unsolved_puzzles();
    assert_eq!(unsolved.puzzles.len(), 1);
    assert_eq!(unsolved.puzzles[0].answer, vec![sample_answer()]);
    assert_eq!(unsolved.puzzles[0].status, PuzzleStatus::Unsolved);
}

#[test]
fn digest_equality_governs_acceptance() {
    // A reveal is judged by the digest of the submitted text: a different
    // text never matches, whoever submits it.
    let alice = "alice".to_string();
    let bob = "bob".to_string();
    let mut contract = Welcome::new(alice.clone());
    contract
        .new_puzzle(&alice, "near_test".to_string(), Vec::new())
        .expect("the owner may create a fresh puzzle");
    let wrong = contract.submit_solution(&bob, "near test".to_string(), "memo".to_string());
    assert_eq!(wrong.unwrap_err(), PuzzleError::NotFound);
    let right = contract.submit_solution(&bob, "near_test".to_string(), "memo".to_string());
    assert!(right.is_ok());
}

#[test]
fn status_of_unsolved_puzzle() {
    let alice = "alice".to_string();
    let mut contract = Welcome::new(alice.clone());
    contract
        .new_puzzle(&alice, "a secret".to_string(), Vec::new())
        .expect("the owner may create a fresh puzzle");
    let status = contract.get_puzzle_status(sha256_hex("a secret"));
    assert_eq!(status, Some(PuzzleStatus::Unsolved));
    assert_eq!(contract.get_puzzle_status(sha256_hex("another")), None);
}

#[test]
fn puzzle_number_is_static() {
    let contract = Welcome::new("alice".to_string());
    assert_eq!(contract.get_puzzle_number(), 1);
}

#[test]
fn two_puzzles_listed_in_creation_order() {
    let alice = "alice".to_string();
    let bob = "bob".to_string();
    let mut contract = Welcome::new(alice.clone());
    contract
        .new_puzzle(&alice, "first secret".to_string(), Vec::new())
        .expect("the owner may create a fresh puzzle");
    contract
        .new_puzzle(&alice, "second secret".to_string(), vec![sample_answer()])
        .expect("the owner may create a second puzzle");
    let unsolved = contract.get_unsolved_puzzles();
    assert_eq!(unsolved.puzzles.len(), 2);
    assert_eq!(unsolved.puzzles[0].solution_hash, sha256_hex("first secret"));
    assert_eq!(unsolved.puzzles[1].solution_hash, sha256_hex("second secret"));
    contract
        .submit_solution(&bob, "first secret".to_string(), "mine".to_string())
        .expect("a correct first reveal succeeds");
    let unsolved = contract.get_unsolved_puzzles();
    assert_eq!(unsolved.puzzles.len(), 1);
    assert_eq!(unsolved.puzzles[0].solution_hash, sha256_hex("second secret"));
    assert_eq!(unsolved.puzzles[0].answer, vec![sample_answer()]);
}

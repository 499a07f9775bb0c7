use tinyrand::{RandRange, Seeded, StdRand};
use interlinked::proof_of_work::{
    alphabet_at, challenge_meets_difficulty, hash_string, solve_pow_challenge, try_candidate,
    ALPHABET_LEN, CHALLENGE_LEN,
};
use interlinked::{come_up_with_solution, get_hash, solution_wrapper};

fn hex_bytes(hex: &str) -> Vec<u8> {
    (0..hex.len())
        .step_by(2)
        .map(|i| u8::from_str_radix(&hex[i..i + 2], 16).unwrap())
        .collect()
}

#[test]
fn hash_of_hello_is_its_sha256_read_lossily() {
    let digest = hex_bytes("2cf24dba5fb0a30e26e83b2ac5b9e29e1b161e5c1fa7425e73043362938b9824");
    let expected = String::from_utf8_lossy(&digest).into_owned();
    assert_eq!(hash_string("hello"), expected);
    assert_eq!(get_hash("hello"), expected);
}

#[test]
fn hash_of_empty_string_is_its_sha256_read_lossily() {
    let digest = hex_bytes("e3b0c44298fc1c149afbf4c8996fb92427ae41e4649b934ca495991b7852b855");
    let expected = String::from_utf8_lossy(&digest).into_owned();
    assert_eq!(hash_string(""), expected);
}

#[test]
fn hash_differs_from_its_input() {
    assert_ne!(hash_string("hello"), "hello");
}

#[test]
fn alphabet_is_lower_upper_digits() {
    let all: String = (0..ALPHABET_LEN).map(alphabet_at).collect();
    assert_eq!(all, "abcdefghijklmnopqrstuvwxyzABCDEFGHIJKLMNOPQRSTUVWXYZ0123456789");
}

#[test]
fn solver_finds_an_accepted_candidate_at_difficulty_one() {
    let (attempt, hash) = solve_pow_challenge(1, 42).expect("a solution");
    assert_eq!(attempt.chars().count(), CHALLENGE_LEN);
    assert!(attempt.chars().all(|c| c.is_ascii_alphanumeric()));
    assert_eq!(hash, hash_string(&attempt));
    assert!(hash.starts_with('0'));
    assert!(challenge_meets_difficulty(&attempt, 1));
}

#[test]
fn solver_finds_an_accepted_candidate_at_difficulty_two() {
    let (attempt, hash) = solve_pow_challenge(2, 7).expect("a solution");
    assert!(hash.starts_with("00"));
    assert!(challenge_meets_difficulty(&attempt, 2));
    assert!(challenge_meets_difficulty(&attempt, 1));
    assert!(challenge_meets_difficulty(&attempt, 0));
}

#[test]
fn solver_is_determined_by_its_seed() {
    let a = solve_pow_challenge(1, 1234).expect("a solution");
    let b = come_up_with_solution(1, 1234).expect("a solution");
    assert_eq!(a, b);
    assert_eq!(solution_wrapper(1, 1234), Some(a.0));
}

#[test]
fn difficulty_zero_accepts_everything() {
    assert!(challenge_meets_difficulty("anything at all", 0));
    assert!(challenge_meets_difficulty("", 0));
    let (attempt, hash) = solve_pow_challenge(0, 3).expect("a solution");
    assert_eq!(hash, hash_string(&attempt));
}

#[test]
fn hello_is_refused_at_difficulty_one() {
    // The digest of "hello" starts with the byte 0x2c, which reads as ','.
    assert!(!challenge_meets_difficulty("hello", 1));
    assert!(try_candidate("hello".to_string(), 1).is_none());
    let (attempt, hash) = try_candidate("hello".to_string(), 0).expect("accepted");
    assert_eq!(attempt, "hello");
    assert_eq!(hash, hash_string("hello"));
}

#[test]
fn no_hash_text_meets_a_difficulty_longer_than_itself() {
    let hash = hash_string("hello");
    let len = hash.chars().count();
    assert!(!challenge_meets_difficulty("hello", len + 1));
}

#[test]
fn difficulty_zero_is_always_solved() {
    for seed in [0u64, 1, 2, u64::MAX] {
        assert!(solve_pow_challenge(0, seed).is_some());
        assert!(come_up_with_solution(0, seed).is_some());
        assert!(solution_wrapper(0, seed).is_some());
    }
}

#[test]
fn solver_draws_candidates_from_the_seeded_generator() {
    for seed in [0u64, 5, 77] {
        let mut rng = StdRand::seed(seed);
        let expected: String = (0..CHALLENGE_LEN)
            .map(|_| alphabet_at(rng.next_range(0..ALPHABET_LEN)))
            .collect();
        let (attempt, _) = solve_pow_challenge(0, seed).expect("a solution");
        assert_eq!(attempt, expected);
    }
}

#[test]
fn solver_returns_the_first_accepted_candidate() {
    let seed = 2024u64;
    let mut rng = StdRand::seed(seed);
    let first = loop {
        let c: String = (0..CHALLENGE_LEN)
            .map(|_| alphabet_at(rng.next_range(0..ALPHABET_LEN)))
            .collect();
        if challenge_meets_difficulty(&c, 1) {
            break c;
        }
    };
    let (attempt, hash) = solve_pow_challenge(1, seed).expect("a solution");
    assert_eq!(attempt, first);
    assert_eq!(hash, hash_string(&first));
}

#[test]
fn hash_text_zeros_are_digest_bytes_0x30() {
    for s in ["hello", "", "abc", "interlinked"] {
        let digest = hex_free_digest(s);
        let text = hash_string(s);
        assert!(text.chars().count() <= 32);
        for k in 0..=33usize {
            let by_text = text.starts_with(&"0".repeat(k));
            let by_bytes = k <= 32 && digest[..k].iter().all(|b| *b == 0x30);
            assert_eq!(by_text, by_bytes);
            assert_eq!(challenge_meets_difficulty(s, k), by_bytes);
        }
    }
}

fn hex_free_digest(s: &str) -> [u8; 32] {
    hmac_sha256::Hash::hash(s.as_bytes())
}

#[test]
fn nothing_meets_a_difficulty_above_32() {
    assert!(!challenge_meets_difficulty("anything", 33));
    assert!(try_candidate("anything".to_string(), 40).is_none());
}

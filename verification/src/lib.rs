//! Link and note shortener whose submissions are gated by a proof of work.

pub mod client;
pub mod config;
pub mod new_object_schemes;
pub mod proof_of_work;
pub mod routes;
pub mod server;
pub mod text;
pub mod urls;

use vstd::prelude::*;
use vstd::utf8::encode_utf8;

use crate::proof_of_work::{
    hash_string, is_candidate, pow_hash, seeded_candidate, seeded_solution, sha256_digest,
    solution_view, solve_pow_challenge, utf8_lossy,
};
use crate::text::has_zero_prefix;

verus! {

/// A request to store a link: the serialization of the URL, and the proof-of-work challenge.
pub struct NewRecordScheme {
    pub payload: String,
    pub challenge: String,
}

/// Hashes a string: the SHA-256 digest of its UTF-8 bytes, read back as lossy UTF-8.
pub fn get_hash(in_str: &str) -> (r: String)
    ensures
        r@ == utf8_lossy(sha256_digest(encode_utf8(in_str@))),
        r@ == pow_hash(in_str@),
{
    hash_string(in_str)
}

/// Searches for a challenge whose hash text begins with `diff` zeros, drawing candidates from a
/// generator seeded with `seed`, and returns the first such candidate with its hash text; `None`
/// only after `u64::MAX` candidates have been drawn and refused.
pub fn come_up_with_solution(diff: usize, seed: u64) -> (r: Option<(String, String)>)
    ensures
        solution_view(r) == seeded_solution(diff as nat, seed),
        r matches Some((attempt, hash)) ==> {
            &&& is_candidate(attempt@)
            &&& hash@ == pow_hash(attempt@)
            &&& hash@ == utf8_lossy(sha256_digest(encode_utf8(attempt@)))
            &&& has_zero_prefix(hash@, diff as nat)
        },
        (exists|k: nat|
            k < u64::MAX && #[trigger] has_zero_prefix(
                utf8_lossy(sha256_digest(encode_utf8(seeded_candidate(seed, k)))),
                diff as nat,
            )) ==> r is Some,
        diff == 0 ==> r is Some,
        diff > 32 ==> r is None,
{
    solve_pow_challenge(diff, seed)
}

/// The challenge part of a solution: what the web page asks the solver for.
pub fn solution_wrapper(diff: usize, seed: u64) -> (r: Option<String>)
    ensures
        match seeded_solution(diff as nat, seed) {
            Some((attempt, _hash)) => r matches Some(a) && a@ == attempt,
            None => r is None,
        },
        r matches Some(attempt) ==> is_candidate(attempt@) && has_zero_prefix(
            utf8_lossy(sha256_digest(encode_utf8(attempt@))),
            diff as nat,
        ),
        (exists|k: nat|
            k < u64::MAX && #[trigger] has_zero_prefix(
                utf8_lossy(sha256_digest(encode_utf8(seeded_candidate(seed, k)))),
                diff as nat,
            )) ==> r is Some,
        diff == 0 ==> r is Some,
        diff > 32 ==> r is None,
{
    match solve_pow_challenge(diff, seed) {
        Some((attempt, _hash)) => Some(attempt),
        None => None,
    }
}

} // verus!

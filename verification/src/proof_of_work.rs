use vstd::prelude::*;
use vstd::utf8::encode_utf8;

use tinyrand::{RandRange, Seeded, StdRand};

use crate::text::{has_zero_prefix, push_char, starts_with_zeros};

verus! {

// ---------------------------------------------------------------------------
// Outside functions
// ---------------------------------------------------------------------------

/// The SHA-256 digest of a byte sequence, as `hmac_sha256::Hash::hash` computes it.
pub uninterp spec fn sha256_digest(data: Seq<u8>) -> Seq<u8>;

/// The text that `String::from_utf8_lossy` makes of a byte sequence.
pub uninterp spec fn utf8_lossy(bytes: Seq<u8>) -> Seq<char>;

/// Calls `hmac_sha256::Hash::hash`. The contract claims only that the 32 bytes it returns are
/// the SHA-256 digest of `data`, a function of `data` alone; the digest itself is not modelled.
#[verifier::external_body]
fn sha256(data: &[u8]) -> (r: [u8; 32])
    ensures
        r@ == sha256_digest(data@),
{
    hmac_sha256::Hash::hash(data)
}

/// Whether `bytes` begins with `k` bytes `0x30`, the UTF-8 encoding of `'0'`.
pub open spec fn zero_byte_prefix(bytes: Seq<u8>, k: nat) -> bool {
    k <= bytes.len() && forall|i: int| 0 <= i < k ==> #[trigger] bytes[i] == 0x30
}

/// Calls `String::from_utf8_lossy` and takes the owned string. The contract claims that the
/// result is a function of the bytes alone; that it has no more characters than there are
/// bytes (each character is decoded from at least one byte, or replaces at least one); and that
/// it begins with `k` characters `'0'` exactly when the bytes begin with `k` bytes `0x30` (a byte
/// `0x30` is a whole character `'0'`, and any other byte starts a character other than `'0'` or
/// an invalid sequence that reads as U+FFFD). Which replacement characters stand for invalid
/// sequences is not modelled further.
#[verifier::external_body]
fn decode_utf8_lossy(bytes: &[u8]) -> (r: String)
    ensures
        r@ == utf8_lossy(bytes@),
        r@.len() <= bytes@.len(),
        forall|k: nat| #[trigger] has_zero_prefix(r@, k) <==> zero_byte_prefix(bytes@, k),
{
    String::from_utf8_lossy(bytes).into_owned()
}

#[verifier::external_type_specification]
#[verifier::external_body]
pub struct ExStdRand(tinyrand::Wyrand);

/// What `tinyrand::RandRange::next_range` with the `usize` range `0..n` gives on a `StdRand`
/// whose state is `state`, on a target whose `usize` has `usize_bits` bits: the number drawn,
/// and the state afterwards. (The draw goes through `next_lim_u64` on 64-bit targets and
/// through `next_lim_u32` on 32-bit ones, so the width is part of what it depends on.)
pub uninterp spec fn wyrand_below(usize_bits: u32, state: u64, n: usize) -> (usize, u64);

/// A seeded `StdRand` generator, with its state as a model: `StdRand::seed(s)` starts at state
/// `s`, and each draw is a function of the state that also gives the next state.
pub struct SeededRng {
    rng: StdRand,
    state: Ghost<u64>,
}

impl SeededRng {
    /// The state of the generator.
    pub closed spec fn model(&self) -> u64 {
        self.state@
    }
}

/// Calls `tinyrand::Seeded::seed` for `StdRand` (that is `Wyrand(seed)`). The contract claims
/// that the generator starts at state `seed`.
#[verifier::external_body]
fn seed_rng(seed: u64) -> (r: SeededRng)
    ensures
        r.model() == seed,
{
    SeededRng { rng: <StdRand as Seeded>::seed(seed), state: Ghost(seed) }
}

/// Calls `tinyrand::RandRange::next_range` with the `usize` range `0..n`, which panics on an
/// empty range. The contract claims that the draw and the state afterwards are a function of
/// the state before, `n` and the width of `usize` (the Wyrand step and the rejection loop of
/// `next_lim_usize` read nothing else), and that the draw lies in the range.
#[verifier::external_body]
fn next_below(rng: &mut SeededRng, n: usize) -> (r: usize)
    requires
        n > 0,
    ensures
        (r, final(rng).model()) == wyrand_below(usize::BITS, old(rng).model(), n),
        r < n,
{
    rng.rng.next_range(0..n)
}

// ---------------------------------------------------------------------------
// Hashing and the acceptance rule
// ---------------------------------------------------------------------------

/// The hash text of a challenge: its UTF-8 bytes, hashed with SHA-256, read back as lossy UTF-8.
pub open spec fn pow_hash(challenge: Seq<char>) -> Seq<char> {
    utf8_lossy(sha256_digest(encode_utf8(challenge)))
}

/// A challenge is accepted at a difficulty when its hash text begins with that many zeros.
pub open spec fn challenge_accepted(challenge: Seq<char>, difficulty: nat) -> bool {
    has_zero_prefix(pow_hash(challenge), difficulty)
}

/// The SHA-256 digest of the UTF-8 bytes of a challenge.
pub open spec fn challenge_digest(challenge: Seq<char>) -> Seq<u8> {
    sha256_digest(encode_utf8(challenge))
}

/// Hashes a string: the SHA-256 digest of its UTF-8 bytes, read back as lossy UTF-8. The text
/// has at most 32 characters, and begins with `k` zeros exactly when the digest begins with `k`
/// bytes `0x30`.
pub fn hash_string(in_str: &str) -> (r: String)
    ensures
        r@ == utf8_lossy(sha256_digest(encode_utf8(in_str@))),
        r@ == pow_hash(in_str@),
        r@.len() <= 32,
        challenge_digest(in_str@).len() == 32,
        forall|k: nat| #[trigger] has_zero_prefix(r@, k) <==> zero_byte_prefix(
            challenge_digest(in_str@),
            k,
        ),
{
    let bytes = in_str.as_bytes();
    let digest = sha256(bytes);
    decode_utf8_lossy(&digest)
}

/// Whether a challenge meets a difficulty: its hash text begins with `difficulty` zeros, that is,
/// its digest begins with `difficulty` bytes `0x30`; no challenge meets a difficulty above 32.
pub fn challenge_meets_difficulty(challenge: &str, difficulty: usize) -> (r: bool)
    ensures
        r == has_zero_prefix(
            utf8_lossy(sha256_digest(encode_utf8(challenge@))),
            difficulty as nat,
        ),
        r == challenge_accepted(challenge@, difficulty as nat),
        r == zero_byte_prefix(challenge_digest(challenge@), difficulty as nat),
        difficulty > 32 ==> !r,
{
    let hash = hash_string(challenge);
    starts_with_zeros(hash.as_str(), difficulty)
}

// ---------------------------------------------------------------------------
// Searching for a solution
// ---------------------------------------------------------------------------

/// Number of characters of a candidate challenge.
pub const CHALLENGE_LEN: usize = 70;

/// Number of characters that candidate challenges are drawn from.
pub const ALPHABET_LEN: usize = 62;

/// The `i`-th character of the alphabet `a..z A..Z 0..9` that challenges are drawn from.
pub open spec fn alphabet_char(i: nat) -> char
    recommends
        i < 62,
{
    if i < 26 {
        (97 + i) as char
    } else if i < 52 {
        (65 + (i - 26)) as char
    } else {
        (48 + (i - 52)) as char
    }
}

/// Whether a character belongs to the alphabet `a..z A..Z 0..9`.
pub open spec fn in_alphabet(c: char) -> bool {
    exists|i: nat| i < 62 && #[trigger] alphabet_char(i) == c
}

/// Whether a text can be a candidate challenge: `CHALLENGE_LEN` characters of the alphabet.
pub open spec fn is_candidate(s: Seq<char>) -> bool {
    s.len() == CHALLENGE_LEN && forall|i: int| 0 <= i < s.len() ==> in_alphabet(#[trigger] s[i])
}

/// The `i`-th character of the alphabet `a..z A..Z 0..9`.
pub fn alphabet_at(i: usize) -> (c: char)
    requires
        i < ALPHABET_LEN,
    ensures
        c == alphabet_char(i as nat),
{
    let b: u8 = i as u8;
    if b < 26 {
        (97u8 + b) as char
    } else if b < 52 {
        (65u8 + (b - 26)) as char
    } else {
        (48u8 + (b - 52)) as char
    }
}

/// The first `k` characters drawn from a generator at `state`, and the state afterwards: each
/// character is the alphabet character at a draw below `ALPHABET_LEN`.
pub open spec fn draw_chars(state: u64, k: nat) -> (Seq<char>, u64)
    decreases k,
{
    if k == 0 {
        (Seq::empty(), state)
    } else {
        let prev = draw_chars(state, (k - 1) as nat);
        let d = wyrand_below(usize::BITS, prev.1, 62);
        (prev.0.push(alphabet_char(d.0 as nat)), d.1)
    }
}

/// The candidate challenge drawn from a generator at `state`, and the state afterwards.
pub open spec fn draw_candidate(state: u64) -> (Seq<char>, u64) {
    draw_chars(state, 70)
}

/// The state of a generator seeded with `seed` after `j` candidates have been drawn.
pub open spec fn stream_state(seed: u64, j: nat) -> u64
    decreases j,
{
    if j == 0 {
        seed
    } else {
        draw_candidate(stream_state(seed, (j - 1) as nat)).1
    }
}

/// The `j`-th candidate (from zero) drawn from a generator seeded with `seed`.
pub open spec fn seeded_candidate(seed: u64, j: nat) -> Seq<char> {
    draw_candidate(stream_state(seed, j)).0
}

/// Whether the `k`-th candidate of the stream seeded with `seed` is the first one accepted at
/// `diff`.
pub open spec fn is_first_accepted(seed: u64, diff: nat, k: nat) -> bool {
    &&& challenge_accepted(seeded_candidate(seed, k), diff)
    &&& forall|j: nat| j < k ==> !challenge_accepted(#[trigger] seeded_candidate(seed, j), diff)
}

/// What the search returns: the first candidate of the stream seeded with `seed` that is
/// accepted at `diff`, with its hash text, provided it is among the first `u64::MAX` candidates.
pub open spec fn seeded_solution(diff: nat, seed: u64) -> Option<(Seq<char>, Seq<char>)> {
    if exists|k: nat| k < u64::MAX && #[trigger] is_first_accepted(seed, diff, k) {
        let k = choose|k: nat| k < u64::MAX && #[trigger] is_first_accepted(seed, diff, k);
        Some((seeded_candidate(seed, k), pow_hash(seeded_candidate(seed, k))))
    } else {
        None
    }
}

/// The texts of a search result.
pub open spec fn solution_view(r: Option<(String, String)>) -> Option<(Seq<char>, Seq<char>)> {
    match r {
        Some((a, h)) => Some((a@, h@)),
        None => None,
    }
}

/// The first accepted candidate of a stream is unique.
pub proof fn lemma_first_accepted_unique(seed: u64, diff: nat, k1: nat, k2: nat)
    requires
        is_first_accepted(seed, diff, k1),
        is_first_accepted(seed, diff, k2),
    ensures
        k1 == k2,
{
    if k1 < k2 {
        assert(!challenge_accepted(seeded_candidate(seed, k1), diff));
    } else if k2 < k1 {
        assert(!challenge_accepted(seeded_candidate(seed, k2), diff));
    }
}

/// Draws a candidate challenge: `CHALLENGE_LEN` characters of the alphabet, each picked by the
/// generator.
fn make_random_string(rand: &mut SeededRng) -> (r: String)
    ensures
        is_candidate(r@),
        (r@, final(rand).model()) == draw_candidate(old(rand).model()),
{
    let ghost start = rand.model();
    let mut s = String::new();
    let mut k: usize = 0;
    while k < CHALLENGE_LEN
        invariant
            k <= CHALLENGE_LEN,
            s@.len() == k,
            forall|i: int| 0 <= i < k ==> in_alphabet(#[trigger] s@[i]),
            (s@, rand.model()) == draw_chars(start, k as nat),
        decreases CHALLENGE_LEN - k,
    {
        let ghost before = rand.model();
        let idx = next_below(rand, ALPHABET_LEN);
        let c = alphabet_at(idx);
        assert(in_alphabet(c)) by {
            assert(alphabet_char(idx as nat) == c);
        }
        push_char(&mut s, c);
        k = k + 1;
        assert(draw_chars(start, k as nat) == (s@, rand.model()));
    }
    s
}

/// Tries one candidate: gives back the candidate with its hash text when the hash text begins
/// with `diff` zeros, and `None` otherwise.
pub fn try_candidate(attempt: String, diff: usize) -> (r: Option<(String, String)>)
    ensures
        r is Some <==> challenge_accepted(attempt@, diff as nat),
        r matches Some((a, h)) ==> a@ == attempt@ && h@ == pow_hash(attempt@),
        diff > 32 ==> r is None,
{
    let hash = hash_string(attempt.as_str());
    if starts_with_zeros(hash.as_str(), diff) {
        Some((attempt, hash))
    } else {
        None
    }
}

/// Searches for a challenge whose hash text begins with `diff` zeros, drawing candidates from a
/// generator seeded with `seed`, and returns the first such candidate with its hash text.
///
/// The result is a function of `diff` and `seed`: the first accepted candidate of the stream
/// seeded with `seed`. The search gives up, with `None`, only after `u64::MAX` candidates have
/// been drawn and refused. At difficulty zero the first candidate is accepted; above 32 no
/// candidate is.
pub fn solve_pow_challenge(diff: usize, seed: u64) -> (r: Option<(String, String)>)
    ensures
        solution_view(r) == seeded_solution(diff as nat, seed),
        r matches Some((attempt, hash)) ==> {
            &&& is_candidate(attempt@)
            &&& hash@ == pow_hash(attempt@)
            &&& hash@ == utf8_lossy(sha256_digest(encode_utf8(attempt@)))
            &&& has_zero_prefix(hash@, diff as nat)
        },
        (exists|k: nat|
            k < u64::MAX && #[trigger] has_zero_prefix(
                utf8_lossy(sha256_digest(encode_utf8(seeded_candidate(seed, k)))),
                diff as nat,
            )) ==> r is Some,
        diff == 0 ==> r is Some,
        diff > 32 ==> r is None,
{
    let mut rand = seed_rng(seed);
    let mut left: u64 = u64::MAX;
    let ghost mut tried: nat = 0;
    while left > 0
        invariant
            tried == u64::MAX - left,
            rand.model() == stream_state(seed, tried),
            forall|j: nat|
                j < tried ==> !challenge_accepted(#[trigger] seeded_candidate(seed, j), diff as nat),
        decreases left,
    {
        let attempt = make_random_string(&mut rand);
        let ghost drawn = attempt@;
        assert(drawn == seeded_candidate(seed, tried));
        assert(rand.model() == stream_state(seed, tried + 1));
        match try_candidate(attempt, diff) {
            Some(found) => {
                proof {
                    assert(is_first_accepted(seed, diff as nat, tried));
                    let k = choose|k: nat|
                        k < u64::MAX && #[trigger] is_first_accepted(seed, diff as nat, k);
                    lemma_first_accepted_unique(seed, diff as nat, k, tried);
                }
                return Some(found);
            },
            None => {},
        }
        proof {
            tried = tried + 1;
        }
        left = left - 1;
    }
    proof {
        assert forall|k: nat| k < u64::MAX implies !#[trigger] is_first_accepted(
            seed,
            diff as nat,
            k,
        ) by {
            assert(!challenge_accepted(seeded_candidate(seed, k), diff as nat));
        }
        if diff == 0 {
            assert(!challenge_accepted(seeded_candidate(seed, 0), 0));
        }
        assert forall|k: nat| k < u64::MAX implies !#[trigger] has_zero_prefix(
            utf8_lossy(sha256_digest(encode_utf8(seeded_candidate(seed, k)))),
            diff as nat,
        ) by {
            assert(!challenge_accepted(seeded_candidate(seed, k), diff as nat));
        }
    }
    None
}

// ---------------------------------------------------------------------------
// Laws of the acceptance rule
// ---------------------------------------------------------------------------

/// The hash text of a challenge is SHA-256 of all of its UTF-8 bytes, read back as lossy UTF-8,
/// and the digest that the byte rule looks at is SHA-256 of those same bytes: nothing of the
/// challenge is left out or changed before hashing.
pub proof fn lemma_hash_is_sha256_of_all_bytes(challenge: Seq<char>)
    ensures
        pow_hash(challenge) == utf8_lossy(sha256_digest(encode_utf8(challenge))),
        challenge_digest(challenge) == sha256_digest(encode_utf8(challenge)),
        challenge_accepted(challenge, 0),
        forall|d: nat|
            #[trigger] challenge_accepted(challenge, d) <==> has_zero_prefix(
                utf8_lossy(sha256_digest(encode_utf8(challenge))),
                d,
            ),
{
}

/// A text begins with `d` zeros exactly when it has at least `d` characters and its first `d`
/// characters are the text of `d` zeros.
pub proof fn lemma_zero_prefix_is_leading_zeros(h: Seq<char>, d: nat)
    ensures
        has_zero_prefix(h, d) <==> (d <= h.len() && h.subrange(0, d as int) =~= Seq::new(
            d,
            |_i: int| '0',
        )),
{
    if d <= h.len() && h.subrange(0, d as int) =~= Seq::new(d, |_i: int| '0') {
        assert forall|i: int| 0 <= i < d implies #[trigger] h[i] == '0' by {
            assert(h.subrange(0, d as int)[i] == '0');
        }
    }
}

proof fn lemma_some_first_accepted(seed: u64, diff: nat, k: nat)
    requires
        challenge_accepted(seeded_candidate(seed, k), diff),
    ensures
        exists|j: nat| j <= k && #[trigger] is_first_accepted(seed, diff, j),
    decreases k,
{
    if exists|j: nat| j < k && challenge_accepted(#[trigger] seeded_candidate(seed, j), diff) {
        let j = choose|j: nat| j < k && challenge_accepted(#[trigger] seeded_candidate(seed, j), diff);
        lemma_some_first_accepted(seed, diff, j);
    } else {
        assert(is_first_accepted(seed, diff, k));
    }
}

/// The search finds a solution whenever one exists among the first `u64::MAX` candidates of the
/// seeded stream: if the `k`-th candidate (`k < u64::MAX`) has a hash text that begins with
/// `diff` zeros, the search result is a candidate, not `None`, and it comes no later than the
/// `k`-th.
pub proof fn lemma_solution_found_when_one_exists(diff: nat, seed: u64, k: nat)
    requires
        k < u64::MAX,
        has_zero_prefix(
            utf8_lossy(sha256_digest(encode_utf8(seeded_candidate(seed, k)))),
            diff,
        ),
    ensures
        seeded_solution(diff, seed) is Some,
        exists|j: nat|
            j <= k && #[trigger] seeded_candidate(seed, j) == (seeded_solution(diff, seed)->0).0,
{
    lemma_some_first_accepted(seed, diff, k);
    let j = choose|j: nat| j <= k && #[trigger] is_first_accepted(seed, diff, j);
    assert(j < u64::MAX && is_first_accepted(seed, diff, j));
    let m = choose|m: nat| m < u64::MAX && #[trigger] is_first_accepted(seed, diff, m);
    lemma_first_accepted_unique(seed, diff, m, j);
    assert(seeded_candidate(seed, j) == (seeded_solution(diff, seed)->0).0);
}

/// What the solver returns is accepted: a challenge and hash text returned by
/// `solve_pow_challenge` at a difficulty pass `challenge_meets_difficulty` at that difficulty.
pub proof fn lemma_solution_is_accepted(attempt: Seq<char>, hash: Seq<char>, diff: nat)
    requires
        hash == pow_hash(attempt),
        has_zero_prefix(hash, diff),
    ensures
        challenge_accepted(attempt, diff),
{
}

/// A challenge accepted at a difficulty is accepted at every lower difficulty.
pub proof fn lemma_accepted_at_lower_difficulty(challenge: Seq<char>, high: nat, low: nat)
    requires
        challenge_accepted(challenge, high),
        low <= high,
    ensures
        challenge_accepted(challenge, low),
{
}

/// Every challenge is accepted at difficulty zero.
pub proof fn lemma_difficulty_zero_accepts_all(challenge: Seq<char>)
    ensures
        challenge_accepted(challenge, 0),
{
}

/// What the search gives is the earliest accepted candidate: when it gives a candidate, that
/// candidate is the `k`-th of the stream seeded with `seed` for some `k < u64::MAX`, the hash text
/// it comes with is SHA-256 of the candidate's UTF-8 bytes read as lossy UTF-8 and begins with
/// `diff` zeros, and no earlier candidate's hash text begins with `diff` zeros.
pub proof fn lemma_solution_is_earliest(diff: nat, seed: u64)
    ensures
        seeded_solution(diff, seed) matches Some((attempt, hash)) ==> exists|k: nat|
            #![trigger seeded_candidate(seed, k)]
            {
                &&& k < u64::MAX
                &&& attempt == seeded_candidate(seed, k)
                &&& hash == utf8_lossy(sha256_digest(encode_utf8(attempt)))
                &&& has_zero_prefix(hash, diff)
                &&& forall|j: nat|
                    j < k ==> !has_zero_prefix(
                        utf8_lossy(sha256_digest(encode_utf8(#[trigger] seeded_candidate(seed, j)))),
                        diff,
                    )
            },
{
    if seeded_solution(diff, seed) is Some {
        let k = choose|k: nat| k < u64::MAX && #[trigger] is_first_accepted(seed, diff, k);
        assert forall|j: nat| j < k implies !has_zero_prefix(
            utf8_lossy(sha256_digest(encode_utf8(#[trigger] seeded_candidate(seed, j)))),
            diff,
        ) by {
            assert(!challenge_accepted(seeded_candidate(seed, j), diff));
        }
    }
}

/// The characters of candidates are ASCII letters and digits, and distinct positions of the
/// alphabet hold distinct characters.
pub proof fn lemma_alphabet_is_ascii_alphanumeric(i: nat, j: nat)
    requires
        i < 62,
        j < 62,
    ensures
        ('a' <= alphabet_char(i) <= 'z') || ('A' <= alphabet_char(i) <= 'Z') || ('0'
            <= alphabet_char(i) <= '9'),
        i != j ==> alphabet_char(i) != alphabet_char(j),
        i < 26 ==> alphabet_char(i) as nat == 'a' as nat + i,
        26 <= i < 52 ==> alphabet_char(i) as nat == 'A' as nat + (i - 26),
        52 <= i ==> alphabet_char(i) as nat == '0' as nat + (i - 52),
{
}

} // verus!

//! The publisher clock, and what is derived from it: identifiers and seeds.

use std::hash::BuildHasher;
use vstd::prelude::*;

use crate::text::{cat, dec, dec_text};

verus! {

/// Time since the Unix epoch in nanoseconds, as `std::time::SystemTime::elapsed`
/// reads it off the machine's clock; `None` when the clock stands before the
/// epoch. Nothing is claimed of the reading.
#[verifier::external_body]
fn since_epoch() -> (r: Option<u128>) {
    std::time::UNIX_EPOCH.elapsed().ok().map(|d| d.as_nanos())
}

/// Two to the 64.
pub const WRAP: u128 = 0x1_0000_0000_0000_0000;

/// A clock reading as a 64-bit count: a clock before the epoch reads zero, and
/// the count wraps.
pub fn clock_ns(reading: Option<u128>) -> (r: u64)
    ensures
        r == (match reading {
            None => 0,
            Some(ns) => ns % WRAP,
        }),
{
    match reading {
        None => 0,
        Some(ns) => (ns % WRAP) as u64,
    }
}

/// Publisher clock, nanoseconds since the Unix epoch.
pub fn gps_time_ns() -> u64 {
    clock_ns(since_epoch())
}

/// The id of a capture request made at `ts` nanoseconds.
pub open spec fn request_id_text(ts: u64) -> Seq<char> {
    "cap-"@ + dec_text(((ts / 1_000_000) % 100_000_000) as nat)
}

/// The id of a capture request made at `ts` nanoseconds.
pub fn request_id(ts: u64) -> (r: String)
    ensures
        r@ == request_id_text(ts),
{
    cat("cap-", dec((ts / 1_000_000) % 100_000_000).as_str())
}

/// Whether a hash is one that std's default hasher gives for an id, a boot
/// time and a counter. Machines of different byte order give different ones.
pub uninterp spec fn seed_hash(vehicle_id: Seq<char>, boot_ns: u64, i: u64, hash: u64) -> bool;

/// `std::hash::BuildHasher::hash_one` of std's default hasher on the id, the
/// boot time and a counter: the result is a hash of these three. Integers are
/// hashed by their bytes in the machine's order, so it is not claimed that they
/// have one hash, nor which.
#[verifier::external_body]
fn hash_seed_part(vehicle_id: &str, boot_ns: u64, i: u64) -> (r: u64)
    ensures
        seed_hash(vehicle_id@, boot_ns, i, r),
{
    std::hash::BuildHasherDefault::<std::collections::hash_map::DefaultHasher>::default().hash_one(
        (vehicle_id, boot_ns, i),
    )
}

/// The hash of a text by std's default hasher.
pub uninterp spec fn text_hash(s: Seq<char>) -> u64;

/// `std::hash::BuildHasher::hash_one` of std's default hasher on a text. All
/// default hashers made this way are the same, so a text has one hash. The
/// algorithm is std's own, and nothing more is claimed of it.
#[verifier::external_body]
pub(crate) fn hash_text(s: &str) -> (r: u64)
    ensures
        r == text_hash(s@),
{
    std::hash::BuildHasherDefault::<std::collections::hash_map::DefaultHasher>::default().hash_one(
        s,
    )
}

/// Byte `k` of `n`, least significant first.
pub open spec fn byte_of(n: u64, k: int) -> u8
    decreases k,
{
    if k <= 0 {
        (n % 256) as u8
    } else {
        byte_of(n / 256, k - 1)
    }
}

/// Byte `k` of `n`, least significant first.
pub fn byte_at(n: u64, k: usize) -> (r: u8)
    ensures
        r == byte_of(n, k as int),
    decreases k,
{
    if k == 0 {
        (n % 256) as u8
    } else {
        byte_at(n / 256, k - 1)
    }
}

/// The seed made of four words, each least significant byte first.
pub fn seed_of(words: &[u64; 4]) -> (r: [u8; 32])
    ensures
        forall|i: int| 0 <= i < 32 ==> #[trigger] r@[i] == byte_of(words@[i / 8], i % 8),
{
    let mut seed: [u8; 32] = [0u8; 32];
    let mut i: usize = 0;
    while i < 32
        invariant
            i <= 32,
            forall|j: int| 0 <= j < i ==> #[trigger] seed@[j] == byte_of(words@[j / 8], j % 8),
        decreases 32 - i,
    {
        seed[i] = byte_at(words[i / 8], i % 8);
        i = i + 1;
    }
    seed
}

/// Whether four words are hashes of an id and a boot time, under the counters
/// from zero on.
pub open spec fn seed_words(vehicle_id: Seq<char>, boot_ns: u64, words: Seq<u64>) -> bool {
    &&& words.len() == 4
    &&& forall|k: int| 0 <= k < 4 ==> seed_hash(vehicle_id, boot_ns, k as u64, #[trigger] words[k])
}

/// Development signing seed of a journal chain: four hashes of the vehicle id
/// and the boot clock, each least significant byte first. Followers pin the
/// writer's key; the seed is no source of trust.
pub fn journal_key_seed(vehicle_id: &str, boot_ns: u64) -> (r: [u8; 32])
    ensures
        exists|words: Seq<u64>| #[trigger]
            seed_words(vehicle_id@, boot_ns, words) && forall|i: int|
                0 <= i < 32 ==> #[trigger] r@[i] == byte_of(words[i / 8], i % 8),
{
    let words: [u64; 4] = [
        hash_seed_part(vehicle_id, boot_ns, 0),
        hash_seed_part(vehicle_id, boot_ns, 1),
        hash_seed_part(vehicle_id, boot_ns, 2),
        hash_seed_part(vehicle_id, boot_ns, 3),
    ];
    assert(seed_words(vehicle_id@, boot_ns, words@));
    seed_of(&words)
}

/// The tone of a hash, Hz.
pub fn tone_of(hash: u64) -> (r: u64)
    ensures
        r == 300 + hash % 900,
{
    300 + hash % 900
}

/// Tone frequency of an audio signature, Hz: the same for the same signature.
pub fn signature_freq_hz(signature: &str) -> (r: u64)
    ensures
        r == 300 + text_hash(signature@) % 900,
{
    tone_of(hash_text(signature))
}

} // verus!

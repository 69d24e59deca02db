//! The queue of deferred index updates: which worker a row goes to and when it
//! becomes ready.
use rand::Rng;
use vstd::prelude::*;

verus! {

/// The number of queue workers.
pub const NUM_WORKERS: u64 = 4;

/// The 64-bit FNV-1a hash of a byte string.
pub open spec fn fnv1a(bytes: Seq<u8>) -> u64
    decreases bytes.len(),
{
    if bytes.len() == 0 {
        0xcbf2_9ce4_8422_2325u64
    } else {
        (fnv1a(bytes.drop_last()) ^ (bytes.last() as u64)).wrapping_mul(0x0000_0100_0000_01b3u64)
    }
}

/// The worker of a partition key: the hash of its UTF-8 bytes modulo the number
/// of workers.
pub open spec fn worker_of(base_pk: Seq<char>) -> int {
    (fnv1a(vstd::utf8::encode_utf8(base_pk)) % NUM_WORKERS) as int
}

/// The worker partition that a base partition key belongs to.
pub fn partition_for(base_pk_text: &str) -> (r: i32)
    ensures
        r == worker_of(base_pk_text@),
        0 <= r < NUM_WORKERS,
{
    let bytes = base_pk_text.as_bytes();
    let mut hash: u64 = 0xcbf2_9ce4_8422_2325;
    let mut i: usize = 0;
    proof {
        assert(bytes@.take(0) =~= Seq::empty());
    }
    while i < bytes.len()
        invariant
            i <= bytes@.len(),
            hash == fnv1a(bytes@.take(i as int)),
        decreases bytes@.len() - i,
    {
        hash = hash ^ (bytes[i] as u64);
        hash = hash.wrapping_mul(0x0000_0100_0000_01b3);
        i = i + 1;
        proof {
            assert(bytes@.take(i as int).drop_last() =~= bytes@.take(i - 1));
        }
    }
    proof {
        assert(bytes@.take(i as int) =~= bytes@);
    }
    (hash % NUM_WORKERS) as i32
}

/// `rand::Rng::random_range` on an inclusive range: some number within it. Which
/// one is left to chance. The range must not be empty.
#[verifier::external_body]
fn random_within(low: u64, high: u64) -> (r: u64)
    requires
        low <= high,
    ensures
        low <= r <= high,
{
    rand::rng().random_range(low..=high)
}

/// A delay is jittered into the upper half of its range: it stays where it is at
/// most one millisecond, and otherwise lies above its half and not above itself.
pub open spec fn jittered(delay_ms: u64, r: u64) -> bool {
    if delay_ms <= 1 {
        r == delay_ms
    } else {
        delay_ms / 2 + 1 <= r <= delay_ms
    }
}

/// A random delay, more than half of the given one and not more than it.
pub fn jitter_delay_ms(delay_ms: u64) -> (r: u64)
    ensures
        jittered(delay_ms, r),
{
    if delay_ms <= 1 {
        delay_ms
    } else {
        random_within(delay_ms / 2 + 1, delay_ms)
    }
}

} // verus!

//! A small deterministic pseudo-random generator with 64 bits of state.

use std::time::{Duration, SystemTime, SystemTimeError, UNIX_EPOCH};
use vstd::prelude::*;

verus! {

/// `std::time::SystemTime`, a point in time as the system clock tells it.
/// Nothing is known of a value of it.
#[verifier::external_type_specification]
#[verifier::external_body]
pub struct ExSystemTime(SystemTime);

/// `std::time::SystemTimeError`, the error of `SystemTime::duration_since`.
/// Nothing is known of a value of it.
#[verifier::external_type_specification]
#[verifier::external_body]
pub struct ExSystemTimeError(SystemTimeError);

/// `SystemTime::now` reads the system clock. Nothing is claimed of what it
/// returns.
pub assume_specification[ SystemTime::now ]() -> (now: SystemTime);

/// `Duration::as_secs` gives the whole seconds of a duration. Nothing is
/// claimed of the number.
pub assume_specification[ Duration::as_secs ](duration: &Duration) -> (seconds: u64);

/// Calls `SystemTime::duration_since` with `UNIX_EPOCH`: the time from the
/// epoch to `time`, or an error where `time` lies before the epoch. Nothing
/// is claimed of either.
#[verifier::external_body]
fn since_unix_epoch(time: &SystemTime) -> (elapsed: Result<Duration, SystemTimeError>) {
    time.duration_since(UNIX_EPOCH)
}

/// The state that follows `seed`: a multiply-add, an xor-shift by an amount
/// taken from the state itself, a second multiply and a final xor-fold.
pub open spec fn next_state(seed: u64) -> u64 {
    let state = seed.wrapping_mul(747796405).wrapping_add(2891336453);
    let amount = (((state >> 28) + 4) % 64) as u64;
    let word = ((state >> amount) ^ state).wrapping_mul(277803737);
    (word >> 22) ^ word
}

/// A pseudo-random generator. It is deterministic: what it returns depends
/// on its seed alone.
#[derive(Debug, Clone, Copy)]
pub struct Rand {
    seed: u64,
}

impl View for Rand {
    type V = u64;

    closed spec fn view(&self) -> u64 {
        self.seed
    }
}

impl Default for Rand {
    /// A generator seeded with the seconds that the system clock counts
    /// since the Unix epoch, or with 0 where the clock is set before it.
    fn default() -> Rand {
        let now = SystemTime::now();
        match since_unix_epoch(&now) {
            Ok(elapsed) => Rand { seed: elapsed.as_secs() },
            Err(_) => Rand { seed: 0 },
        }
    }
}

impl Rand {
    /// A generator whose state is `seed`.
    pub fn new(seed: u64) -> (r: Rand)
        ensures
            r@ == seed,
    {
        Rand { seed }
    }

    /// Advances the generator and returns its new state.
    pub fn rand(&mut self) -> (result: u64)
        ensures
            result == next_state(old(self)@),
            final(self)@ == result,
    {
        let state: u64 = self.seed.wrapping_mul(747796405).wrapping_add(2891336453);
        let high: u64 = state >> 28;
        assert(high <= 0xf_ffff_ffff) by (bit_vector)
            requires
                high == state >> 28,
        ;
        let amount: u64 = (high + 4) % 64;
        let word: u64 = ((state >> amount) ^ state).wrapping_mul(277803737);
        let result: u64 = (word >> 22) ^ word;
        self.seed = result;
        result
    }
}

/// The first `n` numbers that a generator in state `seed` returns.
pub open spec fn draws(seed: u64, n: nat) -> Seq<u64>
    decreases n,
{
    if n == 0 {
        Seq::empty()
    } else {
        seq![next_state(seed)] + draws(next_state(seed), (n - 1) as nat)
    }
}

/// Two generators in the same state return the same numbers, however many
/// are drawn.
pub proof fn lemma_same_seed_same_draws(first: Rand, second: Rand, n: nat)
    requires
        first@ == second@,
    ensures
        draws(first@, n) == draws(second@, n),
{
}

/// Each number drawn is the state that the next one is drawn from: the
/// draws from `seed` are `n` numbers, each the successor of the one before.
pub proof fn lemma_draws_chain(seed: u64, n: nat, i: int)
    requires
        0 <= i < n,
    ensures
        draws(seed, n).len() == n,
        draws(seed, n)[0] == next_state(seed),
        i > 0 ==> draws(seed, n)[i] == next_state(draws(seed, n)[i - 1]),
    decreases n,
{
    lemma_draws_len(seed, n);
    if i > 0 {
        lemma_draws_len(next_state(seed), (n - 1) as nat);
        lemma_draws_chain(next_state(seed), (n - 1) as nat, i - 1);
    }
}

/// `n` draws are `n` numbers.
proof fn lemma_draws_len(seed: u64, n: nat)
    ensures
        draws(seed, n).len() == n,
    decreases n,
{
    if n > 0 {
        lemma_draws_len(next_state(seed), (n - 1) as nat);
    }
}

} // verus!

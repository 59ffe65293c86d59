use vstd::prelude::*;

verus! {

/// the increment `oorandom::Rand32::new` gives every generator: its default increment
/// `1442695040888963407` shifted left by one, with the lowest bit set
pub const PCG_INCREMENT: u64 = 2885390081777926815;

/// the multiplier of `oorandom::Rand32`'s linear congruential step
pub const PCG_MULTIPLIER: u64 = 6364136223846793005;

/// the state `oorandom::Rand32::new(seed)` starts from, as `(state, increment)`: from state 0 it
/// takes a step, adds the seed and takes another step, all wrapping around at 2^64
pub open spec fn pcg_seeded(seed: u64) -> (u64, u64) {
    let m: int = 0x1_0000_0000_0000_0000;
    let first: int = PCG_INCREMENT as int;
    let seeded: int = (first + seed) % m;
    let next: int = ((seeded * PCG_MULTIPLIER) % m + PCG_INCREMENT) % m;
    (next as u64, PCG_INCREMENT)
}

/// what `oorandom::Rand32::rand_range(low..high)` returns on a generator in the given
/// `(state, increment)`, together with the state the generator is left in
pub uninterp spec fn pcg_range(state: u64, inc: u64, low: u32, high: u32) -> (u32, u64);

/// Calls `oorandom::Rand32::new` and reads the generator back with `Rand32::state`.
/// Claimed: the result is `pcg_seeded(seed)`, as `Rand32::new_inc` computes it with the
/// default increment (`rand_u32` steps the state to `state * MULTIPLIER + inc`, wrapping).
#[verifier::external_body]
fn rand32_seeded(seed: u64) -> (r: (u64, u64))
    ensures
        r == pcg_seeded(seed),
{
    oorandom::Rand32::new(seed).state()
}

/// Rebuilds an `oorandom::Rand32` with `Rand32::from_state`, calls `Rand32::rand_range`
/// on `low..high` and reads the new state back with `Rand32::state`.
/// Claimed: the drawn number lies in `low..high` (the crate documents the range as
/// including the lower bound and excluding the upper one; it computes
/// `(m >> 32) + low` with `m = x * (high - low)` for a 32 bit `x`), the number and the
/// new state are a function of the old state, the increment and the bounds, and the
/// increment is never changed by a draw. `low < high` is asked because the crate
/// subtracts `high - low` (an underflow for `low > high`) and asserts `low < high`. An odd
/// increment is asked because the crate redraws until a draw is accepted: with an odd
/// increment the generator runs through all 2^64 states and the redraws end, while with an
/// even one (such as 0 from state 0) the same number may come back forever.
#[verifier::external_body]
fn rand32_range(state: u64, inc: u64, low: u32, high: u32) -> (r: (u32, u64))
    requires
        low < high,
        inc % 2 == 1,
    ensures
        r == pcg_range(state, inc, low, high),
        low <= r.0 < high,
{
    let mut rng = oorandom::Rand32::from_state((state, inc));
    let value = rng.rand_range(low..high);
    (value, rng.state().0)
}

/// seeded random number generator state (PCG-XSH-RR), held as plain values
#[derive(Clone, Copy, PartialEq, Eq, Structural, Debug)]
pub struct Rng {
    pub state: u64,
    pub inc: u64,
}

impl Rng {
    /// the generator can draw: its increment is odd, as every generator that
    /// `oorandom::Rand32::new` makes has it
    pub open spec fn valid(&self) -> bool {
        self.inc % 2 == 1
    }

    /// creates a generator from a seed, as `oorandom::Rand32::new` does
    pub fn new(seed: u64) -> (r: Rng)
        ensures
            (r.state, r.inc) == pcg_seeded(seed),
            r.valid(),
    {
        let (state, inc) = rand32_seeded(seed);
        Rng { state, inc }
    }

    /// draws a number in `low..high`
    pub fn rand_range(&mut self, low: u32, high: u32) -> (r: u32)
        requires
            low < high,
            old(self).valid(),
        ensures
            low <= r < high,
            (r, final(self).state) == pcg_range(old(self).state, old(self).inc, low, high),
            final(self).inc == old(self).inc,
    {
        let (value, state) = rand32_range(self.state, self.inc, low, high);
        self.state = state;
        value
    }
}

} // verus!

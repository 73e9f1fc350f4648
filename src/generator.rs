use vstd::prelude::*;

verus! {

/// Amount added to the seed, modulo 2^64, before each draw.
pub const SEED_STEP: u64 = 0xe120fc15;

/// Multiplier of the first mixing round.
pub const FIRST_MULTIPLIER: u64 = 0x4a39b70d8;

/// Multiplier of the second mixing round.
pub const SECOND_MULTIPLIER: u64 = 0x12fad5c9;

/// The seed that follows `s`: `s + SEED_STEP`, wrapped modulo 2^64.
pub open spec fn next_seed(s: u64) -> u64 {
    ((s as nat + SEED_STEP as nat) % 0x1_0000_0000_0000_0000nat) as u64
}

/// The low 32 bits of `t`, exclusive-or its high 32 bits.
pub open spec fn fold_halves(t: u64) -> u32 {
    ((t >> 32u64) ^ t) as u32
}

/// The product `t * k`, wrapped modulo 2^64.
pub open spec fn wrapped_product(t: u64, k: u64) -> u64 {
    ((t as nat * k as nat) % 0x1_0000_0000_0000_0000nat) as u64
}

/// The value drawn from a generator whose seed has just become `s`.
pub open spec fn mix(s: u64) -> u32 {
    let m1 = fold_halves(wrapped_product(s, FIRST_MULTIPLIER));
    fold_halves(wrapped_product(m1 as u64, SECOND_MULTIPLIER))
}

/// `s + k * SEED_STEP`, wrapped modulo 2^64.
pub open spec fn seed_plus_steps(s: u64, k: int) -> u64 {
    ((s as int + k * SEED_STEP as int) % 0x1_0000_0000_0000_0000int) as u64
}

/// The seed after `k` draws from a generator whose seed was `s`.
pub open spec fn seed_after(s: u64, k: nat) -> u64
    decreases k,
{
    if k == 0 {
        s
    } else {
        next_seed(seed_after(s, (k - 1) as nat))
    }
}

/// The first `n` values drawn from a generator whose seed was `s`, in order.
pub open spec fn draws(s: u64, n: nat) -> Seq<u32>
    decreases n,
{
    if n == 0 {
        Seq::empty()
    } else {
        draws(s, (n - 1) as nat).push(mix(seed_after(s, n)))
    }
}

/// After `k` draws the seed is `s + k * SEED_STEP`, wrapped modulo 2^64.
pub proof fn lemma_seed_after(s: u64, k: nat)
    ensures
        seed_after(s, k) == seed_plus_steps(s, k as int),
    decreases k,
{
    let m = 0x1_0000_0000_0000_0000int;
    if k == 0 {
        vstd::arithmetic::div_mod::lemma_small_mod(s as nat, m as nat);
    } else {
        lemma_seed_after(s, (k - 1) as nat);
        let a = s as int + (k - 1) * SEED_STEP as int;
        assert(a + SEED_STEP as int == s as int + k * SEED_STEP as int) by (nonlinear_arith)
            requires
                a == s as int + (k - 1) * SEED_STEP as int,
        ;
        vstd::arithmetic::div_mod::lemma_add_mod_noop(a, SEED_STEP as int, m);
        vstd::arithmetic::div_mod::lemma_small_mod(SEED_STEP as nat, m as nat);
        vstd::arithmetic::div_mod::lemma_mod_bound(a, m);
    }
}

/// Seeding is deterministic: the `i`-th value drawn after the seed is set to `s` is the mix of
/// `s + (i + 1) * SEED_STEP` (modulo 2^64). It depends on `s` and `i` alone, so two
/// generators given the same seed draw the same sequence.
pub proof fn lemma_seed_determinism(s: u64, n: nat)
    ensures
        draws(s, n).len() == n,
        forall|i: int|
            0 <= i < n ==> #[trigger] draws(s, n)[i] == mix(seed_plus_steps(s, i + 1)),
    decreases n,
{
    if n > 0 {
        lemma_seed_determinism(s, (n - 1) as nat);
        lemma_seed_after(s, n);
        assert forall|i: int| 0 <= i < n implies #[trigger] draws(s, n)[i] == mix(seed_plus_steps(s, i + 1)) by {
            if i < n - 1 {
                assert(draws(s, n)[i] == draws(s, (n - 1) as nat)[i]);
            }
        }
    }
}

/// A deterministic pseudo-random generator driven by a 64-bit seed.
#[derive(Debug)]
pub struct Jrand {
    pub seed: u64,
}

impl Jrand {
    /// A generator whose seed is 0.
    pub fn new() -> (r: Jrand)
        ensures
            r.seed == 0,
    {
        Jrand { seed: 0 }
    }

    /// Advances the seed by one step and returns the value mixed from the new seed.
    pub fn rnd(&mut self) -> (r: u32)
        ensures
            final(self).seed == next_seed(old(self).seed),
            r == mix(final(self).seed),
    {
        self.seed = self.seed.wrapping_add(SEED_STEP);
        let mut tmp: u64 = self.seed.wrapping_mul(FIRST_MULTIPLIER);
        let m1: u32 = ((tmp >> 32u64) ^ tmp) as u32;
        tmp = (m1 as u64).wrapping_mul(SECOND_MULTIPLIER);
        let m2: u32 = ((tmp >> 32u64) ^ tmp) as u32;
        m2
    }

    /// Draws one value and maps it into `[min, max)`: the draw modulo `max - min`, plus `min`.
    pub fn rnd_range(&mut self, min: u32, max: u32) -> (r: u32)
        requires
            min < max,
        ensures
            final(self).seed == next_seed(old(self).seed),
            r == mix(final(self).seed) as int % (max - min) + min,
            min <= r < max,
            max == min + 1 ==> r == min,
    {
        let v = self.rnd();
        v % (max - min) + min
    }
}

} // verus!

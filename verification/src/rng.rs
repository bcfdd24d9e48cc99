//! Deterministic linear-congruential random number generator.
//!
//! Each draw advances the 32-bit state by `seed' = seed * 1103515245 + 12345
//! (mod 2^32)` and hands out the 15-bit value `(seed' / 2^16) mod 2^15`.
//! Every derived draw is a pure function of that raw value, so the whole
//! stream is pinned by the seed alone and reproduces bit-for-bit across runs.

use vstd::prelude::*;

verus! {

/// One step of the linear-congruential recurrence.
pub open spec fn lcg_step(s: u32) -> u32 {
    ((s * 1103515245 + 12345) % 0x1_0000_0000) as u32
}

/// The raw 15-bit draw carried by a state: bits 16..31.
pub open spec fn raw_of(s: u32) -> u16 {
    ((s / 65536) % 32768) as u16
}

/// The state after `n` steps of the recurrence.
pub open spec fn lcg_iter(s: u32, n: nat) -> u32
    decreases n,
{
    if n == 0 {
        s
    } else {
        lcg_step(lcg_iter(s, (n - 1) as nat))
    }
}

/// The first `n` raw draws produced from `seed`.
pub open spec fn raw_seq(seed: u32, n: nat) -> Seq<u16> {
    Seq::new(n, |i: int| raw_of(lcg_iter(seed, (i + 1) as nat)))
}

/// A raw draw scaled to the full 16-bit range, as `next_u16` returns it.
pub open spec fn scale_to_u16(r: u16) -> u16 {
    if r == 0 {
        0u16
    } else {
        (2 * r - 1) as u16
    }
}

/// A raw draw scaled to the 8-bit range, as `next_u8` returns it.
pub open spec fn scale_to_u8(r: u16) -> u8 {
    ((255 * r) / 32768) as u8
}

/// Seeded generator; the state is the full history of the stream.
pub struct SimpleRng {
    pub seed: u32,
}

impl SimpleRng {
    /// A generator starting from the given seed.
    pub fn new(seed: u32) -> (rng: SimpleRng)
        ensures
            rng.seed == seed,
    {
        SimpleRng { seed }
    }

    /// Advance the state once and hand out the raw 15-bit draw.
    pub fn next_raw(&mut self) -> (r: u16)
        ensures
            final(self).seed == lcg_step(old(self).seed),
            r == raw_of(final(self).seed),
            r < 32768,
    {
        proof {
            lemma_lcg_step_wraps(self.seed);
        }
        self.seed = self.seed.wrapping_mul(1103515245).wrapping_add(12345);
        ((self.seed / 65536) % 32768) as u16
    }

    /// A draw scaled to the 16-bit range.
    pub fn next_u16(&mut self) -> (r: u16)
        ensures
            final(self).seed == lcg_step(old(self).seed),
            r == scale_to_u16(raw_of(final(self).seed)),
            r < 65535,
    {
        let raw = self.next_raw();
        if raw == 0 {
            0
        } else {
            2 * raw - 1
        }
    }

    /// A draw scaled to the 8-bit range.
    pub fn next_u8(&mut self) -> (r: u8)
        ensures
            final(self).seed == lcg_step(old(self).seed),
            r == scale_to_u8(raw_of(final(self).seed)),
            r < 255,
    {
        let raw = self.next_raw();
        ((255u32 * (raw as u32)) / 32768) as u8
    }
}

/// The wrapping-arithmetic state update equals the modular recurrence.
proof fn lemma_lcg_step_wraps(s: u32)
    ensures
        vstd::wrapping::u32_specs::wrapping_add(
            vstd::wrapping::u32_specs::wrapping_mul(s, 1103515245),
            12345,
        ) == lcg_step(s),
{
    let m = 0x1_0000_0000int;
    let p = s * 1103515245int;
    vstd::arithmetic::div_mod::lemma_fundamental_div_mod(p, m);
    vstd::arithmetic::div_mod::lemma_mod_bound(p, m);
    let r = p % m;
    assert(vstd::wrapping::u32_specs::wrapping_mul(s, 1103515245) == r as u32);
    vstd::arithmetic::div_mod::lemma_add_mod_noop(p, 12345, m);
    vstd::arithmetic::div_mod::lemma_small_mod(12345nat, m as nat);
    if r + 12345 < m {
        vstd::arithmetic::div_mod::lemma_small_mod((r + 12345) as nat, m as nat);
    } else {
        vstd::arithmetic::div_mod::lemma_mod_sub_multiples_vanish(r + 12345 - m, m);
        vstd::arithmetic::div_mod::lemma_small_mod((r + 12345 - m) as nat, m as nat);
    }
}

/// Law: lengthening a run never changes the draws already made; together with
/// the exact contracts on `next_raw`, the stream for a fixed seed is the same
/// on every run.
pub proof fn lemma_raw_seq_prefix(seed: u32, m: nat, n: nat)
    requires
        m <= n,
    ensures
        raw_seq(seed, m) =~= raw_seq(seed, n).take(m as int),
{
}

} // verus!

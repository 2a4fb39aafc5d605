//! A seedable pseudo-random stream, passed explicitly through every
//! sampling step. The whole render is thereby a function of the scene,
//! the camera and one seed: the state after each draw and the value drawn
//! are pinned exactly, so re-running with the same seed reproduces the
//! same output.
//!
//! The generator is a 64-bit mixing sequence: the state advances by a
//! fixed odd increment and the output is the state scrambled by
//! xor-shifts and two odd multipliers.

use vstd::prelude::*;

use crate::fx::Fx;

verus! {

/// Reduction of an integer into the 64-bit range.
pub open spec fn w64(v: int) -> int {
    v % 0x1_0000_0000_0000_0000
}

/// The state that follows a given state.
pub open spec fn spec_next_state(s: u64) -> u64 {
    w64(s as int + 0x9E3779B97F4A7C15) as u64
}

/// The value drawn when stepping from a given state.
#[verifier::opaque]
pub open spec fn spec_output(s: u64) -> u64 {
    let s1 = spec_next_state(s);
    let z1 = s1 ^ (s1 >> 30u64);
    let z2 = w64(z1 as int * 0xBF58476D1CE4E5B9) as u64;
    let z3 = z2 ^ (z2 >> 27u64);
    let z4 = w64(z3 as int * 0x94D049BB133111EB) as u64;
    z4 ^ (z4 >> 31u64)
}

/// The raw value, in `[0, 1)` fixed-point, of a drawn word: its top
/// sixteen bits.
pub open spec fn spec_unit_raw(u: u64) -> int {
    (u >> 48u64) as int
}

/// An explicitly threaded pseudo-random stream.
#[derive(Clone, Copy, PartialEq, Eq, Structural, Debug)]
pub struct Prng {
    pub state: u64,
}

/// Multiplication of two 64-bit words, keeping the low 64 bits.
fn wrap_mul(a: u64, b: u64) -> (r: u64)
    ensures
        r as int == w64(a as int * b as int),
{
    proof {
        assert((a as int) * (b as int) < 0x1_0000_0000_0000_0000 * 0x1_0000_0000_0000_0000)
            by (nonlinear_arith)
            requires
                (a as int) < 0x1_0000_0000_0000_0000,
                (b as int) < 0x1_0000_0000_0000_0000,
                (a as int) >= 0,
                (b as int) >= 0,
        ;
        assert((a as int) * (b as int) >= 0) by (nonlinear_arith)
            requires
                a as int >= 0,
                b as int >= 0,
        ;
    }
    let p: u128 = (a as u128) * (b as u128);
    let r: u128 = p % 0x1_0000_0000_0000_0000u128;
    r as u64
}

/// Relies on rand::random: draws one word from the thread-local
/// generator, seeded by the operating system. Nothing is promised of its
/// value.
#[verifier::external_body]
fn entropy_word() -> u64 {
    rand::random()
}

impl Prng {
    /// Builds a stream from a seed.
    pub fn new(seed: u64) -> (r: Prng)
        ensures
            r.state == seed,
    {
        Prng { state: seed }
    }

    /// Builds a stream seeded from machine entropy; no relation holds
    /// between the states of two such streams.
    pub fn from_entropy() -> (r: Prng) {
        Prng { state: entropy_word() }
    }

    /// Draws one 64-bit word and advances the state.
    pub fn next_u64(&mut self) -> (r: u64)
        ensures
            final(self).state == spec_next_state(old(self).state),
            r == spec_output(old(self).state),
    {
        proof {
            reveal(spec_output);
        }
        let wide: u128 = (self.state as u128) + 0x9E3779B97F4A7C15u128;
        let s1: u64 = (wide % 0x1_0000_0000_0000_0000u128) as u64;
        self.state = s1;
        let z1: u64 = s1 ^ (s1 >> 30);
        let z2: u64 = wrap_mul(z1, 0xBF58476D1CE4E5B9);
        let z3: u64 = z2 ^ (z2 >> 27);
        let z4: u64 = wrap_mul(z3, 0x94D049BB133111EB);
        z4 ^ (z4 >> 31)
    }

    /// Draws a fixed-point value uniform in `[0, 1)`.
    pub fn next_unit(&mut self) -> (r: Fx)
        ensures
            final(self).state == spec_next_state(old(self).state),
            r.raw as int == spec_unit_raw(spec_output(old(self).state)),
            0 <= r.raw < crate::fx::SCALE,
            r.wf(),
    {
        let u: u64 = self.next_u64();
        let top: u64 = u >> 48;
        proof {
            assert(u >> 48u64 < 65536) by (bit_vector);
        }
        Fx { raw: top as i64 }
    }
}

} // verus!

//! The random draws of the movement rule.

use vstd::prelude::*;
use crate::particle::{Particle, ParticleVariant};

verus! {

/// Draws an integer between two bounds with `macroquad::rand::gen_range`,
/// macroquad's name for `quad_rand::gen_range`, which reads and advances the
/// global generator.
///
/// Not proved: the contract is taken from the generator's source. It turns
/// the next random number into a fraction in `[0, 1)`, scales the fraction
/// to the span between the bounds, adds `low` and truncates towards zero. So
/// for `low <= high` the value lies between the bounds, both included.
/// Nothing else is claimed: two calls may return different values.
#[verifier::external_body]
fn gen_range(low: i32, high: i32) -> (value: i32)
    requires
        low <= high,
    ensures
        low <= value <= high,
{
    macroquad::rand::gen_range(low, high)
}

impl ParticleVariant {
    /// Tells whether a percent roll lets this material attempt a sideways
    /// move: the roll has to lie below the material's movement chance.
    pub fn attempts_move(&self, roll: i32) -> (attempts: bool)
        ensures
            attempts == (roll < self.movement_chance()),
    {
        let chance: u8 = self.get_movement_chance();
        roll < chance as i32
    }
}

impl Particle {
    /// Rolls for a sideways move and returns the column offset to attempt.
    /// The offset is zero when the roll against the material's movement
    /// chance fails, and may be zero when it succeeds.
    pub fn try_generate_movement(&self) -> (offset: i32)
        ensures
            -2 <= offset <= 2,
            self.variant.movement_chance() <= 0 ==> offset == 0,
    {
        let roll: i32 = gen_range(0, 100);
        if self.variant.attempts_move(roll) {
            gen_range(-2, 2)
        } else {
            0
        }
    }
}

/// Tells whether a roll lets the candidate slot lie one row further down.
pub fn drifts(roll: i32) -> (drift: bool)
    ensures
        drift == (roll >= 1),
{
    roll >= 1
}

/// Rolls for the row of the candidate slot.
pub(crate) fn try_generate_drift() -> (drift: bool) {
    drifts(gen_range(0, 2))
}

} // verus!

//! Particles and the per-material movement table.

use vstd::prelude::*;

verus! {

/// The material of a particle.
#[derive(Clone, Copy, Debug, PartialEq, Eq, Structural)]
pub enum ParticleVariant {
    Sand,
    Dirt,
    Water,
    Brick,
}

impl ParticleVariant {
    /// The chance, in percent, that a particle of this material attempts a
    /// sideways move in a frame in which it cannot fall.
    pub open spec fn movement_chance(self) -> int {
        match self {
            ParticleVariant::Sand => 50,
            ParticleVariant::Dirt => 5,
            ParticleVariant::Water => 100,
            ParticleVariant::Brick => 0,
        }
    }

    /// Whether the simulation moves this material at all. Brick is
    /// structural: it is drawn and never moved.
    pub open spec fn physical(self) -> bool {
        self != ParticleVariant::Brick
    }

    /// Looks the movement chance up.
    pub fn get_movement_chance(&self) -> (chance: u8)
        ensures
            chance == self.movement_chance(),
            chance <= 100,
    {
        match self {
            ParticleVariant::Sand => 50,
            ParticleVariant::Dirt => 5,
            ParticleVariant::Water => 100,
            ParticleVariant::Brick => 0,
        }
    }

    /// Tells whether the simulation moves this material.
    pub fn is_physical(&self) -> (physical: bool)
        ensures
            physical == self.physical(),
    {
        match self {
            ParticleVariant::Brick => false,
            _ => true,
        }
    }

    /// The material's name as shown to the user.
    pub fn name(&self) -> (name: &'static str)
        ensures
            name@ == match *self {
                ParticleVariant::Sand => "Sand"@,
                ParticleVariant::Dirt => "Dirt"@,
                ParticleVariant::Water => "Water"@,
                ParticleVariant::Brick => "Brick"@,
            },
    {
        match self {
            ParticleVariant::Sand => "Sand",
            ParticleVariant::Dirt => "Dirt",
            ParticleVariant::Water => "Water",
            ParticleVariant::Brick => "Brick",
        }
    }
}

/// The record held by one grid slot. A slot always holds a record; empty
/// space is a record with `active == false`. The `id` names the logical
/// particle and travels with the material when it moves between slots.
#[derive(Clone, Copy, Debug, PartialEq, Eq, Structural)]
pub struct Particle {
    pub id: u32,
    pub variant: ParticleVariant,
    pub active: bool,
}

impl Particle {
    /// A record with the given fields.
    pub fn new(id: u32, variant: ParticleVariant, active: bool) -> (particle: Particle)
        ensures
            particle == (Particle { id, variant, active }),
    {
        Particle { id, variant, active }
    }

    /// The record that painting leaves in a slot: an empty slot takes the
    /// brush's material and becomes active, an occupied slot is kept as it is.
    pub open spec fn painted(self, variant: ParticleVariant) -> Particle {
        if self.active {
            self
        } else {
            Particle { id: self.id, variant, active: true }
        }
    }
}

} // verus!

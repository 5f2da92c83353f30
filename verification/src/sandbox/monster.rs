//! Monsters and the damage they take.
use vstd::prelude::*;

verus! {

/// A monster's remaining health.
#[derive(Debug)]
pub struct Monster {
    health: u32,
}

/// Damage dealt to a monster by an arrow, waiting to be applied.
#[derive(Debug)]
pub struct DamageDealt {
    pub damage: u32,
}

/// Health left after taking `damage`: reduced by the damage, but not below
/// zero.
pub open spec fn health_after(health: u32, damage: u32) -> u32 {
    if damage >= health {
        0
    } else {
        (health - damage) as u32
    }
}

impl Monster {
    /// Remaining health.
    pub closed spec fn spec_health(&self) -> u32 {
        self.health
    }

    /// The monster a spawner places in the world: two points of health.
    pub fn create() -> (r: Monster)
        ensures
            r.spec_health() == 2,
    {
        Monster { health: 2 }
    }

    /// Remaining health.
    pub fn health(&self) -> (r: u32)
        ensures
            r == self.spec_health(),
    {
        self.health
    }

    /// Takes `damage`, stopping at zero health.
    pub fn take_damage(&mut self, damage: u32)
        ensures
            final(self).spec_health() == health_after(old(self).spec_health(), damage),
    {
        self.health = self.health.saturating_sub(damage);
    }

    /// Whether the monster has no health left.
    pub fn is_dead(&self) -> (r: bool)
        ensures
            r == (self.spec_health() == 0),
    {
        return self.health == 0;
    }
}

/// Damage adds up: taking `a` then `b` leaves the same health as taking
/// `a + b` at once, and a dead monster stays dead.
pub proof fn lemma_damage_accumulates(health: u32, a: u32, b: u32)
    requires
        a + b <= u32::MAX,
    ensures
        health_after(health_after(health, a), b) == health_after(health, (a + b) as u32),
        health_after(health, a) == 0 ==> health_after(health_after(health, a), b) == 0,
{
}

} // verus!

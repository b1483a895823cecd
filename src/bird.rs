//! The bird: a point falling under gravity, pushed up by jumps.
use vstd::prelude::*;

use crate::{BIRD_START_X, BIRD_START_Y, GRAVITY, JUMP_FORCE, SCREEN_HEIGHT};

verus! {

/// The player's bird. `x` never changes once the bird is made.
#[derive(Clone, Copy, Debug, PartialEq, Eq, Structural)]
pub struct Bird {
    pub x: i64,
    pub y: i64,
    pub velocity: i64,
}

impl Bird {
    /// The bird as it stands at the start of a game.
    pub open spec fn spec_start() -> Bird {
        Bird { x: BIRD_START_X, y: BIRD_START_Y, velocity: 0 }
    }

    /// One frame of gravity can be applied without leaving the range of `i64`.
    pub open spec fn can_fall(self) -> bool {
        &&& self.velocity + GRAVITY <= i64::MAX
        &&& i64::MIN <= self.y + self.velocity + GRAVITY <= i64::MAX
    }

    /// The bird one frame later: velocity first, then position.
    pub open spec fn spec_fallen(self) -> Bird {
        Bird {
            x: self.x,
            y: (self.y + self.velocity + GRAVITY) as i64,
            velocity: (self.velocity + GRAVITY) as i64,
        }
    }

    /// The bird right after a jump.
    pub open spec fn spec_jumped(self) -> Bird {
        Bird { x: self.x, y: self.y, velocity: JUMP_FORCE }
    }

    /// Above the top edge or below the bottom edge of the screen.
    pub open spec fn spec_out_of_bounds(self) -> bool {
        self.y < 0 || self.y > SCREEN_HEIGHT
    }

    pub fn new() -> (r: Bird)
        ensures
            r == Bird::spec_start(),
    {
        Bird { x: BIRD_START_X, y: BIRD_START_Y, velocity: 0 }
    }

    /// Applies one frame of gravity.
    pub fn update(&mut self)
        requires
            old(self).can_fall(),
        ensures
            final(self).velocity == old(self).velocity + GRAVITY,
            final(self).y == old(self).y + old(self).velocity + GRAVITY,
            final(self).x == old(self).x,
            *final(self) == old(self).spec_fallen(),
    {
        self.velocity = self.velocity + GRAVITY;
        self.y = self.y + self.velocity;
    }

    /// Replaces the velocity by the jump impulse, whatever it was.
    pub fn jump(&mut self)
        ensures
            final(self).velocity == JUMP_FORCE,
            final(self).x == old(self).x,
            final(self).y == old(self).y,
            *final(self) == old(self).spec_jumped(),
    {
        self.velocity = JUMP_FORCE;
    }

    pub fn is_out_of_bounds(&self) -> (r: bool)
        ensures
            r == (self.y < 0 || self.y > SCREEN_HEIGHT),
            r == self.spec_out_of_bounds(),
    {
        self.y < 0 || self.y > SCREEN_HEIGHT
    }
}

/// A jump sets the velocity to the impulse no matter what it was before:
/// two birds at the same place end up equal, and jumping again changes nothing.
pub proof fn lemma_jump_overwrites(a: Bird, b: Bird)
    requires
        a.x == b.x,
        a.y == b.y,
    ensures
        a.spec_jumped() == b.spec_jumped(),
        a.spec_jumped().spec_jumped() == a.spec_jumped(),
        a.spec_jumped().velocity == JUMP_FORCE,
{
}

} // verus!

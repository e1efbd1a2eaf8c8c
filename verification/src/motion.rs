//! A projectile under gravity and wind: the state advanced by one tick.

use vstd::prelude::*;

use crate::vec4::Vec4;
use crate::vec4::vec4_sum;

verus! {

/// A projectile: a position (a point) and a velocity (a vector).
pub struct Projectile {
    pub pos: Vec4,
    pub vel: Vec4,
}

impl Projectile {
    /// A projectile with the given position and velocity.
    pub fn new_projectile(pos: Vec4, vel: Vec4) -> (p: Projectile)
        ensures
            p.pos == pos,
            p.vel == vel,
    {
        Projectile { pos, vel }
    }
}

/// An environment: a gravity vector and a wind vector.
pub struct Environment {
    pub gravity: Vec4,
    pub wind: Vec4,
}

impl Environment {
    /// An environment with the given gravity and wind.
    pub fn new_environment(gravity: Vec4, wind: Vec4) -> (e: Environment)
        ensures
            e.gravity == gravity,
            e.wind == wind,
    {
        Environment { gravity, wind }
    }
}

/// Advance the projectile by one tick: the velocity moves the position, and
/// gravity plus wind (added in that order) move the velocity.
pub fn tick(env: &Environment, proj: &mut Projectile)
    ensures
        final(proj).pos == vec4_sum(old(proj).pos, old(proj).vel),
        final(proj).vel == vec4_sum(vec4_sum(old(proj).vel, env.gravity), env.wind),
{
    proj.pos = proj.pos.add(&proj.vel);
    proj.vel = proj.vel.add(&env.gravity).add(&env.wind);
}

} // verus!

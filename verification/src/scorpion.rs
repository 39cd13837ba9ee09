//! Scorpions: timed hazards that cut a snake's tail on contact.

use vstd::prelude::*;
use crate::point::Point;

verus! {

/// How long a scorpion stays alive, in milliseconds of the simulation clock.
pub const SCORPION_LIFETIME_MS: u64 = 4000;

/// A time-bounded hazard. It is live only while `now - spawn_time` is below
/// `SCORPION_LIFETIME_MS`; an expired scorpion is purged from the world and
/// takes no part in collision checks.
#[derive(Clone, Copy, PartialEq, Eq, Structural, Debug)]
pub struct Scorpion {
    pub loc: Point,
    pub spawn_time: u64,
}

impl Scorpion {
    pub fn new(loc: Point, spawn_time: u64) -> (s: Scorpion)
        ensures
            s == (Scorpion { loc, spawn_time }),
    {
        Scorpion { loc, spawn_time }
    }

    /// Whether the scorpion has not yet outlived its lifetime at time `now`.
    pub open spec fn is_live(self, now: u64) -> bool {
        now < self.spawn_time + SCORPION_LIFETIME_MS
    }

    pub fn live(&self, now: u64) -> (b: bool)
        ensures
            b == self.is_live(now),
    {
        !(now >= self.spawn_time && now - self.spawn_time >= SCORPION_LIFETIME_MS)
    }
}

} // verus!

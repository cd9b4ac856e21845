use vstd::prelude::*;

verus! {

/// Distances the marcher reads are in ten-thousandths of a world unit.
pub const UNITS_PER_WORLD_UNIT: i64 = 10_000;

/// A ray whose distance to the scene is below this (1e-4 world units) has hit.
pub const HIT_BELOW: i64 = 1;

/// A ray whose distance to the scene is above this (1e4 world units) has
/// escaped to the sky.
pub const MISS_ABOVE: i64 = 10_000 * UNITS_PER_WORLD_UNIT;

/// The most distance evaluations one ray gets.
pub const MAX_MARCH_STEPS: u32 = 1000;

/// What a ray does after one distance evaluation.
#[derive(Clone, Copy, Debug, PartialEq, Eq, Structural)]
pub enum MarchStep {
    /// The ray reached a surface; the march ends.
    Hit,
    /// The ray escaped, or used up its steps; the march ends.
    Miss,
    /// The ray moves forward by the distance and is evaluated again.
    Advance,
}

/// The decision at evaluation number `step` (from zero) for `distance`.
pub open spec fn step_outcome(step: u32, distance: i64) -> MarchStep {
    if distance < HIT_BELOW {
        MarchStep::Hit
    } else if distance > MISS_ABOVE {
        MarchStep::Miss
    } else if step + 1 >= MAX_MARCH_STEPS {
        MarchStep::Miss
    } else {
        MarchStep::Advance
    }
}

/// The sphere-tracing state of one ray: how many evaluations it has had.
#[derive(Clone, Copy, Debug, PartialEq, Eq, Structural)]
pub struct Marcher {
    pub steps: u32,
}

impl Marcher {
    pub fn new() -> (r: Marcher)
        ensures
            r.steps == 0,
    {
        Marcher { steps: 0 }
    }

    /// Takes the distance at the ray's current position and decides. A ray
    /// that advances has steps left, so every march ends within
    /// `MAX_MARCH_STEPS` evaluations.
    pub fn observe(&mut self, distance: i64) -> (r: MarchStep)
        requires
            old(self).steps < MAX_MARCH_STEPS,
        ensures
            r == step_outcome(old(self).steps, distance),
            final(self).steps == old(self).steps + 1,
            r == MarchStep::Advance ==> final(self).steps < MAX_MARCH_STEPS,
    {
        let step = self.steps;
        self.steps = self.steps + 1;
        if distance < HIT_BELOW {
            MarchStep::Hit
        } else if distance > MISS_ABOVE {
            MarchStep::Miss
        } else if step + 1 >= MAX_MARCH_STEPS {
            MarchStep::Miss
        } else {
            MarchStep::Advance
        }
    }
}

} // verus!

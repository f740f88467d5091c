//! The core rigid-body record of the dynamics engine and its solver settings.
//!
//! Real quantities are bit patterns (see `crate::scalars`).

use vstd::prelude::*;
use crate::scalars::{REAL_ZERO, REAL_ONE, REAL_0_2};

verus! {

/// How a body takes part in the simulation.
#[derive(Debug, Clone, Copy, PartialEq, Eq, Structural)]
pub enum BodyType {
    /// Moved by forces and contacts.
    Dynamic,
    /// Never moves.
    Static,
    /// Moved by the user along a prescribed path.
    Kinematic,
}

/// A rigid body of the dynamics engine.
#[derive(Debug, Clone, Copy)]
pub struct RigidBody {
    /// How the body takes part in the simulation.
    pub body_type: BodyType,
    /// Mass.
    pub mass: u64,
    /// World-space position.
    pub position: [u64; 3],
    /// Linear velocity.
    pub velocity: [u64; 3],
    /// Force accumulated since the last clear.
    pub force_accumulator: [u64; 3],
    /// Target position a kinematic body is driven towards, if any.
    pub kinematic_target: Option<[u64; 3]>,
}

impl RigidBody {
    /// A body of the given type and mass at rest at the origin, with no
    /// accumulated force and no kinematic target.
    pub fn new(body_type: BodyType, mass: u64) -> (b: Self)
        ensures
            b.body_type == body_type,
            b.mass == mass,
            b.position == [REAL_ZERO, REAL_ZERO, REAL_ZERO],
            b.velocity == [REAL_ZERO, REAL_ZERO, REAL_ZERO],
            b.force_accumulator == [REAL_ZERO, REAL_ZERO, REAL_ZERO],
            b.kinematic_target is None,
    {
        RigidBody {
            body_type,
            mass,
            position: [REAL_ZERO, REAL_ZERO, REAL_ZERO],
            velocity: [REAL_ZERO, REAL_ZERO, REAL_ZERO],
            force_accumulator: [REAL_ZERO, REAL_ZERO, REAL_ZERO],
            kinematic_target: None,
        }
    }

    /// Set the position a kinematic body is driven towards.
    pub fn set_kinematic_target(&mut self, target: [u64; 3])
        ensures
            *final(self) == (RigidBody { kinematic_target: Some(target), ..*old(self) }),
    {
        self.kinematic_target = Some(target);
    }

    /// Clear kinematic target.
    pub fn clear_kinematic_target(&mut self)
        ensures
            *final(self) == (RigidBody { kinematic_target: None, ..*old(self) }),
    {
        self.kinematic_target = None;
    }

    /// Is this body static?
    pub fn is_static(&self) -> (r: bool)
        ensures
            r == (self.body_type == BodyType::Static),
    {
        self.body_type == BodyType::Static
    }

    /// Return the total accumulated force (before clearing).
    pub fn accumulated_force(&self) -> (f: [u64; 3])
        ensures
            f == self.force_accumulator,
    {
        self.force_accumulator
    }
}

/// Settings of the constraint solver.
#[derive(Debug, Clone, Copy)]
pub struct SolverConfig {
    /// Velocity iterations per step.
    pub velocity_iterations: usize,
    /// Position iterations per step.
    pub position_iterations: usize,
    /// Baumgarte stabilisation factor.
    pub baumgarte_factor: u64,
    /// Relative speed below which contacts do not bounce.
    pub restitution_threshold: u64,
}

impl Default for SolverConfig {
    fn default() -> (c: Self)
        ensures
            c.velocity_iterations == 8,
            c.position_iterations == 3,
            c.baumgarte_factor == REAL_0_2,
            c.restitution_threshold == REAL_ONE,
    {
        SolverConfig {
            velocity_iterations: 8,
            position_iterations: 3,
            baumgarte_factor: REAL_0_2,
            restitution_threshold: REAL_ONE,
        }
    }
}

} // verus!

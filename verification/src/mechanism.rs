//! Kinematic chains and mechanism mobility.
//!
//! Joint variables, limits and Denavit-Hartenberg parameters are real values
//! carried as bit patterns (see `crate::scalars`); the homogeneous transforms,
//! Jacobians and inverse kinematics built from them are computed outside
//! this library. Kept here: joint kinds and degrees of freedom, the routing of
//! joint variables to the movable joints of a chain, the sampling odometer of
//! workspace analysis, and the Gruebler and Kutzbach mobility criteria.

use vstd::prelude::*;
use crate::scalars::{REAL_ZERO, REAL_ONE, REAL_PI};

verus! {

// ══════════════════════════════════════════════════════════════════════════════
// Joint kinds and parameters
// ══════════════════════════════════════════════════════════════════════════════

/// Types of mechanical joints.
#[derive(Debug, Clone, Copy, PartialEq, Eq, Structural)]
pub enum JointType {
    /// Revolute joint — rotation about the Z axis.
    Revolute,
    /// Prismatic joint — translation along the Z axis.
    Prismatic,
    /// Fixed / welded joint — no degree of freedom.
    Fixed,
}

/// Standard Denavit-Hartenberg parameters for a single joint/link.
///
/// Convention: `T_i = Rot_z(theta) * Trans_z(d) * Trans_x(a) * Rot_x(alpha)`.
#[derive(Debug, Clone, Copy)]
pub struct DHParam {
    /// Joint angle θ (radians).
    pub theta: u64,
    /// Link offset d along the Z axis.
    pub d: u64,
    /// Link length a (distance along X axis).
    pub a: u64,
    /// Link twist α (rotation about X axis, radians).
    pub alpha: u64,
}

impl DHParam {
    /// Create a new DH parameter set.
    pub fn new(theta: u64, d: u64, a: u64, alpha: u64) -> (p: Self)
        ensures
            p == (DHParam { theta, d, a, alpha }),
    {
        DHParam { theta, d, a, alpha }
    }
}

/// The all-zero DH parameter set.
pub open spec fn zero_dh() -> DHParam {
    DHParam { theta: REAL_ZERO, d: REAL_ZERO, a: REAL_ZERO, alpha: REAL_ZERO }
}

/// A single joint in a kinematic chain.
#[derive(Debug, Clone, Copy)]
pub struct Joint {
    /// Joint type.
    pub joint_type: JointType,
    /// DH parameters (base values; θ or d is offset by the joint variable).
    pub dh: DHParam,
    /// Current joint variable value.
    pub q: u64,
    /// Joint lower limit.
    pub q_min: u64,
    /// Joint upper limit.
    pub q_max: u64,
    /// Joint velocity.
    pub dq: u64,
    /// Joint acceleration.
    pub ddq: u64,
    /// Index of the parent body.
    pub parent_body: usize,
    /// Index of the child body.
    pub child_body: usize,
    /// Joint lower limit (alias).
    pub lower_limit: u64,
    /// Joint upper limit (alias).
    pub upper_limit: u64,
}

/// A joint at rest (zero variable, velocity and acceleration) with the
/// given kind, parameters, limits and bodies.
pub open spec fn joint_at_rest(
    joint_type: JointType,
    dh: DHParam,
    q_min: u64,
    q_max: u64,
    parent_body: usize,
    child_body: usize,
) -> Joint {
    Joint {
        joint_type,
        dh,
        q: REAL_ZERO,
        q_min,
        q_max,
        dq: REAL_ZERO,
        ddq: REAL_ZERO,
        parent_body,
        child_body,
        lower_limit: q_min,
        upper_limit: q_max,
    }
}

/// Whether a joint has a degree of freedom (is not fixed).
pub open spec fn is_movable(j: Joint) -> bool {
    j.joint_type != JointType::Fixed
}

impl Joint {
    fn at_rest(
        joint_type: JointType,
        dh: DHParam,
        q_min: u64,
        q_max: u64,
        parent_body: usize,
        child_body: usize,
    ) -> (j: Self)
        ensures
            j == joint_at_rest(joint_type, dh, q_min, q_max, parent_body, child_body),
    {
        Joint {
            joint_type,
            dh,
            q: REAL_ZERO,
            q_min,
            q_max,
            dq: REAL_ZERO,
            ddq: REAL_ZERO,
            parent_body,
            child_body,
            lower_limit: q_min,
            upper_limit: q_max,
        }
    }

    /// Create a revolute joint with the given DH parameters and limits.
    pub fn revolute(dh: DHParam, q_min: u64, q_max: u64) -> (j: Self)
        ensures
            j == joint_at_rest(JointType::Revolute, dh, q_min, q_max, 0, 0),
    {
        Self::at_rest(JointType::Revolute, dh, q_min, q_max, 0, 0)
    }

    /// Create a prismatic joint with the given DH parameters and limits.
    pub fn prismatic(dh: DHParam, q_min: u64, q_max: u64) -> (j: Self)
        ensures
            j == joint_at_rest(JointType::Prismatic, dh, q_min, q_max, 0, 0),
    {
        Self::at_rest(JointType::Prismatic, dh, q_min, q_max, 0, 0)
    }

    /// Create a fixed joint (zero limits).
    pub fn fixed(dh: DHParam) -> (j: Self)
        ensures
            j == joint_at_rest(JointType::Fixed, dh, REAL_ZERO, REAL_ZERO, 0, 0),
    {
        Self::at_rest(JointType::Fixed, dh, REAL_ZERO, REAL_ZERO, 0, 0)
    }

    /// Create a revolute joint connecting two bodies with limits.
    pub fn new_revolute(parent_body: usize, child_body: usize, q_min: u64, q_max: u64) -> (j: Self)
        ensures
            j == joint_at_rest(JointType::Revolute, zero_dh(), q_min, q_max, parent_body, child_body),
    {
        Self::at_rest(JointType::Revolute, DHParam::new(REAL_ZERO, REAL_ZERO, REAL_ZERO, REAL_ZERO), q_min, q_max, parent_body, child_body)
    }

    /// Create a prismatic joint connecting two bodies with limits.
    pub fn new_prismatic(parent_body: usize, child_body: usize, q_min: u64, q_max: u64) -> (j: Self)
        ensures
            j == joint_at_rest(JointType::Prismatic, zero_dh(), q_min, q_max, parent_body, child_body),
    {
        Self::at_rest(JointType::Prismatic, DHParam::new(REAL_ZERO, REAL_ZERO, REAL_ZERO, REAL_ZERO), q_min, q_max, parent_body, child_body)
    }

    /// Create a fixed joint connecting two bodies.
    pub fn new_fixed(parent_body: usize, child_body: usize) -> (j: Self)
        ensures
            j == joint_at_rest(JointType::Fixed, zero_dh(), REAL_ZERO, REAL_ZERO, parent_body, child_body),
    {
        Self::at_rest(JointType::Fixed, DHParam::new(REAL_ZERO, REAL_ZERO, REAL_ZERO, REAL_ZERO), REAL_ZERO, REAL_ZERO, parent_body, child_body)
    }

    /// Number of degrees of freedom of this joint: one for revolute and
    /// prismatic joints, none for a fixed joint.
    pub fn num_dof(&self) -> (n: usize)
        ensures
            n == if is_movable(*self) { 1usize } else { 0usize },
    {
        match self.joint_type {
            JointType::Revolute | JointType::Prismatic => 1,
            JointType::Fixed => 0,
        }
    }
}

// ══════════════════════════════════════════════════════════════════════════════
// Serial chains
// ══════════════════════════════════════════════════════════════════════════════

/// Number of movable joints in `js`.
pub open spec fn movable_count(js: Seq<Joint>) -> nat
    decreases js.len(),
{
    if js.len() == 0 {
        0
    } else {
        movable_count(js.drop_last()) + if is_movable(js.last()) { 1nat } else { 0nat }
    }
}

/// Which joint variable a routine reads or writes.
pub enum JointVar {
    /// The joint position `q`.
    Position,
    /// The joint velocity `dq`.
    Velocity,
    /// The joint acceleration `ddq`.
    Acceleration,
}

/// The chosen variable of a joint.
pub open spec fn var_of(j: Joint, v: JointVar) -> u64 {
    match v {
        JointVar::Position => j.q,
        JointVar::Velocity => j.dq,
        JointVar::Acceleration => j.ddq,
    }
}

/// A joint with its chosen variable replaced.
pub open spec fn with_var(j: Joint, v: JointVar, x: u64) -> Joint {
    match v {
        JointVar::Position => Joint { q: x, ..j },
        JointVar::Velocity => Joint { dq: x, ..j },
        JointVar::Acceleration => Joint { ddq: x, ..j },
    }
}

/// The joints after routing `vals` to the movable joints in order: the
/// k-th movable joint takes `vals[k]` while values last; fixed joints and
/// movable joints beyond the values are unchanged.
pub open spec fn assign_var(js: Seq<Joint>, v: JointVar, vals: Seq<u64>) -> Seq<Joint> {
    Seq::new(
        js.len(),
        |i: int|
            if is_movable(js[i]) && movable_count(js.take(i)) < vals.len() {
                with_var(js[i], v, vals[movable_count(js.take(i)) as int])
            } else {
                js[i]
            },
    )
}

/// The chosen variable of each movable joint, in order.
pub open spec fn gather_var(js: Seq<Joint>, v: JointVar) -> Seq<u64>
    decreases js.len(),
{
    if js.len() == 0 {
        Seq::empty()
    } else if is_movable(js.last()) {
        gather_var(js.drop_last(), v).push(var_of(js.last(), v))
    } else {
        gather_var(js.drop_last(), v)
    }
}

/// The identity homogeneous transform.
pub open spec fn identity_transform() -> [[u64; 4]; 4] {
    [
        [REAL_ONE, REAL_ZERO, REAL_ZERO, REAL_ZERO],
        [REAL_ZERO, REAL_ONE, REAL_ZERO, REAL_ZERO],
        [REAL_ZERO, REAL_ZERO, REAL_ONE, REAL_ZERO],
        [REAL_ZERO, REAL_ZERO, REAL_ZERO, REAL_ONE],
    ]
}

/// A serial (open) kinematic chain.
#[derive(Debug, Clone)]
pub struct SerialChain {
    /// Base transform (world-to-base), a 4×4 homogeneous matrix, row-major.
    pub base: [[u64; 4]; 4],
    /// Joints in order from base to end-effector.
    pub joints: Vec<Joint>,
}

proof fn lemma_movable_count_take_step(js: Seq<Joint>, i: int)
    requires
        0 <= i < js.len(),
    ensures
        movable_count(js.take(i + 1)) == movable_count(js.take(i)) + if is_movable(js[i]) { 1nat } else { 0nat },
{
    assert(js.take(i + 1).drop_last() =~= js.take(i));
}

proof fn lemma_movable_count_bound(js: Seq<Joint>)
    ensures
        movable_count(js) <= js.len(),
    decreases js.len(),
{
    if js.len() > 0 {
        lemma_movable_count_bound(js.drop_last());
    }
}

impl SerialChain {
    /// Create a new serial chain with an identity base.
    pub fn new(joints: Vec<Joint>) -> (c: Self)
        ensures
            c.base == identity_transform(),
            c.joints@ == joints@,
    {
        SerialChain {
            base: [
                [REAL_ONE, REAL_ZERO, REAL_ZERO, REAL_ZERO],
                [REAL_ZERO, REAL_ONE, REAL_ZERO, REAL_ZERO],
                [REAL_ZERO, REAL_ZERO, REAL_ONE, REAL_ZERO],
                [REAL_ZERO, REAL_ZERO, REAL_ZERO, REAL_ONE],
            ],
            joints,
        }
    }

    /// Create a serial chain with a custom base transform.
    pub fn with_base(base: [[u64; 4]; 4], joints: Vec<Joint>) -> (c: Self)
        ensures
            c.base == base,
            c.joints@ == joints@,
    {
        SerialChain { base, joints }
    }

    /// Number of joints.
    pub fn num_joints(&self) -> (n: usize)
        ensures
            n == self.joints@.len(),
    {
        self.joints.len()
    }

    /// Number of degrees of freedom: the joints that are not fixed.
    pub fn dof(&self) -> (n: usize)
        ensures
            n == movable_count(self.joints@),
            n <= self.joints@.len(),
    {
        let mut n: usize = 0;
        let mut i: usize = 0;
        while i < self.joints.len()
            invariant
                i <= self.joints@.len(),
                n == movable_count(self.joints@.take(i as int)),
            decreases self.joints@.len() - i,
        {
            proof {
                lemma_movable_count_take_step(self.joints@, i as int);
                lemma_movable_count_bound(self.joints@.take(i as int));
            }
            if self.joints[i].joint_type != JointType::Fixed {
                n = n + 1;
            }
            i = i + 1;
        }
        assert(self.joints@.take(self.joints@.len() as int) =~= self.joints@);
        proof { lemma_movable_count_bound(self.joints@); }
        n
    }

    fn assign(&mut self, v: JointVar, vals: &[u64])
        ensures
            final(self).base == old(self).base,
            final(self).joints@ == assign_var(old(self).joints@, v, vals@),
    {
        let ghost js = self.joints@;
        let mut idx: usize = 0;
        let mut i: usize = 0;
        while i < self.joints.len()
            invariant
                self.base == old(self).base,
                js == old(self).joints@,
                self.joints@.len() == js.len(),
                i <= js.len(),
                idx == if movable_count(js.take(i as int)) <= vals@.len() {
                    movable_count(js.take(i as int))
                } else {
                    vals@.len()
                },
                forall|k: int| 0 <= k < i ==> #[trigger] self.joints@[k] == assign_var(js, v, vals@)[k],
                forall|k: int| i <= k < js.len() ==> #[trigger] self.joints@[k] == js[k],
            decreases js.len() - i,
        {
            proof { lemma_movable_count_take_step(js, i as int); }
            let j = self.joints[i];
            if j.joint_type != JointType::Fixed && idx < vals.len() {
                let x = vals[idx];
                let updated = match v {
                    JointVar::Position => Joint { q: x, ..j },
                    JointVar::Velocity => Joint { dq: x, ..j },
                    JointVar::Acceleration => Joint { ddq: x, ..j },
                };
                self.joints.set(i, updated);
                idx = idx + 1;
            }
            i = i + 1;
        }
        assert(self.joints@ =~= assign_var(js, v, vals@));
    }

    fn gather(&self, v: JointVar) -> (vals: Vec<u64>)
        ensures
            vals@ == gather_var(self.joints@, v),
    {
        let mut vals: Vec<u64> = Vec::new();
        let mut i: usize = 0;
        while i < self.joints.len()
            invariant
                i <= self.joints@.len(),
                vals@ == gather_var(self.joints@.take(i as int), v),
            decreases self.joints@.len() - i,
        {
            assert(self.joints@.take(i + 1).drop_last() =~= self.joints@.take(i as int));
            let j = self.joints[i];
            if j.joint_type != JointType::Fixed {
                let x = match v {
                    JointVar::Position => j.q,
                    JointVar::Velocity => j.dq,
                    JointVar::Acceleration => j.ddq,
                };
                vals.push(x);
            }
            i = i + 1;
        }
        assert(self.joints@.take(self.joints@.len() as int) =~= self.joints@);
        vals
    }

    /// Set the joint positions of the movable joints, in order, from `q`.
    pub fn set_q(&mut self, q: &[u64])
        ensures
            final(self).base == old(self).base,
            final(self).joints@ == assign_var(old(self).joints@, JointVar::Position, q@),
    {
        self.assign(JointVar::Position, q)
    }

    /// The joint positions of the movable joints, in order.
    pub fn get_q(&self) -> (q: Vec<u64>)
        ensures
            q@ == gather_var(self.joints@, JointVar::Position),
    {
        self.gather(JointVar::Position)
    }

    /// Set the joint velocities of the movable joints, in order, from `dq`.
    pub fn set_dq(&mut self, dq: &[u64])
        ensures
            final(self).base == old(self).base,
            final(self).joints@ == assign_var(old(self).joints@, JointVar::Velocity, dq@),
    {
        self.assign(JointVar::Velocity, dq)
    }

    /// The joint velocities of the movable joints, in order.
    pub fn get_dq(&self) -> (dq: Vec<u64>)
        ensures
            dq@ == gather_var(self.joints@, JointVar::Velocity),
    {
        self.gather(JointVar::Velocity)
    }

    /// Set the joint accelerations of the movable joints, in order, from `ddq`.
    pub fn set_ddq(&mut self, ddq: &[u64])
        ensures
            final(self).base == old(self).base,
            final(self).joints@ == assign_var(old(self).joints@, JointVar::Acceleration, ddq@),
    {
        self.assign(JointVar::Acceleration, ddq)
    }
}

// ══════════════════════════════════════════════════════════════════════════════
// Parallel chains
// ══════════════════════════════════════════════════════════════════════════════

/// Sum of the degrees of freedom of the legs.
pub open spec fn legs_dof(legs: Seq<SerialChain>) -> nat
    decreases legs.len(),
{
    if legs.len() == 0 {
        0
    } else {
        legs_dof(legs.drop_last()) + movable_count(legs.last().joints@)
    }
}

proof fn lemma_legs_dof_prefix(legs: Seq<SerialChain>, i: int)
    requires
        0 <= i <= legs.len(),
    ensures
        legs_dof(legs.take(i)) <= legs_dof(legs),
    decreases legs.len() - i,
{
    if i < legs.len() {
        lemma_legs_dof_prefix(legs, i + 1);
        assert(legs.take(i + 1).drop_last() =~= legs.take(i));
    } else {
        assert(legs.take(i) =~= legs);
    }
}

// ══════════════════════════════════════════════════════════════════════════════
// Standard chains
// ══════════════════════════════════════════════════════════════════════════════

/// Bit pattern of `-π`.
pub const REAL_MINUS_PI: u64 = 0xC009_21FB_5444_2D18u64;
/// Bit pattern of `π/2`.
pub const REAL_HALF_PI: u64 = 0x3FF9_21FB_5444_2D18u64;
/// Bit pattern of `-π/2`.
pub const REAL_MINUS_HALF_PI: u64 = 0xBFF9_21FB_5444_2D18u64;

/// A revolute joint with limits `[-π, π]` and DH parameters `(0, d, a, alpha)`.
pub open spec fn full_turn_joint(d: u64, a: u64, alpha: u64) -> Joint {
    joint_at_rest(
        JointType::Revolute,
        DHParam { theta: REAL_ZERO, d, a, alpha },
        REAL_MINUS_PI,
        REAL_PI,
        0,
        0,
    )
}

/// A prismatic joint with the given stroke and DH parameters `(0, 0, 0, alpha)`.
pub open spec fn slide_joint(alpha: u64, lo: u64, hi: u64) -> Joint {
    joint_at_rest(JointType::Prismatic, DHParam { theta: REAL_ZERO, d: REAL_ZERO, a: REAL_ZERO, alpha }, lo, hi, 0, 0)
}

fn full_turn(d: u64, a: u64, alpha: u64) -> (j: Joint)
    ensures
        j == full_turn_joint(d, a, alpha),
{
    Joint::revolute(DHParam::new(REAL_ZERO, d, a, alpha), REAL_MINUS_PI, REAL_PI)
}

/// Build a 2-DOF planar RR chain with link lengths `l1`, `l2`.
pub fn build_planar_rr(l1: u64, l2: u64) -> (c: SerialChain)
    ensures
        c.base == identity_transform(),
        c.joints@ == seq![full_turn_joint(REAL_ZERO, l1, REAL_ZERO), full_turn_joint(REAL_ZERO, l2, REAL_ZERO)],
{
    let mut joints: Vec<Joint> = Vec::new();
    joints.push(full_turn(REAL_ZERO, l1, REAL_ZERO));
    joints.push(full_turn(REAL_ZERO, l2, REAL_ZERO));
    SerialChain::new(joints)
}

/// Build a 3-DOF planar RRR chain.
pub fn build_planar_rrr(l1: u64, l2: u64, l3: u64) -> (c: SerialChain)
    ensures
        c.base == identity_transform(),
        c.joints@ == seq![
            full_turn_joint(REAL_ZERO, l1, REAL_ZERO),
            full_turn_joint(REAL_ZERO, l2, REAL_ZERO),
            full_turn_joint(REAL_ZERO, l3, REAL_ZERO),
        ],
{
    let mut joints: Vec<Joint> = Vec::new();
    joints.push(full_turn(REAL_ZERO, l1, REAL_ZERO));
    joints.push(full_turn(REAL_ZERO, l2, REAL_ZERO));
    joints.push(full_turn(REAL_ZERO, l3, REAL_ZERO));
    SerialChain::new(joints)
}

/// Build a 3-DOF spatial RPR (revolute-prismatic-revolute) chain; the
/// prismatic joint strokes over `d_range`.
pub fn build_rpr(d_range: (u64, u64)) -> (c: SerialChain)
    ensures
        c.base == identity_transform(),
        c.joints@ == seq![
            full_turn_joint(REAL_ZERO, REAL_ZERO, REAL_HALF_PI),
            slide_joint(REAL_MINUS_HALF_PI, d_range.0, d_range.1),
            full_turn_joint(REAL_ZERO, REAL_ZERO, REAL_ZERO),
        ],
{
    let mut joints: Vec<Joint> = Vec::new();
    joints.push(full_turn(REAL_ZERO, REAL_ZERO, REAL_HALF_PI));
    joints.push(Joint::prismatic(DHParam::new(REAL_ZERO, REAL_ZERO, REAL_ZERO, REAL_MINUS_HALF_PI), d_range.0, d_range.1));
    joints.push(full_turn(REAL_ZERO, REAL_ZERO, REAL_ZERO));
    SerialChain::new(joints)
}

/// Build a standard 6-DOF industrial robot arm (PUMA-like DH parameters);
/// the fifth offset is not used.
pub fn build_6dof_arm(d1: u64, a2: u64, a3: u64, d4: u64, _d5: u64, d6: u64) -> (c: SerialChain)
    ensures
        c.base == identity_transform(),
        c.joints@ == seq![
            full_turn_joint(d1, REAL_ZERO, REAL_HALF_PI),
            full_turn_joint(REAL_ZERO, a2, REAL_ZERO),
            full_turn_joint(REAL_ZERO, a3, REAL_HALF_PI),
            full_turn_joint(d4, REAL_ZERO, REAL_MINUS_HALF_PI),
            full_turn_joint(REAL_ZERO, REAL_ZERO, REAL_HALF_PI),
            full_turn_joint(d6, REAL_ZERO, REAL_ZERO),
        ],
{
    let mut joints: Vec<Joint> = Vec::new();
    joints.push(full_turn(d1, REAL_ZERO, REAL_HALF_PI));
    joints.push(full_turn(REAL_ZERO, a2, REAL_ZERO));
    joints.push(full_turn(REAL_ZERO, a3, REAL_HALF_PI));
    joints.push(full_turn(d4, REAL_ZERO, REAL_MINUS_HALF_PI));
    joints.push(full_turn(REAL_ZERO, REAL_ZERO, REAL_HALF_PI));
    joints.push(full_turn(d6, REAL_ZERO, REAL_ZERO));
    SerialChain::new(joints)
}

/// Build a SCARA robot (selective compliance assembly robot arm).
pub fn build_scara(l1: u64, l2: u64, d_range: (u64, u64)) -> (c: SerialChain)
    ensures
        c.base == identity_transform(),
        c.joints@ == seq![
            full_turn_joint(REAL_ZERO, l1, REAL_ZERO),
            full_turn_joint(REAL_ZERO, l2, REAL_PI),
            slide_joint(REAL_ZERO, d_range.0, d_range.1),
            full_turn_joint(REAL_ZERO, REAL_ZERO, REAL_ZERO),
        ],
{
    let mut joints: Vec<Joint> = Vec::new();
    joints.push(full_turn(REAL_ZERO, l1, REAL_ZERO));
    joints.push(full_turn(REAL_ZERO, l2, REAL_PI));
    joints.push(Joint::prismatic(DHParam::new(REAL_ZERO, REAL_ZERO, REAL_ZERO, REAL_ZERO), d_range.0, d_range.1));
    joints.push(full_turn(REAL_ZERO, REAL_ZERO, REAL_ZERO));
    SerialChain::new(joints)
}



/// A parallel kinematic mechanism: serial chains (legs) sharing a base and
/// an end-effector platform.
#[derive(Debug, Clone)]
pub struct ParallelChain {
    /// The individual serial chains (legs).
    pub legs: Vec<SerialChain>,
    /// Platform attachment points in the platform frame.
    pub platform_points: Vec<[u64; 3]>,
}

impl ParallelChain {
    /// Create a new parallel mechanism.
    pub fn new(legs: Vec<SerialChain>, platform_points: Vec<[u64; 3]>) -> (c: Self)
        ensures
            c.legs@ == legs@,
            c.platform_points@ == platform_points@,
    {
        ParallelChain { legs, platform_points }
    }

    /// Number of legs.
    pub fn num_legs(&self) -> (n: usize)
        ensures
            n == self.legs@.len(),
    {
        self.legs.len()
    }

    /// Total degrees of freedom across all legs.
    pub fn total_dof(&self) -> (n: usize)
        requires
            legs_dof(self.legs@) <= usize::MAX,
        ensures
            n == legs_dof(self.legs@),
    {
        let mut n: usize = 0;
        let mut i: usize = 0;
        while i < self.legs.len()
            invariant
                i <= self.legs@.len(),
                legs_dof(self.legs@) <= usize::MAX,
                n == legs_dof(self.legs@.take(i as int)),
            decreases self.legs@.len() - i,
        {
            proof {
                assert(self.legs@.take(i + 1).drop_last() =~= self.legs@.take(i as int));
                lemma_legs_dof_prefix(self.legs@, i + 1);
            }
            n = n + self.legs[i].dof();
            i = i + 1;
        }
        assert(self.legs@.take(self.legs@.len() as int) =~= self.legs@);
        n
    }
}

// ══════════════════════════════════════════════════════════════════════════════
// Workspace sampling odometer
// ══════════════════════════════════════════════════════════════════════════════

/// The successor of a multi-index in base `samples`, the last digit
/// running fastest, and whether it wrapped around (all digits were at
/// their last value and are now zero).
pub open spec fn next_index(digits: Seq<usize>, samples: nat) -> (Seq<usize>, bool)
    decreases digits.len(),
{
    if digits.len() == 0 {
        (digits, true)
    } else if digits.last() + 1 < samples {
        (digits.drop_last().push((digits.last() + 1) as usize), false)
    } else {
        let (prefix, wrapped) = next_index(digits.drop_last(), samples);
        (prefix.push(0usize), wrapped)
    }
}

/// Advance the multi-index of a workspace scan to the next sample: the last
/// joint's index runs fastest and carries into the ones before it. Returns
/// `true` when the scan has wrapped around past the last sample.
pub fn advance_sample_index(indices: &mut Vec<usize>, samples: usize) -> (wrapped: bool)
    requires
        forall|k: int| 0 <= k < old(indices)@.len() ==> #[trigger] old(indices)@[k] < samples,
    ensures
        (final(indices)@, wrapped) == next_index(old(indices)@, samples as nat),
    decreases old(indices)@.len(),
{
    if indices.len() == 0 {
        return true;
    }
    let last = indices.len() - 1;
    if indices[last] + 1 < samples {
        let x = indices[last] + 1;
        indices.set(last, x);
        assert(indices@ =~= old(indices)@.drop_last().push(x));
        false
    } else {
        let mut prefix: Vec<usize> = Vec::new();
        let mut i: usize = 0;
        while i < last
            invariant
                last == old(indices)@.len() - 1,
                indices@ == old(indices)@,
                i <= last,
                prefix@ == old(indices)@.take(i as int),
            decreases last - i,
        {
            prefix.push(indices[i]);
            assert(prefix@ =~= old(indices)@.take(i + 1));
            i = i + 1;
        }
        assert(prefix@ =~= old(indices)@.drop_last());
        let wrapped = advance_sample_index(&mut prefix, samples);
        prefix.push(0);
        *indices = prefix;
        wrapped
    }
}

/// The number of sample points of a scan of `n` joints with `samples`
/// points per joint.
pub open spec fn sample_count(samples: nat, n: nat) -> nat
    decreases n,
{
    if n == 0 { 1 } else { samples * sample_count(samples, (n - 1) as nat) }
}

// ══════════════════════════════════════════════════════════════════════════════
// Mobility criteria
// ══════════════════════════════════════════════════════════════════════════════

/// Mobility of a planar mechanism by the Gruebler equation, over the integers.
pub open spec fn gruebler_spec(num_links: int, full_joints: int, half_joints: int) -> int {
    3 * (num_links - 1) - 2 * full_joints - half_joints
}

/// Whether an integer fits in `i32`.
pub open spec fn fits_i32(x: int) -> bool {
    i32::MIN <= x <= i32::MAX
}

/// Degrees of freedom of a planar mechanism (Gruebler equation):
/// `F = 3(n - 1) - 2 j1 - j2`, with `n` links, `j1` full joints and `j2`
/// half joints.
pub fn gruebler_planar(num_links: usize, full_joints: usize, half_joints: usize) -> (f: i32)
    requires
        num_links <= i32::MAX,
        full_joints <= i32::MAX,
        half_joints <= i32::MAX,
        fits_i32(3 * (num_links - 1)),
        fits_i32(2 * full_joints),
        fits_i32(3 * (num_links - 1) - 2 * full_joints),
        fits_i32(gruebler_spec(num_links as int, full_joints as int, half_joints as int)),
    ensures
        f == gruebler_spec(num_links as int, full_joints as int, half_joints as int),
{
    let n = num_links as i32;
    let j1 = full_joints as i32;
    let j2 = half_joints as i32;
    3 * (n - 1) - 2 * j1 - j2
}

/// The constraint sum `Σ (6 - f_i)` of the Kutzbach criterion.
pub open spec fn kutzbach_constraints(joint_dofs: Seq<usize>) -> int
    decreases joint_dofs.len(),
{
    if joint_dofs.len() == 0 {
        0
    } else {
        kutzbach_constraints(joint_dofs.drop_last()) + (6 - joint_dofs.last())
    }
}

/// Mobility of a spatial mechanism by the Kutzbach criterion, over the integers.
pub open spec fn kutzbach_spec(num_links: int, joint_dofs: Seq<usize>) -> int {
    6 * (num_links - 1) - kutzbach_constraints(joint_dofs)
}

/// Mobility (degrees of freedom) of a spatial mechanism by the Kutzbach
/// criterion: `F = 6(n - 1) - Σ (6 - f_i)`, with `n` links and `f_i` the
/// degrees of freedom of joint `i`.
pub fn kutzbach_spatial(num_links: usize, joint_dofs: &[usize]) -> (f: i32)
    requires
        num_links <= i32::MAX,
        fits_i32(6 * (num_links - 1)),
        forall|k: int| 0 <= k < joint_dofs@.len() ==> #[trigger] joint_dofs@[k] <= i32::MAX,
        forall|k: int| 0 <= k <= joint_dofs@.len() ==> fits_i32(#[trigger] kutzbach_constraints(joint_dofs@.take(k))),
        fits_i32(kutzbach_spec(num_links as int, joint_dofs@)),
    ensures
        f == kutzbach_spec(num_links as int, joint_dofs@),
{
    let n = num_links as i32;
    let mut constraint_sum: i32 = 0;
    let mut i: usize = 0;
    while i < joint_dofs.len()
        invariant
            i <= joint_dofs@.len(),
            forall|k: int| 0 <= k < joint_dofs@.len() ==> #[trigger] joint_dofs@[k] <= i32::MAX,
            forall|k: int| 0 <= k <= joint_dofs@.len() ==> fits_i32(#[trigger] kutzbach_constraints(joint_dofs@.take(k))),
            constraint_sum == kutzbach_constraints(joint_dofs@.take(i as int)),
        decreases joint_dofs@.len() - i,
    {
        assert(joint_dofs@.take(i + 1).drop_last() =~= joint_dofs@.take(i as int));
        assert(fits_i32(kutzbach_constraints(joint_dofs@.take(i + 1))));
        let fi = joint_dofs[i] as i32;
        constraint_sum = constraint_sum + (6 - fi);
        i = i + 1;
    }
    assert(joint_dofs@.take(joint_dofs@.len() as int) =~= joint_dofs@);
    6 * (n - 1) - constraint_sum
}

// ══════════════════════════════════════════════════════════════════════════════
// Laws
// ══════════════════════════════════════════════════════════════════════════════

proof fn lemma_assign_drop_last(js: Seq<Joint>, v: JointVar, vals: Seq<u64>)
    requires
        js.len() > 0,
    ensures
        assign_var(js, v, vals).drop_last() == assign_var(js.drop_last(), v, vals),
{
    let a = assign_var(js, v, vals).drop_last();
    let b = assign_var(js.drop_last(), v, vals);
    assert forall|i: int| 0 <= i < a.len() implies a[i] == b[i] by {
        assert(js.take(i) =~= js.drop_last().take(i));
    }
    assert(a =~= b);
}

proof fn lemma_assign_keeps_kinds(js: Seq<Joint>, v: JointVar, vals: Seq<u64>)
    ensures
        movable_count(assign_var(js, v, vals)) == movable_count(js),
    decreases js.len(),
{
    if js.len() > 0 {
        lemma_assign_drop_last(js, v, vals);
        lemma_assign_keeps_kinds(js.drop_last(), v, vals);
        assert(js.take(js.len() - 1) =~= js.drop_last());
    }
}

proof fn lemma_gather_assign(js: Seq<Joint>, v: JointVar, vals: Seq<u64>)
    requires
        movable_count(js) <= vals.len(),
    ensures
        gather_var(assign_var(js, v, vals), v) == vals.take(movable_count(js) as int),
    decreases js.len(),
{
    if js.len() == 0 {
        assert(vals.take(0) =~= Seq::<u64>::empty());
    } else {
        let a = assign_var(js, v, vals);
        lemma_assign_drop_last(js, v, vals);
        lemma_gather_assign(js.drop_last(), v, vals);
        assert(js.take(js.len() - 1) =~= js.drop_last());
        let r = movable_count(js.drop_last());
        if is_movable(js.last()) {
            assert(a.last() == with_var(js.last(), v, vals[r as int]));
            assert(vals.take((r + 1) as int) =~= vals.take(r as int).push(vals[r as int]));
        }
    }
}

/// Reading back the joint variables after setting them from a vector with
/// one value per degree of freedom gives that vector, for positions,
/// velocities and accelerations alike; the number of degrees of freedom is
/// unchanged.
pub proof fn law_set_then_get_joint_vars(js: Seq<Joint>, v: JointVar, vals: Seq<u64>)
    requires
        vals.len() == movable_count(js),
    ensures
        gather_var(assign_var(js, v, vals), v) == vals,
        movable_count(assign_var(js, v, vals)) == movable_count(js),
{
    lemma_gather_assign(js, v, vals);
    assert(vals.take(vals.len() as int) =~= vals);
    lemma_assign_keeps_kinds(js, v, vals);
}

/// A chain never has more degrees of freedom than joints.
pub proof fn law_dof_at_most_joints(js: Seq<Joint>)
    ensures
        movable_count(js) <= js.len(),
{
    lemma_movable_count_bound(js);
}

/// With single-degree-of-freedom joints only (revolute or prismatic), the
/// Kutzbach criterion reduces to `F = 6(n - 1) - 5 j`.
pub proof fn law_kutzbach_single_dof_joints(num_links: int, joint_dofs: Seq<usize>)
    requires
        forall|k: int| 0 <= k < joint_dofs.len() ==> #[trigger] joint_dofs[k] == 1,
    ensures
        kutzbach_spec(num_links, joint_dofs) == 6 * (num_links - 1) - 5 * joint_dofs.len(),
    decreases joint_dofs.len(),
{
    if joint_dofs.len() > 0 {
        law_kutzbach_single_dof_joints(num_links, joint_dofs.drop_last());
    }
}

/// The multi-index successor keeps the number of digits and every digit
/// below `samples`.
pub proof fn law_next_index_in_range(digits: Seq<usize>, samples: nat)
    requires
        samples > 0,
        forall|k: int| 0 <= k < digits.len() ==> #[trigger] digits[k] < samples,
    ensures
        next_index(digits, samples).0.len() == digits.len(),
        forall|k: int| 0 <= k < digits.len() ==> #[trigger] next_index(digits, samples).0[k] < samples,
    decreases digits.len(),
{
    if digits.len() > 0 && digits.last() + 1 >= samples {
        law_next_index_in_range(digits.drop_last(), samples);
    }
}

} // verus!

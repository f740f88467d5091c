//! Rigid bodies, colliders and joints, and the handle-based collections that
//! hold them.
//!
//! Real quantities are bit patterns (see `crate::scalars`). Everything here is
//! bookkeeping: handle allocation, slot reuse, lookup, filtering and the
//! decisions that gate the force and integration code kept outside.

use vstd::prelude::*;
use crate::scalars::{REAL_ZERO, REAL_ONE, REAL_0_01, REAL_0_3, REAL_0_5, REAL_0_05, REAL_MINUS_9_81, REAL_INFINITY, REAL_NEG_INFINITY};
use crate::seqs::{first_index, lemma_first_index, lemma_first_index_bounds, somes, lemma_somes_len_update, lemma_somes_len_bound, lemma_somes_take_step};

verus! {

// ─────────────────────────────────────────────────────────────────────────────
// Shapes
// ─────────────────────────────────────────────────────────────────────────────

/// Collider shape variants supported by the physics engine.
#[derive(Debug, Clone, Copy)]
pub enum PyShapeType {
    /// Sphere defined by radius.
    Sphere {
        /// Sphere radius in metres.
        radius: u64,
    },
    /// Axis-aligned box defined by half-extents.
    Box {
        /// Half-extents `[hx, hy, hz]` in metres.
        half_extents: [u64; 3],
    },
    /// Capsule (cylinder capped by two hemispheres).
    Capsule {
        /// Capsule half-height (cylinder portion) in metres.
        half_height: u64,
        /// Capsule radius in metres.
        radius: u64,
    },
}

// ─────────────────────────────────────────────────────────────────────────────
// PyRigidBody
// ─────────────────────────────────────────────────────────────────────────────

/// A rigid body with full kinematic and dynamic state.
///
/// The orientation quaternion uses convention `[x, y, z, w]`.
#[derive(Debug, Clone, Copy)]
pub struct PyRigidBody {
    /// Unique handle for this body.
    pub id: u32,
    /// Mass in kilograms. Zero means static.
    pub mass: u64,
    /// Diagonal inertia tensor `[Ixx, Iyy, Izz]`.
    pub inertia: [u64; 3],
    /// World-space position `[x, y, z]`.
    pub position: [u64; 3],
    /// Orientation quaternion `[x, y, z, w]`.
    pub orientation: [u64; 4],
    /// Linear velocity `[vx, vy, vz]`.
    pub velocity: [u64; 3],
    /// Angular velocity `[wx, wy, wz]`.
    pub ang_vel: [u64; 3],
    /// Accumulated force buffer `[fx, fy, fz]`.
    pub accumulated_force: [u64; 3],
    /// Accumulated torque buffer `[tx, ty, tz]`.
    pub accumulated_torque: [u64; 3],
    /// Whether the body is sleeping.
    pub sleeping: bool,
    /// Whether the body is static (immovable).
    pub is_static: bool,
    /// Whether the body is kinematic (user-controlled velocity).
    pub is_kinematic: bool,
    /// Linear damping coefficient.
    pub linear_damping: u64,
    /// Angular damping coefficient.
    pub angular_damping: u64,
}

/// The identity quaternion `[0, 0, 0, 1]`.
pub open spec fn identity_quaternion() -> [u64; 4] {
    [REAL_ZERO, REAL_ZERO, REAL_ZERO, REAL_ONE]
}

/// A freshly created dynamic body: at rest, awake, dynamic, with the
/// default damping of 0.01 and identity orientation.
pub open spec fn fresh_body(id: u32, mass: u64, inertia: u64, position: [u64; 3]) -> PyRigidBody {
    PyRigidBody {
        id,
        mass,
        inertia: [inertia, inertia, inertia],
        position,
        orientation: identity_quaternion(),
        velocity: [REAL_ZERO, REAL_ZERO, REAL_ZERO],
        ang_vel: [REAL_ZERO, REAL_ZERO, REAL_ZERO],
        accumulated_force: [REAL_ZERO, REAL_ZERO, REAL_ZERO],
        accumulated_torque: [REAL_ZERO, REAL_ZERO, REAL_ZERO],
        sleeping: false,
        is_static: false,
        is_kinematic: false,
        linear_damping: REAL_0_01,
        angular_damping: REAL_0_01,
    }
}

impl PyRigidBody {
    /// Create a new dynamic rigid body. `inertia` is the diagonal inertia
    /// component shared by all three axes (one tenth of the mass).
    pub fn new(id: u32, mass: u64, inertia: u64, position: [u64; 3]) -> (b: Self)
        ensures
            b == fresh_body(id, mass, inertia, position),
    {
        PyRigidBody {
            id,
            mass,
            inertia: [inertia, inertia, inertia],
            position,
            orientation: [REAL_ZERO, REAL_ZERO, REAL_ZERO, REAL_ONE],
            velocity: [REAL_ZERO, REAL_ZERO, REAL_ZERO],
            ang_vel: [REAL_ZERO, REAL_ZERO, REAL_ZERO],
            accumulated_force: [REAL_ZERO, REAL_ZERO, REAL_ZERO],
            accumulated_torque: [REAL_ZERO, REAL_ZERO, REAL_ZERO],
            sleeping: false,
            is_static: false,
            is_kinematic: false,
            linear_damping: REAL_0_01,
            angular_damping: REAL_0_01,
        }
    }

    /// Create a static body (zero mass, zero inertia, immovable).
    pub fn new_static(id: u32, position: [u64; 3]) -> (b: Self)
        ensures
            b == (PyRigidBody { is_static: true, ..fresh_body(id, REAL_ZERO, REAL_ZERO, position) }),
    {
        let mut b = Self::new(id, REAL_ZERO, REAL_ZERO, position);
        b.is_static = true;
        b
    }

    /// Create a kinematic body.
    pub fn new_kinematic(id: u32, mass: u64, inertia: u64, position: [u64; 3]) -> (b: Self)
        ensures
            b == (PyRigidBody { is_kinematic: true, ..fresh_body(id, mass, inertia, position) }),
    {
        let mut b = Self::new(id, mass, inertia, position);
        b.is_kinematic = true;
        b
    }

    /// Whether applied forces and torques accumulate on this body: they are
    /// ignored by static and by sleeping bodies.
    pub fn accepts_force(&self) -> (r: bool)
        ensures
            r == (!self.is_static && !self.sleeping),
    {
        !self.is_static && !self.sleeping
    }

    /// Whether time integration moves this body: static, kinematic and
    /// sleeping bodies are left in place.
    pub fn is_integrated(&self) -> (r: bool)
        ensures
            r == (!self.is_static && !self.is_kinematic && !self.sleeping),
    {
        !self.is_static && !self.is_kinematic && !self.sleeping
    }

    /// Clear accumulated forces and torques.
    pub fn clear_forces(&mut self)
        ensures
            *final(self) == (PyRigidBody {
                accumulated_force: [REAL_ZERO, REAL_ZERO, REAL_ZERO],
                accumulated_torque: [REAL_ZERO, REAL_ZERO, REAL_ZERO],
                ..*old(self)
            }),
    {
        self.accumulated_force = [REAL_ZERO, REAL_ZERO, REAL_ZERO];
        self.accumulated_torque = [REAL_ZERO, REAL_ZERO, REAL_ZERO];
    }
}

// ─────────────────────────────────────────────────────────────────────────────
// PyRigidBodySet
// ─────────────────────────────────────────────────────────────────────────────

/// Slot predicate: the slot is free.
pub open spec fn free_slot<T>() -> spec_fn(Option<T>) -> bool {
    |o: Option<T>| o is None
}

/// Slot predicate: the slot holds a body with handle `id`.
pub open spec fn body_slot(id: u32) -> spec_fn(Option<PyRigidBody>) -> bool {
    |o: Option<PyRigidBody>| o matches Some(b) && b.id == id
}

/// The slots after storing `b` in the first free slot of `s`, or after a new
/// slot at the end if none is free.
pub open spec fn store_in_first_free<T>(s: Seq<Option<T>>, b: T) -> Seq<Option<T>> {
    let k = first_index(s, free_slot::<T>());
    if k < s.len() {
        s.update(k, Some(b))
    } else {
        s.push(Some(b))
    }
}

/// The body of slot `s[k]`, or `None` when `k` is past the end.
pub open spec fn slot_at<T>(s: Seq<Option<T>>, k: int) -> Option<T> {
    if 0 <= k < s.len() { s[k] } else { None }
}

/// Number of bodies in `bodies` that are sleeping.
pub open spec fn count_sleeping(bodies: Seq<PyRigidBody>) -> nat
    decreases bodies.len(),
{
    if bodies.len() == 0 {
        0
    } else {
        count_sleeping(bodies.drop_last()) + if bodies.last().sleeping { 1nat } else { 0nat }
    }
}

proof fn lemma_count_sleeping_bound(bodies: Seq<PyRigidBody>)
    ensures
        count_sleeping(bodies) <= bodies.len(),
    decreases bodies.len(),
{
    if bodies.len() > 0 {
        lemma_count_sleeping_bound(bodies.drop_last());
    }
}

/// Whether the slot holds a body with handle `id`.
fn slot_holds(slot: &Option<PyRigidBody>, id: u32) -> (r: bool)
    ensures
        r == (body_slot(id))(*slot),
{
    match slot {
        Some(b) => b.id == id,
        None => false,
    }
}

/// A collection of rigid bodies addressed by handle. Removing a body frees its
/// slot, and the next body added takes the first free slot. The number of
/// bodies is counted from the slots, so the set keeps no invariant between
/// its fields.
#[derive(Debug)]
pub struct PyRigidBodySet {
    bodies: Vec<Option<PyRigidBody>>,
    next_id: u32,
}

impl PyRigidBodySet {
    /// The slots of the set, in storage order; `None` marks a free slot.
    pub closed spec fn slots(&self) -> Seq<Option<PyRigidBody>> {
        self.bodies@
    }

    /// The handle that the next added body receives.
    pub closed spec fn next_handle(&self) -> u32 {
        self.next_id
    }

    /// The bodies of the set, in slot order.
    pub open spec fn live(&self) -> Seq<PyRigidBody> {
        somes(self.slots())
    }

    /// Create an empty set.
    pub fn new() -> (s: Self)
        ensures
            s.slots() == Seq::<Option<PyRigidBody>>::empty(),
            s.next_handle() == 0,
    {
        PyRigidBodySet { bodies: Vec::new(), next_id: 0 }
    }

    /// The handle that the next added body receives.
    pub fn next_handle_value(&self) -> (n: u32)
        ensures
            n == self.next_handle(),
    {
        self.next_id
    }

    /// Add a body; it receives the next handle, which is returned.
    pub fn add(&mut self, body: PyRigidBody) -> (id: u32)
        requires
            old(self).next_handle() < u32::MAX,
        ensures
            id == old(self).next_handle(),
            final(self).next_handle() == old(self).next_handle() + 1,
            final(self).slots() == store_in_first_free(old(self).slots(), PyRigidBody { id, ..body }),
    {
        let id = self.next_id;
        self.next_id = self.next_id + 1;
        let mut body = body;
        body.id = id;
        let ghost s = self.bodies@;
        let mut i: usize = 0;
        while i < self.bodies.len() && self.bodies[i].is_some()
            invariant
                self.bodies@ == s,
                0 <= i <= s.len(),
                forall|j: int| 0 <= j < i ==> !(free_slot::<PyRigidBody>())(#[trigger] s[j]),
            decreases s.len() - i,
        {
            i = i + 1;
        }
        proof {
            lemma_first_index(s, free_slot::<PyRigidBody>(), i as int);
        }
        if i < self.bodies.len() {
            self.bodies.set(i, Some(body));
        } else {
            self.bodies.push(Some(body));
        }
        id
    }

    /// Remove the first body with handle `id`. Returns `true` if one was found.
    pub fn remove(&mut self, id: u32) -> (found: bool)
        ensures
            final(self).next_handle() == old(self).next_handle(),
            found == (first_index(old(self).slots(), body_slot(id)) < old(self).slots().len()),
            final(self).slots() == if found {
                old(self).slots().update(first_index(old(self).slots(), body_slot(id)), None)
            } else {
                old(self).slots()
            },
    {
        let k = self.find(id);
        proof { lemma_first_index_bounds(self.bodies@, body_slot(id)); }
        if k < self.bodies.len() {
            self.bodies.set(k, None);
            true
        } else {
            false
        }
    }

    /// Index of the first slot holding a body with handle `id`, if any.
    fn find(&self, id: u32) -> (k: usize)
        ensures
            k == first_index(self.slots(), body_slot(id)),
            k <= self.slots().len(),
    {
        let ghost s = self.bodies@;
        let mut i: usize = 0;
        while i < self.bodies.len() && !slot_holds(&self.bodies[i], id)
            invariant
                self.bodies@ == s,
                0 <= i <= s.len(),
                forall|j: int| 0 <= j < i ==> !(body_slot(id))(#[trigger] s[j]),
            decreases s.len() - i,
        {
            i = i + 1;
        }
        proof { lemma_first_index(s, body_slot(id), i as int); }
        i
    }

    /// The first body with handle `id`, if any.
    pub fn get(&self, id: u32) -> (r: Option<&PyRigidBody>)
        ensures
            r matches Some(b) ==> Some(*b) == slot_at(self.slots(), first_index(self.slots(), body_slot(id))),
            r is None <==> first_index(self.slots(), body_slot(id)) == self.slots().len(),
    {
        let k = self.find(id);
        proof { lemma_first_index_bounds(self.bodies@, body_slot(id)); }
        if k < self.bodies.len() {
            self.bodies[k].as_ref()
        } else {
            None
        }
    }

    /// Mutable access to the first body with handle `id`, if any. The slot
    /// afterwards holds whatever the caller leaves in the body.
    pub fn get_mut(&mut self, id: u32) -> (r: Option<&mut PyRigidBody>)
        ensures
            final(self).next_handle() == old(self).next_handle(),
            ({
                let k = first_index(old(self).slots(), body_slot(id));
                match r {
                    Some(b) => {
                        &&& k < old(self).slots().len()
                        &&& Some(*b) == old(self).slots()[k]
                        &&& final(self).slots() == old(self).slots().update(k, Some(*final(b)))
                    },
                    None => {
                        &&& k == old(self).slots().len()
                        &&& final(self).slots() == old(self).slots()
                    },
                }
            }),
    {
        let k = self.find(id);
        if k < self.bodies.len() {
            proof { lemma_first_index_bounds(self.bodies@, body_slot(id)); }
            self.bodies[k].as_mut()
        } else {
            None
        }
    }

    /// Number of bodies.
    pub fn len(&self) -> (n: usize)
        ensures
            n == self.live().len(),
    {
        let ghost s = self.bodies@;
        let mut n: usize = 0;
        let mut i: usize = 0;
        while i < self.bodies.len()
            invariant
                self.bodies@ == s,
                0 <= i <= s.len(),
                n == somes(s.take(i as int)).len(),
            decreases s.len() - i,
        {
            proof {
                lemma_somes_take_step(s, i as int);
                lemma_somes_len_bound(s.take(i as int));
            }
            if self.bodies[i].is_some() {
                n = n + 1;
            }
            i = i + 1;
        }
        assert(s.take(s.len() as int) =~= s);
        n
    }

    /// True when no bodies exist.
    pub fn is_empty(&self) -> (e: bool)
        ensures
            e == (self.live().len() == 0),
    {
        self.len() == 0
    }

    /// The bodies of the set, in slot order.
    pub fn iter(&self) -> (r: Vec<&PyRigidBody>)
        ensures
            r@.len() == self.live().len(),
            forall|i: int| 0 <= i < r@.len() ==> *r@[i] == self.live()[i],
    {
        let ghost s = self.bodies@;
        let mut r: Vec<&PyRigidBody> = Vec::new();
        let mut i: usize = 0;
        while i < self.bodies.len()
            invariant
                self.bodies@ == s,
                0 <= i <= s.len(),
                r@.len() == somes(s.take(i as int)).len(),
                forall|j: int| 0 <= j < r@.len() ==> *r@[j] == somes(s.take(i as int))[j],
            decreases s.len() - i,
        {
            proof { lemma_somes_take_step(s, i as int); }
            match &self.bodies[i] {
                Some(b) => { r.push(b); },
                None => {},
            }
            i = i + 1;
        }
        assert(s.take(s.len() as int) =~= s);
        r
    }

    /// Position of the first body with handle `id`.
    pub fn get_position(&self, id: u32) -> (p: Option<[u64; 3]>)
        ensures
            p == (match slot_at(self.slots(), first_index(self.slots(), body_slot(id))) {
                Some(b) => Some(b.position),
                None => None,
            }),
    {
        proof { lemma_first_index_bounds(self.slots(), body_slot(id)); }
        match self.get(id) {
            Some(b) => Some(b.position),
            None => None,
        }
    }

    /// Velocity of the first body with handle `id`.
    pub fn get_velocity(&self, id: u32) -> (v: Option<[u64; 3]>)
        ensures
            v == (match slot_at(self.slots(), first_index(self.slots(), body_slot(id))) {
                Some(b) => Some(b.velocity),
                None => None,
            }),
    {
        proof { lemma_first_index_bounds(self.slots(), body_slot(id)); }
        match self.get(id) {
            Some(b) => Some(b.velocity),
            None => None,
        }
    }

    /// Number of sleeping bodies.
    pub fn sleeping_count(&self) -> (n: usize)
        ensures
            n == count_sleeping(self.live()),
    {
        let ghost s = self.bodies@;
        let mut n: usize = 0;
        let mut i: usize = 0;
        while i < self.bodies.len()
            invariant
                self.bodies@ == s,
                0 <= i <= s.len(),
                n == count_sleeping(somes(s.take(i as int))),
            decreases s.len() - i,
        {
            proof {
                lemma_somes_take_step(s, i as int);
                lemma_count_sleeping_bound(somes(s.take(i as int)));
                lemma_somes_len_bound(s.take(i as int));
            }
            match &self.bodies[i] {
                Some(b) => {
                    let ghost before = somes(s.take(i as int));
                    assert(somes(s.take(i + 1)).drop_last() == before);
                    if b.sleeping {
                        n = n + 1;
                    }
                },
                None => {},
            }
            i = i + 1;
        }
        assert(s.take(s.len() as int) =~= s);
        n
    }

    /// Number of awake bodies.
    pub fn awake_count(&self) -> (n: usize)
        ensures
            n == self.live().len() - count_sleeping(self.live()),
    {
        proof { lemma_count_sleeping_bound(self.live()); }
        self.len() - self.sleeping_count()
    }
}


// ─────────────────────────────────────────────────────────────────────────────
// Laws of the body set
// ─────────────────────────────────────────────────────────────────────────────

/// A body added under a handle that no present body carries is what a lookup
/// of that handle finds afterwards.
pub proof fn law_add_then_get(s: Seq<Option<PyRigidBody>>, b: PyRigidBody)
    requires
        forall|j: int| 0 <= j < s.len() ==> !(body_slot(b.id))(#[trigger] s[j]),
    ensures
        ({
            let t = store_in_first_free(s, b);
            slot_at(t, first_index(t, body_slot(b.id))) == Some(b)
        }),
{
    let k = first_index(s, free_slot::<PyRigidBody>());
    lemma_first_index_bounds(s, free_slot::<PyRigidBody>());
    let t = store_in_first_free(s, b);
    assert forall|j: int| 0 <= j < k implies !(body_slot(b.id))(#[trigger] t[j]) by {
        assert(t[j] == s[j]);
    }
    lemma_first_index(t, body_slot(b.id), k);
}

/// Removing the only body with a handle leaves no body with that handle.
pub proof fn law_remove_then_get(s: Seq<Option<PyRigidBody>>, id: u32, k: int)
    requires
        0 <= k < s.len(),
        (body_slot(id))(s[k]),
        forall|j: int| 0 <= j < s.len() && j != k ==> !(body_slot(id))(#[trigger] s[j]),
    ensures
        first_index(s, body_slot(id)) == k,
        ({
            let t = s.update(k, None);
            first_index(t, body_slot(id)) == t.len()
        }),
{
    lemma_first_index(s, body_slot(id), k);
    let t = s.update(k, None);
    assert forall|j: int| 0 <= j < t.len() implies !(body_slot(id))(#[trigger] t[j]) by {
        if j != k {
            assert(t[j] == s[j]);
        }
    }
    lemma_first_index(t, body_slot(id), t.len() as int);
}

/// Adding a body after a removal reuses a freed slot: the number of slots
/// does not grow while a slot is free.
pub proof fn law_freed_slot_is_reused<T>(s: Seq<Option<T>>, k: int, b: T)
    requires
        0 <= k < s.len(),
        s[k] is None,
    ensures
        store_in_first_free(s, b).len() == s.len(),
        somes(store_in_first_free(s, b)).len() == somes(s).len() + 1,
{
    lemma_first_index_bounds(s, free_slot::<T>());
    if first_index(s, free_slot::<T>()) == s.len() {
        assert((free_slot::<T>())(s[k]));
        assert(false);
    }
    lemma_somes_len_update(s, first_index(s, free_slot::<T>()), Some(b));
}

/// Every body is either sleeping or awake: the awake count never underflows
/// and, with the sleeping count, makes up the whole set.
pub proof fn law_awake_and_sleeping_partition(bodies: Seq<PyRigidBody>)
    ensures
        count_sleeping(bodies) <= bodies.len(),
        (bodies.len() - count_sleeping(bodies)) + count_sleeping(bodies) == bodies.len(),
{
    lemma_count_sleeping_bound(bodies);
}

// ─────────────────────────────────────────────────────────────────────────────
// PyCollider, contacts, rays
// ─────────────────────────────────────────────────────────────────────────────

/// A collider attached to a rigid body.
#[derive(Debug, Clone, Copy)]
pub struct PyCollider {
    /// Unique collider handle.
    pub id: u32,
    /// Parent body handle.
    pub body_id: u32,
    /// Shape of this collider.
    pub shape: PyShapeType,
    /// Coefficient of friction (Coulomb model).
    pub friction: u64,
    /// Coefficient of restitution (bounciness 0..=1).
    pub restitution: u64,
    /// When `true`, the collider fires overlap events but does not generate
    /// contact forces.
    pub is_sensor: bool,
    /// Local offset from body centre `[x, y, z]`.
    pub local_offset: [u64; 3],
    /// Local orientation quaternion `[x, y, z, w]`.
    pub local_orientation: [u64; 4],
}

/// A collider with the default surface: friction 0.5, restitution 0.3, not a
/// sensor, no local offset or rotation.
pub open spec fn default_collider(id: u32, body_id: u32, shape: PyShapeType) -> PyCollider {
    PyCollider {
        id,
        body_id,
        shape,
        friction: REAL_0_5,
        restitution: REAL_0_3,
        is_sensor: false,
        local_offset: [REAL_ZERO, REAL_ZERO, REAL_ZERO],
        local_orientation: identity_quaternion(),
    }
}

impl PyCollider {
    /// Create a sphere collider.
    pub fn sphere(id: u32, body_id: u32, radius: u64) -> (c: Self)
        ensures
            c == default_collider(id, body_id, PyShapeType::Sphere { radius }),
    {
        Self::with_shape(id, body_id, PyShapeType::Sphere { radius })
    }

    /// Create a box collider.
    pub fn box_collider(id: u32, body_id: u32, half_extents: [u64; 3]) -> (c: Self)
        ensures
            c == default_collider(id, body_id, PyShapeType::Box { half_extents }),
    {
        Self::with_shape(id, body_id, PyShapeType::Box { half_extents })
    }

    /// Create a capsule collider.
    pub fn capsule(id: u32, body_id: u32, half_height: u64, radius: u64) -> (c: Self)
        ensures
            c == default_collider(id, body_id, PyShapeType::Capsule { half_height, radius }),
    {
        Self::with_shape(id, body_id, PyShapeType::Capsule { half_height, radius })
    }

    fn with_shape(id: u32, body_id: u32, shape: PyShapeType) -> (c: Self)
        ensures
            c == default_collider(id, body_id, shape),
    {
        PyCollider {
            id,
            body_id,
            shape,
            friction: REAL_0_5,
            restitution: REAL_0_3,
            is_sensor: false,
            local_offset: [REAL_ZERO, REAL_ZERO, REAL_ZERO],
            local_orientation: [REAL_ZERO, REAL_ZERO, REAL_ZERO, REAL_ONE],
        }
    }

    /// Set as sensor (no contact response).
    pub fn as_sensor(self) -> (c: Self)
        ensures
            c == (PyCollider { is_sensor: true, ..self }),
    {
        let mut c = self;
        c.is_sensor = true;
        c
    }
}

/// A contact between two bodies.
#[derive(Debug, Clone, Copy)]
pub struct PyContact {
    /// First body handle.
    pub body_a: u32,
    /// Second body handle.
    pub body_b: u32,
    /// Contact point in world space.
    pub point: [u64; 3],
    /// Contact normal pointing from B to A.
    pub normal: [u64; 3],
    /// Penetration depth (positive = overlap).
    pub depth: u64,
    /// Magnitude of the contact impulse applied.
    pub impulse: u64,
}

/// Result of a ray-cast query.
#[derive(Debug, Clone, Copy)]
pub struct PyRayResult {
    /// Hit body handle.
    pub body_id: u32,
    /// Hit point in world space.
    pub point: [u64; 3],
    /// Surface normal at hit.
    pub normal: [u64; 3],
    /// Distance from ray origin to hit point.
    pub distance: u64,
}

// ─────────────────────────────────────────────────────────────────────────────
// Joints
// ─────────────────────────────────────────────────────────────────────────────

/// Supported joint types.
#[derive(Debug, Clone, Copy, PartialEq, Eq, Structural)]
pub enum PyJointType {
    /// Ball-and-socket joint (3 rotational DOF).
    Ball,
    /// Hinge joint (1 rotational DOF).
    Hinge,
    /// Slider / prismatic joint (1 translational DOF).
    Slider,
    /// Fixed joint (0 DOF).
    Fixed,
    /// Generic 6-DOF joint.
    Generic6Dof,
}

/// A joint connecting two bodies.
#[derive(Debug, Clone, Copy)]
pub struct PyJoint {
    /// Joint handle.
    pub id: u32,
    /// Joint type.
    pub joint_type: PyJointType,
    /// Body A handle.
    pub body_a: u32,
    /// Body B handle.
    pub body_b: u32,
    /// Anchor on body A in local space.
    pub anchor_a: [u64; 3],
    /// Anchor on body B in local space.
    pub anchor_b: [u64; 3],
    /// Axis for hinge/slider (body A local space).
    pub axis: [u64; 3],
    /// Lower limit (angle in radians for hinge, distance for slider).
    pub lower_limit: u64,
    /// Upper limit.
    pub upper_limit: u64,
    /// Motor target speed.
    pub motor_speed: u64,
    /// Motor maximum force/torque.
    pub motor_max_force: u64,
    /// Whether the motor is enabled.
    pub motor_enabled: bool,
    /// Last computed force on body A `[fx, fy, fz]`.
    pub reaction_force: [u64; 3],
    /// Last computed torque on body A `[tx, ty, tz]`.
    pub reaction_torque: [u64; 3],
}

/// A freshly created joint: axis +Y, unlimited, motor off, no reaction.
pub open spec fn fresh_joint(
    id: u32,
    joint_type: PyJointType,
    body_a: u32,
    body_b: u32,
    anchor_a: [u64; 3],
    anchor_b: [u64; 3],
) -> PyJoint {
    PyJoint {
        id,
        joint_type,
        body_a,
        body_b,
        anchor_a,
        anchor_b,
        axis: [REAL_ZERO, REAL_ONE, REAL_ZERO],
        lower_limit: REAL_NEG_INFINITY,
        upper_limit: REAL_INFINITY,
        motor_speed: REAL_ZERO,
        motor_max_force: REAL_ZERO,
        motor_enabled: false,
        reaction_force: [REAL_ZERO, REAL_ZERO, REAL_ZERO],
        reaction_torque: [REAL_ZERO, REAL_ZERO, REAL_ZERO],
    }
}

impl PyJoint {
    /// Create a new joint.
    pub fn new(
        id: u32,
        joint_type: PyJointType,
        body_a: u32,
        body_b: u32,
        anchor_a: [u64; 3],
        anchor_b: [u64; 3],
    ) -> (j: Self)
        ensures
            j == fresh_joint(id, joint_type, body_a, body_b, anchor_a, anchor_b),
    {
        PyJoint {
            id,
            joint_type,
            body_a,
            body_b,
            anchor_a,
            anchor_b,
            axis: [REAL_ZERO, REAL_ONE, REAL_ZERO],
            lower_limit: REAL_NEG_INFINITY,
            upper_limit: REAL_INFINITY,
            motor_speed: REAL_ZERO,
            motor_max_force: REAL_ZERO,
            motor_enabled: false,
            reaction_force: [REAL_ZERO, REAL_ZERO, REAL_ZERO],
            reaction_torque: [REAL_ZERO, REAL_ZERO, REAL_ZERO],
        }
    }

    /// Enable the motor.
    pub fn enable_motor(&mut self, speed: u64, max_force: u64)
        ensures
            *final(self) == (PyJoint {
                motor_enabled: true,
                motor_speed: speed,
                motor_max_force: max_force,
                ..*old(self)
            }),
    {
        self.motor_enabled = true;
        self.motor_speed = speed;
        self.motor_max_force = max_force;
    }

    /// Disable the motor.
    pub fn disable_motor(&mut self)
        ensures
            *final(self) == (PyJoint { motor_enabled: false, ..*old(self) }),
    {
        self.motor_enabled = false;
    }
}

/// Slot predicate: the slot holds a joint with handle `id`.
pub open spec fn joint_slot(id: u32) -> spec_fn(Option<PyJoint>) -> bool {
    |o: Option<PyJoint>| o matches Some(j) && j.id == id
}

fn joint_slot_holds(slot: &Option<PyJoint>, id: u32) -> (r: bool)
    ensures
        r == (joint_slot(id))(*slot),
{
    match slot {
        Some(j) => j.id == id,
        None => false,
    }
}

/// The JSON value type of `serde_json`, carried opaquely.
#[verifier::external_type_specification]
#[verifier::external_body]
pub struct ExJsonValue(serde_json::Value);

/// A collection of joints addressed by handle. New joints are appended;
/// removed joints leave a free slot behind.
#[derive(Debug)]
pub struct PyJointSet {
    joints: Vec<Option<PyJoint>>,
    next_id: u32,
}

impl PyJointSet {
    /// The slots of the set, in storage order; `None` marks a removed joint.
    pub closed spec fn slots(&self) -> Seq<Option<PyJoint>> {
        self.joints@
    }

    /// The handle that the next created joint receives.
    pub closed spec fn next_handle(&self) -> u32 {
        self.next_id
    }

    /// Create an empty joint set.
    pub fn new() -> (s: Self)
        ensures
            s.slots() == Seq::<Option<PyJoint>>::empty(),
            s.next_handle() == 0,
    {
        PyJointSet { joints: Vec::new(), next_id: 0 }
    }

    /// Create and add a joint; returns its handle. The extra parameters are
    /// accepted and not used.
    pub fn create_joint(
        &mut self,
        joint_type: PyJointType,
        body_a: u32,
        body_b: u32,
        anchor_a: [u64; 3],
        anchor_b: [u64; 3],
        _params: Option<serde_json::Value>,
    ) -> (id: u32)
        requires
            old(self).next_handle() < u32::MAX,
        ensures
            id == old(self).next_handle(),
            final(self).next_handle() == old(self).next_handle() + 1,
            final(self).slots() == old(self).slots().push(
                Some(fresh_joint(id, joint_type, body_a, body_b, anchor_a, anchor_b)),
            ),
    {
        let id = self.next_id;
        self.next_id = self.next_id + 1;
        let joint = PyJoint::new(id, joint_type, body_a, body_b, anchor_a, anchor_b);
        self.joints.push(Some(joint));
        id
    }

    fn find(&self, id: u32) -> (k: usize)
        ensures
            k == first_index(self.slots(), joint_slot(id)),
            k <= self.slots().len(),
    {
        let ghost s = self.joints@;
        let mut i: usize = 0;
        while i < self.joints.len() && !joint_slot_holds(&self.joints[i], id)
            invariant
                self.joints@ == s,
                0 <= i <= s.len(),
                forall|j: int| 0 <= j < i ==> !(joint_slot(id))(#[trigger] s[j]),
            decreases s.len() - i,
        {
            i = i + 1;
        }
        proof { lemma_first_index(s, joint_slot(id), i as int); }
        i
    }

    /// Remove the first joint with handle `id`. Returns `true` if found.
    pub fn remove(&mut self, id: u32) -> (found: bool)
        ensures
            final(self).next_handle() == old(self).next_handle(),
            found == (first_index(old(self).slots(), joint_slot(id)) < old(self).slots().len()),
            final(self).slots() == if found {
                old(self).slots().update(first_index(old(self).slots(), joint_slot(id)), None)
            } else {
                old(self).slots()
            },
    {
        let k = self.find(id);
        if k < self.joints.len() {
            self.joints.set(k, None);
            true
        } else {
            false
        }
    }

    /// The first joint with handle `id`, if any.
    pub fn get(&self, id: u32) -> (r: Option<&PyJoint>)
        ensures
            r matches Some(j) ==> Some(*j) == slot_at(self.slots(), first_index(self.slots(), joint_slot(id))),
            r is None <==> first_index(self.slots(), joint_slot(id)) == self.slots().len(),
    {
        let k = self.find(id);
        proof { lemma_first_index_bounds(self.joints@, joint_slot(id)); }
        if k < self.joints.len() {
            self.joints[k].as_ref()
        } else {
            None
        }
    }

    /// Mutable access to the first joint with handle `id`, if any.
    pub fn get_mut(&mut self, id: u32) -> (r: Option<&mut PyJoint>)
        ensures
            final(self).next_handle() == old(self).next_handle(),
            ({
                let k = first_index(old(self).slots(), joint_slot(id));
                match r {
                    Some(j) => {
                        &&& k < old(self).slots().len()
                        &&& Some(*j) == old(self).slots()[k]
                        &&& final(self).slots() == old(self).slots().update(k, Some(*final(j)))
                    },
                    None => {
                        &&& k == old(self).slots().len()
                        &&& final(self).slots() == old(self).slots()
                    },
                }
            }),
    {
        let k = self.find(id);
        proof { lemma_first_index_bounds(self.joints@, joint_slot(id)); }
        if k < self.joints.len() {
            self.joints[k].as_mut()
        } else {
            None
        }
    }

    /// Enable the motor of the first joint with handle `id`, with the given
    /// speed and maximum force. Returns `true` if the joint exists.
    pub fn set_motor(&mut self, id: u32, speed: u64, max_force: u64) -> (found: bool)
        ensures
            final(self).next_handle() == old(self).next_handle(),
            ({
                let k = first_index(old(self).slots(), joint_slot(id));
                &&& found == (k < old(self).slots().len())
                &&& final(self).slots() == if found {
                    old(self).slots().update(k, Some(PyJoint {
                        motor_enabled: true,
                        motor_speed: speed,
                        motor_max_force: max_force,
                        ..old(self).slots()[k]->0
                    }))
                } else {
                    old(self).slots()
                }
            }),
    {
        let k = self.find(id);
        proof { lemma_first_index_bounds(self.joints@, joint_slot(id)); }
        if k < self.joints.len() {
            let mut j = self.joints[k].unwrap();
            j.enable_motor(speed, max_force);
            self.joints.set(k, Some(j));
            true
        } else {
            false
        }
    }

    /// Reaction force and torque `(force, torque)` of the first joint with handle `id`.
    pub fn get_forces(&self, id: u32) -> (r: Option<([u64; 3], [u64; 3])>)
        ensures
            r == (match slot_at(self.slots(), first_index(self.slots(), joint_slot(id))) {
                Some(j) => Some((j.reaction_force, j.reaction_torque)),
                None => None,
            }),
    {
        proof { lemma_first_index_bounds(self.slots(), joint_slot(id)); }
        match self.get(id) {
            Some(j) => Some((j.reaction_force, j.reaction_torque)),
            None => None,
        }
    }

    /// Number of joints present.
    pub fn len(&self) -> (n: usize)
        ensures
            n == somes(self.slots()).len(),
    {
        let ghost s = self.joints@;
        let mut n: usize = 0;
        let mut i: usize = 0;
        while i < self.joints.len()
            invariant
                self.joints@ == s,
                0 <= i <= s.len(),
                n == somes(s.take(i as int)).len(),
            decreases s.len() - i,
        {
            proof {
                lemma_somes_take_step(s, i as int);
                lemma_somes_len_bound(s.take(i as int));
            }
            if self.joints[i].is_some() {
                n = n + 1;
            }
            i = i + 1;
        }
        assert(s.take(s.len() as int) =~= s);
        n
    }

    /// True if no joint is present.
    pub fn is_empty(&self) -> (e: bool)
        ensures
            e == (somes(self.slots()).len() == 0),
    {
        self.len() == 0
    }
}

// ─────────────────────────────────────────────────────────────────────────────
// PyWorld
// ─────────────────────────────────────────────────────────────────────────────

/// A self-contained physics world managing bodies, colliders, and joints.
/// The collision, contact-resolution and integration step, and the ray and
/// overlap queries, are computed on real numbers outside this library; the
/// world's handles and collections are kept here.
#[derive(Debug)]
pub struct PyWorld {
    /// All rigid bodies.
    pub bodies: PyRigidBodySet,
    /// All colliders, in creation order.
    pub colliders: Vec<PyCollider>,
    /// All joints.
    pub joints: PyJointSet,
    /// Gravity vector.
    pub gravity: [u64; 3],
    /// Contacts from last step.
    pub contacts: Vec<PyContact>,
    /// Elapsed simulation time.
    pub time: u64,
    /// Next collider id.
    pub next_collider_id: u32,
}

impl PyWorld {
    /// Create an empty world with the given gravity.
    pub fn new(gravity: [u64; 3]) -> (w: Self)
        ensures
            w.bodies.slots() == Seq::<Option<PyRigidBody>>::empty(),
            w.bodies.next_handle() == 0,
            w.colliders@ == Seq::<PyCollider>::empty(),
            w.joints.slots() == Seq::<Option<PyJoint>>::empty(),
            w.joints.next_handle() == 0,
            w.gravity == gravity,
            w.contacts@ == Seq::<PyContact>::empty(),
            w.time == REAL_ZERO,
            w.next_collider_id == 0,
    {
        PyWorld {
            bodies: PyRigidBodySet::new(),
            colliders: Vec::new(),
            joints: PyJointSet::new(),
            gravity,
            contacts: Vec::new(),
            time: REAL_ZERO,
            next_collider_id: 0,
        }
    }

    /// Create an empty world with Earth gravity `[0, -9.81, 0]`.
    pub fn earth_gravity() -> (w: Self)
        ensures
            w.bodies.slots() == Seq::<Option<PyRigidBody>>::empty(),
            w.bodies.next_handle() == 0,
            w.colliders@ == Seq::<PyCollider>::empty(),
            w.joints.slots() == Seq::<Option<PyJoint>>::empty(),
            w.joints.next_handle() == 0,
            w.gravity == [REAL_ZERO, REAL_MINUS_9_81, REAL_ZERO],
            w.contacts@ == Seq::<PyContact>::empty(),
            w.time == REAL_ZERO,
            w.next_collider_id == 0,
    {
        Self::new([REAL_ZERO, REAL_MINUS_9_81, REAL_ZERO])
    }

    /// Add a dynamic body; returns its handle. `inertia` is one tenth of the mass.
    pub fn create_body(&mut self, mass: u64, inertia: u64, position: [u64; 3]) -> (id: u32)
        requires
            old(self).bodies.next_handle() < u32::MAX,
        ensures
            id == old(self).bodies.next_handle(),
            final(self).bodies.next_handle() == old(self).bodies.next_handle() + 1,
            final(self).bodies.slots() == store_in_first_free(
                old(self).bodies.slots(),
                fresh_body(id, mass, inertia, position),
            ),
            final(self).colliders == old(self).colliders,
            final(self).next_collider_id == old(self).next_collider_id,
            final(self).joints == old(self).joints,
            final(self).gravity == old(self).gravity,
            final(self).contacts == old(self).contacts,
            final(self).time == old(self).time,
    {
        let body = PyRigidBody::new(0, mass, inertia, position);
        self.bodies.add(body)
    }

    /// Add a static body; returns its handle.
    pub fn create_static_body(&mut self, position: [u64; 3]) -> (id: u32)
        requires
            old(self).bodies.next_handle() < u32::MAX,
        ensures
            id == old(self).bodies.next_handle(),
            final(self).bodies.next_handle() == old(self).bodies.next_handle() + 1,
            final(self).bodies.slots() == store_in_first_free(
                old(self).bodies.slots(),
                PyRigidBody { is_static: true, ..fresh_body(id, REAL_ZERO, REAL_ZERO, position) },
            ),
            final(self).colliders == old(self).colliders,
            final(self).next_collider_id == old(self).next_collider_id,
            final(self).joints == old(self).joints,
            final(self).gravity == old(self).gravity,
            final(self).contacts == old(self).contacts,
            final(self).time == old(self).time,
    {
        let body = PyRigidBody::new_static(0, position);
        self.bodies.add(body)
    }

    /// Add a collider; it receives the next collider handle, which is returned.
    pub fn create_collider(&mut self, collider_desc: PyCollider) -> (id: u32)
        requires
            old(self).next_collider_id < u32::MAX,
        ensures
            id == old(self).next_collider_id,
            final(self).next_collider_id == old(self).next_collider_id + 1,
            final(self).colliders@ == old(self).colliders@.push(PyCollider { id, ..collider_desc }),
            final(self).bodies == old(self).bodies,
            final(self).joints == old(self).joints,
            final(self).gravity == old(self).gravity,
            final(self).contacts == old(self).contacts,
            final(self).time == old(self).time,
    {
        let id = self.next_collider_id;
        self.next_collider_id = self.next_collider_id + 1;
        let mut c = collider_desc;
        c.id = id;
        self.colliders.push(c);
        id
    }

    /// Contacts from the last step.
    pub fn get_contacts(&self) -> (c: &[PyContact])
        ensures
            c@ == self.contacts@,
    {
        self.contacts.as_slice()
    }

    /// The body pairs the collision step examines, by handle: every pair of
    /// bodies in slot order, the earlier one first, except pairs of two
    /// static bodies.
    pub fn candidate_pairs(&self) -> (pairs: Vec<(u32, u32)>)
        ensures
            pairs@ == candidate_pairs_spec(self.bodies.live(), self.bodies.live().len() as int),
    {
        let bs = self.bodies.iter();
        let ghost live = self.bodies.live();
        let n = bs.len();
        let mut pairs: Vec<(u32, u32)> = Vec::new();
        let mut i: usize = 0;
        while i < n
            invariant
                n == live.len(),
                bs@.len() == n,
                forall|k: int| 0 <= k < n ==> *bs@[k] == live[k],
                i <= n,
                pairs@ == candidate_pairs_spec(live, i as int),
            decreases n - i,
        {
            let ghost base = pairs@;
            let mut j: usize = i + 1;
            while j < n
                invariant
                    n == live.len(),
                    bs@.len() == n,
                    forall|k: int| 0 <= k < n ==> *bs@[k] == live[k],
                    i < n,
                    i + 1 <= j <= n,
                    pairs@ == base + pair_row(live, i as int, j as int),
                decreases n - j,
            {
                let a = bs[i];
                let c = bs[j];
                if !(a.is_static && c.is_static) {
                    pairs.push((a.id, c.id));
                }
                proof {
                    assert(pair_row(live, i as int, j + 1) == if live[i as int].is_static && live[j as int].is_static {
                        pair_row(live, i as int, j as int)
                    } else {
                        pair_row(live, i as int, j as int).push((live[i as int].id, live[j as int].id))
                    });
                }
                assert(pairs@ =~= base + pair_row(live, i as int, (j + 1) as int));
                j = j + 1;
            }
            i = i + 1;
        }
        pairs
    }
}

/// The collider pairs of collider `i` with the colliders after it, up to
/// (not including) position `m`, skipping colliders of the same body.
pub open spec fn collider_row(cs: Seq<PyCollider>, i: int, m: int) -> Seq<(usize, usize)>
    decreases m - i,
{
    if m <= i + 1 {
        Seq::empty()
    } else {
        let r = collider_row(cs, i, m - 1);
        if cs[i].body_id == cs[m - 1].body_id {
            r
        } else {
            r.push((i as usize, (m - 1) as usize))
        }
    }
}

/// The collider pairs whose first collider is one of the first `k`.
pub open spec fn collider_pairs_spec(cs: Seq<PyCollider>, k: int) -> Seq<(usize, usize)>
    decreases k,
{
    if k <= 0 {
        Seq::empty()
    } else {
        collider_pairs_spec(cs, k - 1) + collider_row(cs, k - 1, cs.len() as int)
    }
}

impl PyWorld {
    /// The collider pairs an overlap query examines, by position: every
    /// pair of colliders of different bodies in creation order, the earlier
    /// one first.
    pub fn collider_pairs(&self) -> (pairs: Vec<(usize, usize)>)
        ensures
            pairs@ == collider_pairs_spec(self.colliders@, self.colliders@.len() as int),
    {
        let n = self.colliders.len();
        let mut pairs: Vec<(usize, usize)> = Vec::new();
        let mut i: usize = 0;
        while i < n
            invariant
                n == self.colliders@.len(),
                i <= n,
                pairs@ == collider_pairs_spec(self.colliders@, i as int),
            decreases n - i,
        {
            let ghost base = pairs@;
            let mut j: usize = i + 1;
            while j < n
                invariant
                    n == self.colliders@.len(),
                    i < n,
                    i + 1 <= j <= n,
                    pairs@ == base + collider_row(self.colliders@, i as int, j as int),
                decreases n - j,
            {
                if self.colliders[i].body_id != self.colliders[j].body_id {
                    pairs.push((i, j));
                }
                assert(pairs@ =~= base + collider_row(self.colliders@, i as int, (j + 1) as int));
                j = j + 1;
            }
            i = i + 1;
        }
        pairs
    }
}

/// The candidate pairs of body `i` with the bodies after it, up to (not
/// including) position `m`, skipping pairs of two static bodies.
pub open spec fn pair_row(bs: Seq<PyRigidBody>, i: int, m: int) -> Seq<(u32, u32)>
    decreases m - i,
{
    if m <= i + 1 {
        Seq::empty()
    } else {
        let r = pair_row(bs, i, m - 1);
        if bs[i].is_static && bs[m - 1].is_static {
            r
        } else {
            r.push((bs[i].id, bs[m - 1].id))
        }
    }
}

/// The candidate pairs whose first body is one of the first `k` bodies, in
/// order of the first body and then of the second.
pub open spec fn candidate_pairs_spec(bs: Seq<PyRigidBody>, k: int) -> Seq<(u32, u32)>
    decreases k,
{
    if k <= 0 {
        Seq::empty()
    } else {
        candidate_pairs_spec(bs, k - 1) + pair_row(bs, k - 1, bs.len() as int)
    }
}

proof fn lemma_pair_row(bs: Seq<PyRigidBody>, i: int, m: int)
    requires
        0 <= i,
        m <= bs.len(),
    ensures
        forall|j: int| i < j < m && !(bs[i].is_static && bs[j].is_static)
            ==> #[trigger] pair_row(bs, i, m).contains((bs[i].id, bs[j].id)),
        forall|k: int| #![trigger pair_row(bs, i, m)[k]] 0 <= k < pair_row(bs, i, m).len() ==> exists|j: int| #![trigger bs[j]]
            i < j < m && !(bs[i].is_static && bs[j].is_static)
            && pair_row(bs, i, m)[k] == (bs[i].id, bs[j].id),
    decreases m - i,
{
    if m > i + 1 {
        lemma_pair_row(bs, i, m - 1);
        let r = pair_row(bs, i, m - 1);
        let full = pair_row(bs, i, m);
        assert forall|j: int| i < j < m && !(bs[i].is_static && bs[j].is_static)
            implies #[trigger] full.contains((bs[i].id, bs[j].id)) by {
            if j < m - 1 {
                assert(r.contains((bs[i].id, bs[j].id)));
                let k = choose|k: int| 0 <= k < r.len() && r[k] == (bs[i].id, bs[j].id);
                assert(full[k] == r[k]);
            } else {
                assert(full[full.len() - 1] == (bs[i].id, bs[j].id));
            }
        }
        assert forall|k: int| #![trigger full[k]] 0 <= k < full.len() implies exists|j: int| #![trigger bs[j]]
            i < j < m && !(bs[i].is_static && bs[j].is_static) && full[k] == (bs[i].id, bs[j].id) by {
            if k < r.len() {
                assert(full[k] == r[k]);
            } else {
                let j = m - 1;
                assert(bs[j] == bs[m - 1]);
            }
        }
    }
}

/// Whether `p` is the pair of handles of two bodies of `bs`, the earlier
/// one first, that are not both static.
pub open spec fn is_candidate(bs: Seq<PyRigidBody>, p: (u32, u32)) -> bool {
    exists|i: int, j: int| #![trigger bs[i], bs[j]]
        0 <= i < j < bs.len() && !(bs[i].is_static && bs[j].is_static) && p == (bs[i].id, bs[j].id)
}

/// Every pair of bodies that are not both static is examined, the earlier
/// one first, and every examined pair is such a pair.
pub proof fn law_candidate_pairs_exact(bs: Seq<PyRigidBody>)
    ensures
        forall|i: int, j: int| 0 <= i < j < bs.len() && !(bs[i].is_static && bs[j].is_static)
            ==> #[trigger] candidate_pairs_spec(bs, bs.len() as int).contains((bs[i].id, bs[j].id)),
        forall|k: int| 0 <= k < candidate_pairs_spec(bs, bs.len() as int).len()
            ==> is_candidate(bs, #[trigger] candidate_pairs_spec(bs, bs.len() as int)[k]),
{
    lemma_candidate_rows(bs, bs.len() as int);
}

proof fn lemma_candidate_rows(bs: Seq<PyRigidBody>, n: int)
    requires
        0 <= n <= bs.len(),
    ensures
        forall|i: int, j: int| 0 <= i < n && i < j < bs.len() && !(bs[i].is_static && bs[j].is_static)
            ==> #[trigger] candidate_pairs_spec(bs, n).contains((bs[i].id, bs[j].id)),
        forall|k: int| 0 <= k < candidate_pairs_spec(bs, n).len()
            ==> is_candidate(bs, #[trigger] candidate_pairs_spec(bs, n)[k]),
    decreases n,
{
    if n > 0 {
        lemma_candidate_rows(bs, n - 1);
        let prev = candidate_pairs_spec(bs, n - 1);
        let row = pair_row(bs, n - 1, bs.len() as int);
        let all = candidate_pairs_spec(bs, n);
        assert(all == prev + row);
        lemma_pair_row(bs, n - 1, bs.len() as int);
        assert forall|i: int, j: int| 0 <= i < n && i < j < bs.len() && !(bs[i].is_static && bs[j].is_static)
            implies #[trigger] all.contains((bs[i].id, bs[j].id)) by {
            if i < n - 1 {
                assert(prev.contains((bs[i].id, bs[j].id)));
                let k = choose|k: int| 0 <= k < prev.len() && prev[k] == (bs[i].id, bs[j].id);
                assert(all[k] == prev[k]);
            } else {
                assert(row.contains((bs[i].id, bs[j].id)));
                let k = choose|k: int| 0 <= k < row.len() && row[k] == (bs[i].id, bs[j].id);
                assert(all[prev.len() + k] == row[k]);
            }
        }
        assert forall|k: int| 0 <= k < all.len() implies is_candidate(bs, #[trigger] all[k]) by {
            if k < prev.len() {
                assert(all[k] == prev[k]);
                assert(is_candidate(bs, prev[k]));
            } else {
                assert(all[k] == row[k - prev.len()]);
                let j = choose|j: int| #![trigger bs[j]]
                    n - 1 < j < bs.len() && !(bs[n - 1].is_static && bs[j].is_static)
                    && row[k - prev.len()] == (bs[n - 1].id, bs[j].id);
                let i = n - 1;
                assert(0 <= i < j < bs.len() && !(bs[i].is_static && bs[j].is_static) && all[k] == (bs[i].id, bs[j].id));
            }
        }
    }
}

/// Whether body `b` and body `i` of `bs` are not both static.
pub open spec fn not_both_static(bs: Seq<PyRigidBody>, i: int) -> spec_fn(PyRigidBody) -> bool {
    |b: PyRigidBody| !(bs[i].is_static && b.is_static)
}

/// The number of index pairs `i < j` among the first `k` values of `i`
/// whose bodies are not both static: for each `i`, the bodies after it that
/// are not static together with it.
pub open spec fn index_pair_count(bs: Seq<PyRigidBody>, k: int) -> nat
    decreases k,
{
    if k <= 0 {
        0
    } else {
        index_pair_count(bs, k - 1) + bs.subrange(k, bs.len() as int).filter(not_both_static(bs, k - 1)).len()
    }
}

/// Each pair of bodies that are not both static is examined exactly once:
/// the candidate list is as long as the number of such index pairs `i < j`.
pub proof fn law_candidate_pairs_once(bs: Seq<PyRigidBody>)
    ensures
        candidate_pairs_spec(bs, bs.len() as int).len() == index_pair_count(bs, bs.len() as int),
{
    lemma_candidate_count(bs, bs.len() as int);
}

proof fn lemma_candidate_count(bs: Seq<PyRigidBody>, k: int)
    requires
        0 <= k <= bs.len(),
    ensures
        candidate_pairs_spec(bs, k).len() == index_pair_count(bs, k),
    decreases k,
{
    if k > 0 {
        lemma_candidate_count(bs, k - 1);
        lemma_pair_row_count(bs, k - 1, bs.len() as int);
    }
}

proof fn lemma_pair_row_count(bs: Seq<PyRigidBody>, i: int, m: int)
    requires
        0 <= i < bs.len(),
        i + 1 <= m <= bs.len(),
    ensures
        pair_row(bs, i, m).len() == bs.subrange(i + 1, m).filter(not_both_static(bs, i)).len(),
    decreases m - i,
{
    let f = not_both_static(bs, i);
    if m == i + 1 {
        bs.subrange(i + 1, m).lemma_filter_len(f);
    } else {
        lemma_pair_row_count(bs, i, m - 1);
        let head = bs.subrange(i + 1, m - 1);
        assert(bs.subrange(i + 1, m) =~= head.push(bs[m - 1]));
        head.lemma_filter_len_push(f, bs[m - 1]);
    }
}

/// The pairs come in order of the first body and then of the second: the
/// pair of bodies `i < j` (not both static) stands after the pairs of every
/// earlier first body and after the pairs of `i` with the bodies between them.
pub proof fn law_candidate_pair_position(bs: Seq<PyRigidBody>, i: int, j: int)
    requires
        0 <= i < j < bs.len(),
        !(bs[i].is_static && bs[j].is_static),
    ensures
        candidate_pairs_spec(bs, bs.len() as int)[(index_pair_count(bs, i) + bs.subrange(i + 1, j).filter(
            not_both_static(bs, i),
        ).len()) as int] == (bs[i].id, bs[j].id),
{
    lemma_pair_row_position(bs, i, j, bs.len() as int);
    lemma_pair_row_count(bs, i, j);
    lemma_candidate_prefix(bs, i, bs.len() as int, pair_row(bs, i, j).len() as int);
}

proof fn lemma_pair_row_position(bs: Seq<PyRigidBody>, i: int, j: int, m: int)
    requires
        0 <= i < j < m <= bs.len(),
        !(bs[i].is_static && bs[j].is_static),
    ensures
        pair_row(bs, i, j).len() < pair_row(bs, i, m).len(),
        pair_row(bs, i, m)[pair_row(bs, i, j).len() as int] == (bs[i].id, bs[j].id),
    decreases m - j,
{
    if m == j + 1 {
        assert(pair_row(bs, i, m) == pair_row(bs, i, j).push((bs[i].id, bs[j].id)));
    } else {
        lemma_pair_row_position(bs, i, j, m - 1);
        let r = pair_row(bs, i, m - 1);
        assert(pair_row(bs, i, m)[pair_row(bs, i, j).len() as int] == r[pair_row(bs, i, j).len() as int]);
    }
}

proof fn lemma_candidate_prefix(bs: Seq<PyRigidBody>, i: int, k: int, p: int)
    requires
        0 <= i < k <= bs.len(),
        0 <= p < pair_row(bs, i, bs.len() as int).len(),
    ensures
        index_pair_count(bs, i) + p < candidate_pairs_spec(bs, k).len(),
        candidate_pairs_spec(bs, k)[index_pair_count(bs, i) as int + p] == pair_row(bs, i, bs.len() as int)[p],
    decreases k,
{
    lemma_candidate_count(bs, i);
    lemma_candidate_count(bs, k - 1);
    let prev = candidate_pairs_spec(bs, k - 1);
    let row = pair_row(bs, k - 1, bs.len() as int);
    assert(candidate_pairs_spec(bs, k) == prev + row);
    if i == k - 1 {
        assert((prev + row)[prev.len() + p] == row[p]);
    } else {
        lemma_candidate_prefix(bs, i, k - 1, p);
        assert((prev + row)[index_pair_count(bs, i) as int + p] == prev[index_pair_count(bs, i) as int + p]);
    }
}

// ─────────────────────────────────────────────────────────────────────────────
// PyPhysicsPipeline
// ─────────────────────────────────────────────────────────────────────────────

/// Configuration for the physics pipeline.
#[derive(Debug, Clone, Copy)]
pub struct PyPipelineConfig {
    /// Maximum solver iterations per step.
    pub max_iterations: u32,
    /// Velocity tolerance for sleep (m/s).
    pub sleep_threshold: u64,
    /// Time (s) body must be below sleep threshold before sleeping.
    pub sleep_time: u64,
    /// Gravity vector.
    pub gravity: [u64; 3],
    /// Substeps per `step()` call.
    pub substeps: u32,
}

/// The default pipeline configuration: 10 iterations, sleep below 0.05 m/s
/// for 1 s, Earth gravity, one substep.
pub open spec fn default_pipeline_config() -> PyPipelineConfig {
    PyPipelineConfig {
        max_iterations: 10,
        sleep_threshold: REAL_0_05,
        sleep_time: REAL_ONE,
        gravity: [REAL_ZERO, REAL_MINUS_9_81, REAL_ZERO],
        substeps: 1,
    }
}

impl Default for PyPipelineConfig {
    fn default() -> (c: Self)
        ensures
            c == default_pipeline_config(),
    {
        PyPipelineConfig {
            max_iterations: 10,
            sleep_threshold: REAL_0_05,
            sleep_time: REAL_ONE,
            gravity: [REAL_ZERO, REAL_MINUS_9_81, REAL_ZERO],
            substeps: 1,
        }
    }
}

/// A physics pipeline orchestrating broadphase, narrowphase, solver, and integration.
#[derive(Debug)]
pub struct PyPhysicsPipeline {
    /// Pipeline configuration.
    pub config: PyPipelineConfig,
    /// Internal world.
    pub world: PyWorld,
    /// Simulation step counter.
    pub step_count: u64,
    /// Broadphase collision pair count (last step).
    pub last_broadphase_pairs: usize,
    /// Narrowphase contact count (last step).
    pub last_contact_count: usize,
    /// Solver iterations used (last step).
    pub last_solver_iterations: u32,
}

impl PyPhysicsPipeline {
    /// Create a new pipeline with the default configuration.
    pub fn new() -> (p: Self)
        ensures
            p.config == default_pipeline_config(),
            p.world.bodies.slots() == Seq::<Option<PyRigidBody>>::empty(),
            p.world.gravity == p.config.gravity,
            p.world.contacts@ == Seq::<PyContact>::empty(),
            p.step_count == 0,
            p.last_broadphase_pairs == 0,
            p.last_contact_count == 0,
            p.last_solver_iterations == 0,
    {
        let config = PyPipelineConfig::default();
        Self::with_config(config)
    }

    /// Create a pipeline with a custom configuration; the world takes its gravity.
    pub fn with_config(config: PyPipelineConfig) -> (p: Self)
        ensures
            p.config == config,
            p.world.bodies.slots() == Seq::<Option<PyRigidBody>>::empty(),
            p.world.gravity == config.gravity,
            p.world.contacts@ == Seq::<PyContact>::empty(),
            p.step_count == 0,
            p.last_broadphase_pairs == 0,
            p.last_contact_count == 0,
            p.last_solver_iterations == 0,
    {
        let world = PyWorld::new(config.gravity);
        PyPhysicsPipeline {
            config,
            world,
            step_count: 0,
            last_broadphase_pairs: 0,
            last_contact_count: 0,
            last_solver_iterations: 0,
        }
    }

    /// Record the statistics of a step whose substeps have run: the contact
    /// count of the world, the broadphase pair count (the same number), the
    /// solver iterations (the maximum if there was any contact, else zero),
    /// and one more step.
    pub fn finish_step(&mut self)
        requires
            old(self).step_count < u64::MAX,
        ensures
            final(self).last_contact_count == old(self).world.contacts@.len(),
            final(self).last_broadphase_pairs == old(self).world.contacts@.len(),
            final(self).last_solver_iterations == if old(self).world.contacts@.len() > 0 {
                old(self).config.max_iterations
            } else {
                0
            },
            final(self).step_count == old(self).step_count + 1,
            final(self).config == old(self).config,
            final(self).world == old(self).world,
    {
        self.last_contact_count = self.world.contacts.len();
        self.last_broadphase_pairs = self.last_contact_count;
        let used = if self.last_contact_count > 0 { self.config.max_iterations } else { 0 };
        self.last_solver_iterations = if self.config.max_iterations < used {
            self.config.max_iterations
        } else {
            used
        };
        self.step_count = self.step_count + 1;
    }

    /// Set the maximum solver iterations.
    pub fn set_max_iterations(&mut self, n: u32)
        ensures
            final(self).config == (PyPipelineConfig { max_iterations: n, ..old(self).config }),
            final(self).world == old(self).world,
            final(self).step_count == old(self).step_count,
            final(self).last_broadphase_pairs == old(self).last_broadphase_pairs,
            final(self).last_contact_count == old(self).last_contact_count,
            final(self).last_solver_iterations == old(self).last_solver_iterations,
    {
        self.config.max_iterations = n;
    }

    /// Access the world.
    pub fn world(&self) -> (w: &PyWorld)
        ensures
            *w == self.world,
    {
        &self.world
    }

    /// Mutable access to the world.
    pub fn world_mut(&mut self) -> (w: &mut PyWorld)
        ensures
            *w == old(self).world,
            final(self).world == *final(w),
            final(self).config == old(self).config,
            final(self).step_count == old(self).step_count,
    {
        &mut self.world
    }
}

// ─────────────────────────────────────────────────────────────────────────────
// Sleep and wake
// ─────────────────────────────────────────────────────────────────────────────

/// Reason a body woke up.
#[derive(Debug, Clone, Copy, PartialEq, Eq, Structural)]
pub enum WakeReason {
    /// Woken by an applied force or impulse.
    Force,
    /// Woken by a contact.
    Contact,
    /// Woken by a script/user request.
    Script,
}

/// Wake event emitted when a body transitions from sleeping to awake.
#[derive(Debug, Clone, Copy)]
pub struct PyWakeEvent {
    /// The body that woke up.
    pub body_id: u32,
    /// Reason for waking.
    pub reason: WakeReason,
    /// Simulation time at wake.
    pub time: u64,
}

impl PyWakeEvent {
    /// Create a new wake event.
    pub fn new(body_id: u32, reason: WakeReason, time: u64) -> (e: Self)
        ensures
            e == (PyWakeEvent { body_id, reason, time }),
    {
        PyWakeEvent { body_id, reason, time }
    }
}

/// The test for a timer entry of body `id`.
pub open spec fn timer_of_body(id: u32) -> spec_fn((u32, u64)) -> bool {
    |t: (u32, u64)| t.0 == id
}

/// The test for a timer entry of another body than `id`.
pub open spec fn not_timer_of_body(id: u32) -> spec_fn((u32, u64)) -> bool {
    |t: (u32, u64)| t.0 != id
}

/// The position of body `id`'s first timer entry, or the length if none.
pub open spec fn timer_slot_of(timers: Seq<(u32, u64)>, id: u32) -> int {
    first_index(timers, timer_of_body(id))
}

/// The value of body `id`'s first timer entry, if any.
pub open spec fn timer_in(timers: Seq<(u32, u64)>, id: u32) -> Option<u64> {
    let k = timer_slot_of(timers, id);
    if 0 <= k < timers.len() {
        Some(timers[k].1)
    } else {
        None
    }
}

/// The timers after setting body `id`'s timer to `value`.
pub open spec fn timers_with(timers: Seq<(u32, u64)>, id: u32, value: u64) -> Seq<(u32, u64)> {
    let k = timer_slot_of(timers, id);
    if 0 <= k < timers.len() {
        timers.update(k, (id, value))
    } else {
        timers.push((id, value))
    }
}

/// Setting a body's sleep timer and reading it back gives the value set,
/// and leaves the timers of other bodies as they read before; clearing a
/// body's timers leaves it none.
pub proof fn law_sleep_timer_set_then_read(timers: Seq<(u32, u64)>, id: u32, value: u64, other: u32)
    requires
        other != id,
    ensures
        timer_in(timers_with(timers, id, value), id) == Some(value),
        timer_in(timers_with(timers, id, value), other) == timer_in(timers, other),
        timer_in(timers.filter(not_timer_of_body(id)), id) is None,
{
    lemma_first_index_bounds(timers, timer_of_body(id));
    lemma_first_index_bounds(timers, timer_of_body(other));
    let k = timer_slot_of(timers, id);
    let ko = timer_slot_of(timers, other);
    let after = timers_with(timers, id, value);
    if k < timers.len() {
        lemma_first_index(after, timer_of_body(id), k);
        if ko < timers.len() {
            assert(ko != k);
            assert forall|j: int| 0 <= j < ko implies !timer_of_body(other)(#[trigger] after[j]) by {
                if j != k {
                    assert(after[j] == timers[j]);
                }
            }
            lemma_first_index(after, timer_of_body(other), ko);
        } else {
            assert forall|j: int| 0 <= j < after.len() implies !timer_of_body(other)(#[trigger] after[j]) by {
                if j != k {
                    assert(after[j] == timers[j]);
                }
            }
            lemma_first_index(after, timer_of_body(other), after.len() as int);
        }
    } else {
        assert forall|j: int| 0 <= j < timers.len() implies !timer_of_body(id)(#[trigger] after[j]) by {
            assert(after[j] == timers[j]);
        }
        lemma_first_index(after, timer_of_body(id), timers.len() as int);
        if ko < timers.len() {
            assert forall|j: int| 0 <= j < ko implies !timer_of_body(other)(#[trigger] after[j]) by {
                assert(after[j] == timers[j]);
            }
            assert(after[ko] == timers[ko]);
            lemma_first_index(after, timer_of_body(other), ko);
        } else {
            assert forall|j: int| 0 <= j < after.len() implies !timer_of_body(other)(#[trigger] after[j]) by {
                if j < timers.len() {
                    assert(after[j] == timers[j]);
                }
            }
            lemma_first_index(after, timer_of_body(other), after.len() as int);
        }
    }
    let cleared = timers.filter(not_timer_of_body(id));
    assert forall|j: int| 0 <= j < cleared.len() implies !timer_of_body(id)(#[trigger] cleared[j]) by {
        timers.lemma_filter_pred(not_timer_of_body(id), j);
    }
    lemma_first_index(cleared, timer_of_body(id), cleared.len() as int);
}

/// A joint created under a handle that no present joint carries is what a
/// lookup of that handle finds afterwards.
pub proof fn law_create_joint_then_get(s: Seq<Option<PyJoint>>, j: PyJoint)
    requires
        forall|k: int| 0 <= k < s.len() ==> !(joint_slot(j.id))(#[trigger] s[k]),
    ensures
        ({
            let t = s.push(Some(j));
            slot_at(t, first_index(t, joint_slot(j.id))) == Some(j)
        }),
{
    let t = s.push(Some(j));
    assert forall|k: int| 0 <= k < s.len() implies !(joint_slot(j.id))(#[trigger] t[k]) by {
        assert(t[k] == s[k]);
    }
    lemma_first_index(t, joint_slot(j.id), s.len() as int);
}

/// Removing the only joint with a handle leaves no joint with that handle.
pub proof fn law_remove_joint_then_get(s: Seq<Option<PyJoint>>, id: u32, k: int)
    requires
        0 <= k < s.len(),
        (joint_slot(id))(s[k]),
        forall|i: int| 0 <= i < s.len() && i != k ==> !(joint_slot(id))(#[trigger] s[i]),
    ensures
        first_index(s, joint_slot(id)) == k,
        ({
            let t = s.update(k, None);
            first_index(t, joint_slot(id)) == t.len()
        }),
{
    lemma_first_index(s, joint_slot(id), k);
    let t = s.update(k, None);
    assert forall|i: int| 0 <= i < t.len() implies !(joint_slot(id))(#[trigger] t[i]) by {
        if i != k {
            assert(t[i] == s[i]);
        }
    }
    lemma_first_index(t, joint_slot(id), t.len() as int);
}

/// Manages sleep/wake events for a body set, and a sleep timer per body.
/// How far a timer advances and when it is long enough are real-valued and
/// decided outside; which entry is read, set or cleared is decided here.
#[derive(Debug)]
pub struct PySleepManager {
    /// Pending wake events.
    pub events: Vec<PyWakeEvent>,
    /// Sleep timers per body id.
    pub sleep_timers: Vec<(u32, u64)>,
}

impl PySleepManager {
    /// Create a new sleep manager.
    pub fn new() -> (m: Self)
        ensures
            m.events@ == Seq::<PyWakeEvent>::empty(),
            m.sleep_timers@ == Seq::<(u32, u64)>::empty(),
    {
        PySleepManager { events: Vec::new(), sleep_timers: Vec::new() }
    }

    /// Wake a sleeping body and record a wake event; an awake body is left
    /// alone and no event is recorded.
    pub fn wake_body(&mut self, body: &mut PyRigidBody, reason: WakeReason, time: u64)
        ensures
            old(body).sleeping ==> {
                &&& *final(body) == (PyRigidBody { sleeping: false, ..*old(body) })
                &&& final(self).events@ == old(self).events@.push(
                    PyWakeEvent { body_id: old(body).id, reason, time },
                )
            },
            !old(body).sleeping ==> {
                &&& *final(body) == *old(body)
                &&& final(self).events@ == old(self).events@
            },
            final(self).sleep_timers@ == old(self).sleep_timers@,
    {
        if body.sleeping {
            body.sleeping = false;
            self.events.push(PyWakeEvent::new(body.id, reason, time));
        }
    }

    /// Put a body to sleep immediately, stopping it.
    pub fn sleep_body(&mut self, body: &mut PyRigidBody)
        ensures
            *final(body) == (PyRigidBody {
                sleeping: true,
                velocity: [REAL_ZERO, REAL_ZERO, REAL_ZERO],
                ang_vel: [REAL_ZERO, REAL_ZERO, REAL_ZERO],
                ..*old(body)
            }),
            final(self).events@ == old(self).events@,
            final(self).sleep_timers@ == old(self).sleep_timers@,
    {
        body.sleeping = true;
        body.velocity = [REAL_ZERO, REAL_ZERO, REAL_ZERO];
        body.ang_vel = [REAL_ZERO, REAL_ZERO, REAL_ZERO];
    }

    /// The sleep timer of body `id` (its first entry), if it has one.
    pub fn timer_of(&self, id: u32) -> (t: Option<u64>)
        ensures
            t == timer_in(self.sleep_timers@, id),
    {
        let k = self.timer_slot(id);
        if k < self.sleep_timers.len() {
            Some(self.sleep_timers[k].1)
        } else {
            None
        }
    }

    fn timer_slot(&self, id: u32) -> (k: usize)
        ensures
            k == timer_slot_of(self.sleep_timers@, id),
            k <= self.sleep_timers@.len(),
    {
        let mut k: usize = 0;
        while k < self.sleep_timers.len()
            invariant
                k <= self.sleep_timers@.len(),
                forall|j: int| 0 <= j < k ==> !timer_of_body(id)(#[trigger] self.sleep_timers@[j]),
            decreases self.sleep_timers.len() - k,
        {
            if self.sleep_timers[k].0 == id {
                proof {
                    lemma_first_index(self.sleep_timers@, timer_of_body(id), k as int);
                }
                return k;
            }
            k = k + 1;
        }
        proof {
            lemma_first_index(self.sleep_timers@, timer_of_body(id), k as int);
        }
        k
    }

    /// Set the sleep timer of body `id`: its first entry takes the new value,
    /// or, if it has none, an entry is appended.
    pub fn set_timer(&mut self, id: u32, value: u64)
        ensures
            final(self).sleep_timers@ == timers_with(old(self).sleep_timers@, id, value),
            final(self).events@ == old(self).events@,
    {
        let k = self.timer_slot(id);
        if k < self.sleep_timers.len() {
            self.sleep_timers.set(k, (id, value));
        } else {
            self.sleep_timers.push((id, value));
        }
    }

    /// Remove every sleep timer entry of body `id`.
    pub fn clear_timer(&mut self, id: u32)
        ensures
            final(self).sleep_timers@ == old(self).sleep_timers@.filter(not_timer_of_body(id)),
            final(self).events@ == old(self).events@,
    {
        let mut kept: Vec<(u32, u64)> = Vec::new();
        let mut k: usize = 0;
        while k < self.sleep_timers.len()
            invariant
                k <= self.sleep_timers@.len(),
                kept@ == self.sleep_timers@.take(k as int).filter(not_timer_of_body(id)),
            decreases self.sleep_timers.len() - k,
        {
            assert(self.sleep_timers@.take(k as int + 1).drop_last() =~= self.sleep_timers@.take(k as int));
            proof {
                reveal(Seq::filter);
            }
            let t = self.sleep_timers[k];
            if t.0 != id {
                kept.push(t);
            }
            k = k + 1;
        }
        assert(self.sleep_timers@.take(k as int) =~= self.sleep_timers@);
        self.sleep_timers = kept;
    }

    /// One body's part of a sleep update. A static or kinematic body is left
    /// alone. A slow body's timer is set to `timer` (its old timer advanced by
    /// the step, or the step itself if it had none), and if it already had a
    /// timer that has now `reached` the sleep time, an awake body falls asleep.
    /// A body that is not slow loses its timer. Returns whether the body was
    /// put to sleep here. Whether the body is slow, the timer's new value and
    /// whether it reached the sleep time are real-valued and given.
    pub fn update_body(&mut self, body: &mut PyRigidBody, slow: bool, timer: u64, reached: bool) -> (slept: bool)
        ensures
            final(self).events@ == old(self).events@,
            old(body).is_static || old(body).is_kinematic ==> {
                &&& !slept
                &&& *final(body) == *old(body)
                &&& final(self).sleep_timers@ == old(self).sleep_timers@
            },
            !(old(body).is_static || old(body).is_kinematic) && slow ==> {
                &&& slept == (timer_in(old(self).sleep_timers@, old(body).id) is Some && reached
                    && !old(body).sleeping)
                &&& *final(body) == if slept { PyRigidBody { sleeping: true, ..*old(body) } } else { *old(body) }
                &&& final(self).sleep_timers@ == timers_with(old(self).sleep_timers@, old(body).id, timer)
            },
            !(old(body).is_static || old(body).is_kinematic) && !slow ==> {
                &&& !slept
                &&& *final(body) == *old(body)
                &&& final(self).sleep_timers@ == old(self).sleep_timers@.filter(not_timer_of_body(old(body).id))
            },
    {
        if body.is_static || body.is_kinematic {
            return false;
        }
        if slow {
            let had_timer = self.timer_of(body.id).is_some();
            self.set_timer(body.id, timer);
            if had_timer && reached && !body.sleeping {
                body.sleeping = true;
                true
            } else {
                false
            }
        } else {
            self.clear_timer(body.id);
            false
        }
    }

    /// Take all pending events, leaving none.
    pub fn drain_events(&mut self) -> (events: Vec<PyWakeEvent>)
        ensures
            events@ == old(self).events@,
            final(self).events@ == Seq::<PyWakeEvent>::empty(),
            final(self).sleep_timers@ == old(self).sleep_timers@,
    {
        let mut taken = Vec::new();
        std::mem::swap(&mut taken, &mut self.events);
        taken
    }
}

// ─────────────────────────────────────────────────────────────────────────────
// PyBodyFilter
// ─────────────────────────────────────────────────────────────────────────────

/// Filter criteria for selecting bodies.
#[derive(Debug, Clone, Copy)]
pub struct PyBodyFilter {
    /// Include active (awake) bodies.
    pub include_active: bool,
    /// Include sleeping bodies.
    pub include_sleeping: bool,
    /// Include static bodies.
    pub include_static: bool,
    /// Include kinematic bodies.
    pub include_kinematic: bool,
}

/// Whether `filter` selects `body`: a static body by `include_static`, else a
/// kinematic one by `include_kinematic`, else a sleeping one by
/// `include_sleeping`, else an awake one by `include_active`.
pub open spec fn filter_selects(filter: PyBodyFilter, body: PyRigidBody) -> bool {
    if body.is_static {
        filter.include_static
    } else if body.is_kinematic {
        filter.include_kinematic
    } else if body.sleeping {
        filter.include_sleeping
    } else {
        filter.include_active
    }
}

/// The bodies of `bodies` that `filter` selects, in order.
pub open spec fn filter_bodies(filter: PyBodyFilter, bodies: Seq<PyRigidBody>) -> Seq<PyRigidBody>
    decreases bodies.len(),
{
    if bodies.len() == 0 {
        Seq::empty()
    } else if filter_selects(filter, bodies.last()) {
        filter_bodies(filter, bodies.drop_last()).push(bodies.last())
    } else {
        filter_bodies(filter, bodies.drop_last())
    }
}

impl Default for PyBodyFilter {
    /// The filter that selects nothing.
    fn default() -> (f: Self)
        ensures
            f == (PyBodyFilter {
                include_active: false,
                include_sleeping: false,
                include_static: false,
                include_kinematic: false,
            }),
    {
        PyBodyFilter {
            include_active: false,
            include_sleeping: false,
            include_static: false,
            include_kinematic: false,
        }
    }
}

impl PyBodyFilter {
    /// Filter that matches all bodies.
    pub fn all() -> (f: Self)
        ensures
            f == (PyBodyFilter {
                include_active: true,
                include_sleeping: true,
                include_static: true,
                include_kinematic: true,
            }),
    {
        PyBodyFilter {
            include_active: true,
            include_sleeping: true,
            include_static: true,
            include_kinematic: true,
        }
    }

    /// Filter that matches only dynamic active bodies.
    pub fn active_dynamic() -> (f: Self)
        ensures
            f == (PyBodyFilter {
                include_active: true,
                include_sleeping: false,
                include_static: false,
                include_kinematic: false,
            }),
    {
        PyBodyFilter {
            include_active: true,
            include_sleeping: false,
            include_static: false,
            include_kinematic: false,
        }
    }

    /// Test if a body passes this filter.
    pub fn matches(&self, body: &PyRigidBody) -> (r: bool)
        ensures
            r == filter_selects(*self, *body),
    {
        if body.is_static {
            return self.include_static;
        }
        if body.is_kinematic {
            return self.include_kinematic;
        }
        if body.sleeping {
            self.include_sleeping
        } else {
            self.include_active
        }
    }

    /// The bodies of a set that pass this filter, in slot order.
    pub fn filter_by_type<'a>(&self, bodies: &'a PyRigidBodySet) -> (r: Vec<&'a PyRigidBody>)
        ensures
            r@.len() == filter_bodies(*self, bodies.live()).len(),
            forall|i: int| 0 <= i < r@.len() ==> *r@[i] == filter_bodies(*self, bodies.live())[i],
    {
        let all = bodies.iter();
        let ghost live = bodies.live();
        let mut r: Vec<&'a PyRigidBody> = Vec::new();
        let mut i: usize = 0;
        while i < all.len()
            invariant
                all@.len() == live.len(),
                forall|j: int| 0 <= j < all@.len() ==> *all@[j] == live[j],
                0 <= i <= all@.len(),
                r@.len() == filter_bodies(*self, live.take(i as int)).len(),
                forall|j: int| 0 <= j < r@.len() ==> *r@[j] == filter_bodies(*self, live.take(i as int))[j],
            decreases all@.len() - i,
        {
            assert(live.take(i + 1).drop_last() =~= live.take(i as int));
            let b = all[i];
            if self.matches(b) {
                r.push(b);
            }
            i = i + 1;
        }
        assert(live.take(live.len() as int) =~= live);
        r
    }
}

// ─────────────────────────────────────────────────────────────────────────────
// Islands and batches
// ─────────────────────────────────────────────────────────────────────────────

/// Statistics for a simulation island.
#[derive(Debug, Clone, Copy)]
pub struct PyIslandStats {
    /// Island identifier.
    pub island_id: u32,
    /// Number of bodies in this island.
    pub body_count: usize,
    /// Number of constraints (contacts + joints) in this island.
    pub constraint_count: usize,
    /// Accumulated time all bodies have been below sleep threshold (seconds).
    pub sleep_timer: u64,
    /// Total kinetic energy of the island.
    pub energy: u64,
}

impl PyIslandStats {
    /// Create island stats with zero sleep timer and energy.
    pub fn new(island_id: u32, body_count: usize, constraint_count: usize) -> (s: Self)
        ensures
            s == (PyIslandStats {
                island_id,
                body_count,
                constraint_count,
                sleep_timer: REAL_ZERO,
                energy: REAL_ZERO,
            }),
    {
        PyIslandStats { island_id, body_count, constraint_count, sleep_timer: REAL_ZERO, energy: REAL_ZERO }
    }
}

/// A vectorized (batch) force application request.
#[derive(Debug, Clone)]
pub struct PyBatchForce {
    /// Target body handles.
    pub body_ids: Vec<u32>,
    /// Forces to apply (parallel to `body_ids`).
    pub forces: Vec<[u64; 3]>,
    /// Optional torques (parallel to `body_ids`; zero if absent).
    pub torques: Option<Vec<[u64; 3]>>,
}

impl PyBatchForce {
    /// Create a batch of forces without torques.
    pub fn new(body_ids: Vec<u32>, forces: Vec<[u64; 3]>) -> (b: Self)
        ensures
            b.body_ids@ == body_ids@,
            b.forces@ == forces@,
            b.torques is None,
    {
        PyBatchForce { body_ids, forces, torques: None }
    }

    /// Add torques to the batch.
    pub fn with_torques(self, torques: Vec<[u64; 3]>) -> (b: Self)
        ensures
            b.body_ids@ == self.body_ids@,
            b.forces@ == self.forces@,
            b.torques matches Some(t) && t@ == torques@,
    {
        PyBatchForce { body_ids: self.body_ids, forces: self.forces, torques: Some(torques) }
    }

    /// Whether every body handle has a force.
    pub fn is_valid(&self) -> (r: bool)
        ensures
            r == (self.body_ids@.len() == self.forces@.len()),
    {
        self.body_ids.len() == self.forces.len()
    }
}

} // verus!

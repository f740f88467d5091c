//! Molecular-dynamics state: configurations, atoms, typed atom sets and the
//! bookkeeping of NVE/NVT simulations.
//!
//! Real quantities are bit patterns (see `crate::scalars`). The force field,
//! the integrator and the thermostats compute with reals and stand outside;
//! what they read and write is held here.

use vstd::prelude::*;
use crate::scalars::{REAL_ZERO, REAL_ONE, REAL_MINUS_ONE, REAL_0_1};

verus! {

/// Bit pattern of `10.0`.
pub const REAL_TEN: u64 = 0x4024_0000_0000_0000u64;
/// Bit pattern of `2.5`.
pub const REAL_2_5: u64 = 0x4004_0000_0000_0000u64;
/// Bit pattern of `1.2`.
pub const REAL_1_2: u64 = 0x3FF3_3333_3333_3333u64;
/// Bit pattern of `22.99`.
pub const REAL_22_99: u64 = 0x4036_FD70_A3D7_0A3Du64;
/// Bit pattern of `35.45`.
pub const REAL_35_45: u64 = 0x4041_B999_9999_999Au64;
/// Bit pattern of `0.35`.
pub const REAL_0_35: u64 = 0x3FD6_6666_6666_6666u64;
/// Bit pattern of `2.35`.
pub const REAL_2_35: u64 = 0x4002_CCCC_CCCC_CCCDu64;
/// Bit pattern of `0.71`.
pub const REAL_0_71: u64 = 0x3FE6_B851_EB85_1EB8u64;
/// Bit pattern of `4.4`.
pub const REAL_4_4: u64 = 0x4011_9999_9999_999Au64;

// ─────────────────────────────────────────────────────────────────────────────
// Configuration and atoms
// ─────────────────────────────────────────────────────────────────────────────

/// Configuration for an MD simulation.
#[derive(Debug, Clone, Copy)]
pub struct PyMdConfig {
    /// Side length of the cubic simulation box.
    pub box_size: u64,
    /// Lennard-Jones epsilon (energy well depth).
    pub lj_epsilon: u64,
    /// Lennard-Jones sigma (particle diameter).
    pub lj_sigma: u64,
    /// Cut-off radius for pair interactions.
    pub cutoff: u64,
    /// Particle mass.
    pub particle_mass: u64,
    /// Target temperature for the thermostat. `None` = NVE.
    pub target_temperature: Option<u64>,
    /// Thermostat relaxation time.
    pub thermostat_tau: u64,
}

/// The argon-like reduced-unit configuration (ε=1, σ=1, box=10σ).
pub open spec fn argon_config() -> PyMdConfig {
    PyMdConfig {
        box_size: REAL_TEN,
        lj_epsilon: REAL_ONE,
        lj_sigma: REAL_ONE,
        cutoff: REAL_2_5,
        particle_mass: REAL_ONE,
        target_temperature: Some(REAL_1_2),
        thermostat_tau: REAL_0_1,
    }
}

impl PyMdConfig {
    /// Argon-like reduced-unit configuration (ε=1, σ=1, box=10σ).
    pub fn argon_reduced() -> (c: Self)
        ensures
            c == argon_config(),
    {
        PyMdConfig {
            box_size: REAL_TEN,
            lj_epsilon: REAL_ONE,
            lj_sigma: REAL_ONE,
            cutoff: REAL_2_5,
            particle_mass: REAL_ONE,
            target_temperature: Some(REAL_1_2),
            thermostat_tau: REAL_0_1,
        }
    }
}

impl Default for PyMdConfig {
    fn default() -> (c: Self)
        ensures
            c == argon_config(),
    {
        Self::argon_reduced()
    }
}

/// A single atom in the MD simulation.
#[derive(Debug, Clone, Copy)]
pub struct PyMdAtom {
    /// Position `[x, y, z]`.
    pub position: [u64; 3],
    /// Velocity `[vx, vy, vz]`.
    pub velocity: [u64; 3],
    /// Accumulated force `[fx, fy, fz]` (cleared each step).
    pub force: [u64; 3],
    /// Atom type identifier.
    pub atom_type: u32,
}

/// An atom at `position`, at rest and with no force on it.
pub open spec fn fresh_atom(position: [u64; 3], atom_type: u32) -> PyMdAtom {
    PyMdAtom {
        position,
        velocity: [REAL_ZERO, REAL_ZERO, REAL_ZERO],
        force: [REAL_ZERO, REAL_ZERO, REAL_ZERO],
        atom_type,
    }
}

impl PyMdAtom {
    /// Create a new atom at `position` with zero velocity.
    pub fn new(position: [u64; 3], atom_type: u32) -> (a: Self)
        ensures
            a == fresh_atom(position, atom_type),
    {
        PyMdAtom {
            position,
            velocity: [REAL_ZERO, REAL_ZERO, REAL_ZERO],
            force: [REAL_ZERO, REAL_ZERO, REAL_ZERO],
            atom_type,
        }
    }
}

/// `t` if it is a non-negative number, else `0.0`: what `t.max(0.0)` gives
/// (`-0.0` and NaN give `0.0`).
pub open spec fn clamp_non_negative(t: u64) -> u64 {
    if (t >> 63u64) == 1u64 || ((t >> 52u64) & 0x7FFu64) == 0x7FFu64 && (t & 0x000F_FFFF_FFFF_FFFFu64) != 0u64 {
        REAL_ZERO
    } else {
        t
    }
}

/// The coordinates of a list of triples, flattened in order.
pub open spec fn flatten3(v: Seq<[u64; 3]>) -> Seq<u64>
    decreases v.len(),
{
    if v.len() == 0 {
        Seq::empty()
    } else {
        flatten3(v.drop_last()) + seq![v.last()[0], v.last()[1], v.last()[2]]
    }
}

proof fn lemma_flatten3(v: Seq<[u64; 3]>)
    ensures
        flatten3(v).len() == 3 * v.len(),
        forall|i: int, k: int| 0 <= i < v.len() && 0 <= k < 3 ==> #[trigger] flatten3(v)[3 * i + k] == v[i][k],
    decreases v.len(),
{
    if v.len() > 0 {
        lemma_flatten3(v.drop_last());
        assert forall|i: int, k: int| 0 <= i < v.len() && 0 <= k < 3 implies #[trigger] flatten3(v)[3 * i + k] == v[i][k] by {
            if i < v.len() - 1 {
                assert(v.drop_last()[i] == v[i]);
                assert(flatten3(v.drop_last())[3 * i + k] == v[i][k]);
            }
        }
    }
}

// ─────────────────────────────────────────────────────────────────────────────
// PyMdSimulation
// ─────────────────────────────────────────────────────────────────────────────

/// Molecular Dynamics simulation (NVE/NVT) with periodic boundary conditions.
#[derive(Debug, Clone)]
pub struct PyMdSimulation {
    /// All atoms.
    pub atoms: Vec<PyMdAtom>,
    /// Simulation configuration.
    pub config: PyMdConfig,
    /// Total simulation time accumulated.
    pub time: u64,
    /// Number of completed steps.
    pub step_count: u64,
    /// Most recently computed total potential energy.
    pub potential_energy: u64,
    /// Whether the thermostat is currently active.
    pub thermostat_active: bool,
}

/// The positions of the atoms, in order.
pub open spec fn atom_positions(atoms: Seq<PyMdAtom>) -> Seq<[u64; 3]> {
    atoms.map_values(|a: PyMdAtom| a.position)
}

/// The velocities of the atoms, in order.
pub open spec fn atom_velocities(atoms: Seq<PyMdAtom>) -> Seq<[u64; 3]> {
    atoms.map_values(|a: PyMdAtom| a.velocity)
}

impl PyMdSimulation {
    /// Create a new empty MD simulation from the given configuration.
    pub fn new(config: PyMdConfig) -> (s: Self)
        ensures
            s.atoms@.len() == 0,
            s.config == config,
            s.time == REAL_ZERO,
            s.step_count == 0,
            s.potential_energy == REAL_ZERO,
            s.thermostat_active,
    {
        PyMdSimulation {
            atoms: Vec::new(),
            config,
            time: REAL_ZERO,
            step_count: 0,
            potential_energy: REAL_ZERO,
            thermostat_active: true,
        }
    }

    /// Add an atom at `position` with the given type index.
    ///
    /// Returns the index of the newly added atom.
    pub fn add_atom(&mut self, position: [u64; 3], atom_type: u32) -> (idx: usize)
        ensures
            idx == old(self).atoms@.len(),
            final(self).atoms@ == old(self).atoms@.push(fresh_atom(position, atom_type)),
            final(self).config == old(self).config,
            final(self).time == old(self).time,
            final(self).step_count == old(self).step_count,
            final(self).potential_energy == old(self).potential_energy,
            final(self).thermostat_active == old(self).thermostat_active,
    {
        let idx = self.atoms.len();
        self.atoms.push(PyMdAtom::new(position, atom_type));
        idx
    }

    /// Set the velocity of atom `i`. No-op if `i` is out of bounds.
    pub fn set_velocity(&mut self, i: usize, vel: [u64; 3])
        ensures
            i < old(self).atoms@.len() ==> final(self).atoms@ == old(self).atoms@.update(
                i as int,
                PyMdAtom { velocity: vel, ..old(self).atoms@[i as int] },
            ),
            i >= old(self).atoms@.len() ==> final(self).atoms@ == old(self).atoms@,
            final(self).config == old(self).config,
            final(self).time == old(self).time,
            final(self).step_count == old(self).step_count,
            final(self).potential_energy == old(self).potential_energy,
            final(self).thermostat_active == old(self).thermostat_active,
    {
        if i < self.atoms.len() {
            let mut a = self.atoms[i];
            a.velocity = vel;
            self.atoms.set(i, a);
        }
    }

    /// Get the position of atom `i`, or `None` if out of bounds.
    pub fn position(&self, i: usize) -> (p: Option<[u64; 3]>)
        ensures
            i < self.atoms@.len() ==> p == Some(self.atoms@[i as int].position),
            i >= self.atoms@.len() ==> p is None,
    {
        if i < self.atoms.len() {
            Some(self.atoms[i].position)
        } else {
            None
        }
    }

    /// Get the velocity of atom `i`, or `None` if out of bounds.
    pub fn velocity(&self, i: usize) -> (v: Option<[u64; 3]>)
        ensures
            i < self.atoms@.len() ==> v == Some(self.atoms@[i as int].velocity),
            i >= self.atoms@.len() ==> v is None,
    {
        if i < self.atoms.len() {
            Some(self.atoms[i].velocity)
        } else {
            None
        }
    }

    /// Number of atoms in the simulation.
    pub fn atom_count(&self) -> (n: usize)
        ensures
            n == self.atoms@.len(),
    {
        self.atoms.len()
    }

    /// Accumulated simulation time.
    pub fn time(&self) -> (t: u64)
        ensures
            t == self.time,
    {
        self.time
    }

    /// Number of completed steps.
    pub fn step_count(&self) -> (n: u64)
        ensures
            n == self.step_count,
    {
        self.step_count
    }

    /// Enable or disable the velocity-rescaling thermostat.
    pub fn set_thermostat(&mut self, active: bool)
        ensures
            *final(self) == (PyMdSimulation { thermostat_active: active, ..*old(self) }),
    {
        self.thermostat_active = active;
    }

    /// Whether the thermostat is active.
    pub fn thermostat_active(&self) -> (b: bool)
        ensures
            b == self.thermostat_active,
    {
        self.thermostat_active
    }

    /// Set the target temperature for the thermostat; a negative (or NaN)
    /// temperature is taken as zero.
    pub fn set_target_temperature(&mut self, t: u64)
        ensures
            final(self).config == (PyMdConfig { target_temperature: Some(clamp_non_negative(t)), ..old(self).config }),
            final(self).atoms == old(self).atoms,
            final(self).time == old(self).time,
            final(self).step_count == old(self).step_count,
            final(self).potential_energy == old(self).potential_energy,
            final(self).thermostat_active == old(self).thermostat_active,
    {
        let negative = (t >> 63u64) == 1u64;
        let nan = ((t >> 52u64) & 0x7FFu64) == 0x7FFu64 && (t & 0x000F_FFFF_FFFF_FFFFu64) != 0u64;
        let clamped = if negative || nan { REAL_ZERO } else { t };
        self.config.target_temperature = Some(clamped);
    }

    /// Total potential energy from the last step.
    pub fn potential_energy(&self) -> (e: u64)
        ensures
            e == self.potential_energy,
    {
        self.potential_energy
    }

    /// Finish a step: record the new simulation time and count the step.
    pub fn finish_step(&mut self, new_time: u64)
        requires
            old(self).step_count < u64::MAX,
        ensures
            final(self).step_count == old(self).step_count + 1,
            final(self).time == new_time,
            final(self).atoms == old(self).atoms,
            final(self).config == old(self).config,
            final(self).potential_energy == old(self).potential_energy,
            final(self).thermostat_active == old(self).thermostat_active,
    {
        self.time = new_time;
        self.step_count = self.step_count + 1;
    }

    /// Return all atom positions as a flat list of `[x, y, z]` triples.
    pub fn all_positions(&self) -> (v: Vec<u64>)
        requires
            3 * self.atoms@.len() <= usize::MAX,
        ensures
            v@ == flatten3(atom_positions(self.atoms@)),
    {
        let mut out: Vec<u64> = Vec::new();
        let mut i: usize = 0;
        while i < self.atoms.len()
            invariant
                i <= self.atoms@.len(),
                out@ == flatten3(atom_positions(self.atoms@.take(i as int))),
            decreases self.atoms@.len() - i,
        {
            let p = self.atoms[i].position;
            out.push(p[0]);
            out.push(p[1]);
            out.push(p[2]);
            let ghost t = self.atoms@.take(i + 1);
            assert(atom_positions(t).drop_last() =~= atom_positions(self.atoms@.take(i as int)));
            i = i + 1;
        }
        assert(self.atoms@.take(self.atoms@.len() as int) =~= self.atoms@);
        out
    }

    /// Return all atom velocities as a flat list of `[vx, vy, vz]` triples.
    pub fn all_velocities(&self) -> (v: Vec<u64>)
        requires
            3 * self.atoms@.len() <= usize::MAX,
        ensures
            v@ == flatten3(atom_velocities(self.atoms@)),
    {
        let mut out: Vec<u64> = Vec::new();
        let mut i: usize = 0;
        while i < self.atoms.len()
            invariant
                i <= self.atoms@.len(),
                out@ == flatten3(atom_velocities(self.atoms@.take(i as int))),
            decreases self.atoms@.len() - i,
        {
            let p = self.atoms[i].velocity;
            out.push(p[0]);
            out.push(p[1]);
            out.push(p[2]);
            let ghost t = self.atoms@.take(i + 1);
            assert(atom_velocities(t).drop_last() =~= atom_velocities(self.atoms@.take(i as int)));
            i = i + 1;
        }
        assert(self.atoms@.take(self.atoms@.len() as int) =~= self.atoms@);
        out
    }
}

/// Setting an atom's velocity and reading it back: `velocity(i)` gives the
/// velocity set, every other atom keeps its velocity, and no atom's
/// position changes.
pub proof fn law_set_then_read_velocity(atoms: Seq<PyMdAtom>, i: int, vel: [u64; 3], k: int)
    requires
        0 <= i < atoms.len(),
        0 <= k < atoms.len(),
    ensures
        atoms.update(i, PyMdAtom { velocity: vel, ..atoms[i] })[k].velocity == (if k == i {
            vel
        } else {
            atoms[k].velocity
        }),
        atoms.update(i, PyMdAtom { velocity: vel, ..atoms[i] })[k].position == atoms[k].position,
{
}

/// The flattened position list has three entries per atom, and entry
/// `3 i + k` is coordinate `k` of atom `i`.
pub proof fn law_flat_positions_index(atoms: Seq<PyMdAtom>, i: int, k: int)
    requires
        0 <= i < atoms.len(),
        0 <= k < 3,
    ensures
        flatten3(atom_positions(atoms)).len() == 3 * atoms.len(),
        flatten3(atom_positions(atoms))[3 * i + k] == atoms[i].position[k],
{
    lemma_flatten3(atom_positions(atoms));
}


// ─────────────────────────────────────────────────────────────────────────────
// Typed atom sets
// ─────────────────────────────────────────────────────────────────────────────

/// Atom type descriptor: element name, mass, charge.
#[derive(Debug, Clone)]
pub struct AtomTypeDesc {
    /// Element symbol or name (e.g. "Ar", "Na+").
    pub name: String,
    /// Mass in reduced units (or amu).
    pub mass: u64,
    /// Partial charge in reduced units (or elementary charge).
    pub charge: u64,
    /// Lennard-Jones epsilon for this type.
    pub lj_epsilon: u64,
    /// Lennard-Jones sigma for this type.
    pub lj_sigma: u64,
}

impl AtomTypeDesc {
    /// Argon-like atom (ε=1, σ=1, neutral).
    pub fn argon() -> (d: Self)
        ensures
            d.name@ == "Ar"@,
            d.mass == REAL_ONE,
            d.charge == REAL_ZERO,
            d.lj_epsilon == REAL_ONE,
            d.lj_sigma == REAL_ONE,
    {
        AtomTypeDesc { name: "Ar".to_owned(), mass: REAL_ONE, charge: REAL_ZERO, lj_epsilon: REAL_ONE, lj_sigma: REAL_ONE }
    }

    /// Sodium ion (positive charge).
    pub fn sodium_ion() -> (d: Self)
        ensures
            d.name@ == "Na+"@,
            d.mass == REAL_22_99,
            d.charge == REAL_ONE,
            d.lj_epsilon == REAL_0_35,
            d.lj_sigma == REAL_2_35,
    {
        AtomTypeDesc { name: "Na+".to_owned(), mass: REAL_22_99, charge: REAL_ONE, lj_epsilon: REAL_0_35, lj_sigma: REAL_2_35 }
    }

    /// Chloride ion (negative charge).
    pub fn chloride_ion() -> (d: Self)
        ensures
            d.name@ == "Cl-"@,
            d.mass == REAL_35_45,
            d.charge == REAL_MINUS_ONE,
            d.lj_epsilon == REAL_0_71,
            d.lj_sigma == REAL_4_4,
    {
        AtomTypeDesc { name: "Cl-".to_owned(), mass: REAL_35_45, charge: REAL_MINUS_ONE, lj_epsilon: REAL_0_71, lj_sigma: REAL_4_4 }
    }
}

/// A typed atom set that groups atoms by species.
#[derive(Debug, Clone)]
pub struct AtomSet {
    /// Registered atom type descriptors.
    pub atom_types: Vec<AtomTypeDesc>,
    /// Per-atom position `[x, y, z]`.
    pub positions: Vec<[u64; 3]>,
    /// Per-atom velocity `[vx, vy, vz]`.
    pub velocities: Vec<[u64; 3]>,
    /// Per-atom force (accumulated each step) `[fx, fy, fz]`.
    pub forces: Vec<[u64; 3]>,
    /// Per-atom type index (into `atom_types`).
    pub type_indices: Vec<usize>,
    /// Simulation box size (cubic).
    pub box_size: u64,
}

/// The type descriptor of atom `i`, if `i` is an atom and its type index
/// names a registered type.
pub open spec fn type_of_atom(set: AtomSet, i: int) -> Option<AtomTypeDesc> {
    if 0 <= i < set.type_indices@.len() && set.type_indices@[i] < set.atom_types@.len() {
        Some(set.atom_types@[set.type_indices@[i] as int])
    } else {
        None
    }
}

/// The positions, in order, of the atoms whose type index is `type_idx`
/// (pairing positions and type indices up to the shorter of the two lists).
pub open spec fn positions_of_type_spec(positions: Seq<[u64; 3]>, types: Seq<usize>, type_idx: usize) -> Seq<[u64; 3]>
    decreases positions.len(),
{
    if positions.len() == 0 || types.len() == 0 {
        Seq::empty()
    } else {
        let n = if positions.len() < types.len() { positions.len() } else { types.len() };
        let rest = positions_of_type_spec(positions.take(n - 1), types.take(n - 1), type_idx);
        if types[n - 1] == type_idx { rest.push(positions[n - 1]) } else { rest }
    }
}

impl AtomSet {
    /// Create an empty `AtomSet` with the given box size.
    pub fn new(box_size: u64) -> (s: Self)
        ensures
            s.atom_types@.len() == 0,
            s.positions@.len() == 0,
            s.velocities@.len() == 0,
            s.forces@.len() == 0,
            s.type_indices@.len() == 0,
            s.box_size == box_size,
    {
        AtomSet {
            atom_types: Vec::new(),
            positions: Vec::new(),
            velocities: Vec::new(),
            forces: Vec::new(),
            type_indices: Vec::new(),
            box_size,
        }
    }

    /// Register an atom type and return its index.
    pub fn register_type(&mut self, desc: AtomTypeDesc) -> (idx: usize)
        ensures
            idx == old(self).atom_types@.len(),
            final(self).atom_types@ == old(self).atom_types@.push(desc),
            final(self).positions == old(self).positions,
            final(self).velocities == old(self).velocities,
            final(self).forces == old(self).forces,
            final(self).type_indices == old(self).type_indices,
            final(self).box_size == old(self).box_size,
    {
        let idx = self.atom_types.len();
        self.atom_types.push(desc);
        idx
    }

    /// Add an atom at `position` with the given type index, at rest and with
    /// no force on it. Returns the atom index.
    pub fn add_atom(&mut self, position: [u64; 3], type_idx: usize) -> (idx: usize)
        ensures
            idx == old(self).positions@.len(),
            final(self).positions@ == old(self).positions@.push(position),
            final(self).velocities@ == old(self).velocities@.push([REAL_ZERO, REAL_ZERO, REAL_ZERO]),
            final(self).forces@ == old(self).forces@.push([REAL_ZERO, REAL_ZERO, REAL_ZERO]),
            final(self).type_indices@ == old(self).type_indices@.push(type_idx),
            final(self).atom_types == old(self).atom_types,
            final(self).box_size == old(self).box_size,
    {
        let idx = self.positions.len();
        self.positions.push(position);
        self.velocities.push([REAL_ZERO, REAL_ZERO, REAL_ZERO]);
        self.forces.push([REAL_ZERO, REAL_ZERO, REAL_ZERO]);
        self.type_indices.push(type_idx);
        idx
    }

    /// Number of atoms.
    pub fn len(&self) -> (n: usize)
        ensures
            n == self.positions@.len(),
    {
        self.positions.len()
    }

    /// Whether the atom set is empty.
    pub fn is_empty(&self) -> (b: bool)
        ensures
            b == (self.positions@.len() == 0),
    {
        self.positions.len() == 0
    }

    /// Mass of atom `i`: that of its type, or `1.0` when `i` is no atom or
    /// its type is not registered.
    pub fn mass(&self, i: usize) -> (m: u64)
        ensures
            m == (match type_of_atom(*self, i as int) {
                Some(t) => t.mass,
                None => REAL_ONE,
            }),
    {
        if i < self.type_indices.len() && self.type_indices[i] < self.atom_types.len() {
            self.atom_types[self.type_indices[i]].mass
        } else {
            REAL_ONE
        }
    }

    /// Charge of atom `i`: that of its type, or `0.0` when `i` is no atom or
    /// its type is not registered.
    pub fn charge(&self, i: usize) -> (q: u64)
        ensures
            q == (match type_of_atom(*self, i as int) {
                Some(t) => t.charge,
                None => REAL_ZERO,
            }),
    {
        if i < self.type_indices.len() && self.type_indices[i] < self.atom_types.len() {
            self.atom_types[self.type_indices[i]].charge
        } else {
            REAL_ZERO
        }
    }

    /// Return all positions of atoms with type index `type_idx`, in order.
    pub fn positions_of_type(&self, type_idx: usize) -> (v: Vec<[u64; 3]>)
        ensures
            v@ == positions_of_type_spec(self.positions@, self.type_indices@, type_idx),
    {
        let n = if self.positions.len() < self.type_indices.len() { self.positions.len() } else { self.type_indices.len() };
        let mut out: Vec<[u64; 3]> = Vec::new();
        let mut i: usize = 0;
        while i < n
            invariant
                n <= self.positions@.len(),
                n <= self.type_indices@.len(),
                n == self.positions@.len() || n == self.type_indices@.len(),
                i <= n,
                out@ == positions_of_type_spec(self.positions@.take(i as int), self.type_indices@.take(i as int), type_idx),
            decreases n - i,
        {
            let ghost p1 = self.positions@.take(i + 1);
            let ghost t1 = self.type_indices@.take(i + 1);
            assert(p1.take(i as int) =~= self.positions@.take(i as int));
            assert(t1.take(i as int) =~= self.type_indices@.take(i as int));
            if self.type_indices[i] == type_idx {
                out.push(self.positions[i]);
            }
            i = i + 1;
        }
        proof { lemma_positions_of_type_prefix(self.positions@, self.type_indices@, type_idx); }
        out
    }
}

proof fn lemma_positions_of_type_prefix(positions: Seq<[u64; 3]>, types: Seq<usize>, type_idx: usize)
    ensures
        ({
            let n = if positions.len() < types.len() { positions.len() } else { types.len() };
            positions_of_type_spec(positions, types, type_idx)
                == positions_of_type_spec(positions.take(n as int), types.take(n as int), type_idx)
        }),
{
    let n = if positions.len() < types.len() { positions.len() } else { types.len() };
    let p = positions.take(n as int);
    let t = types.take(n as int);
    if n > 0 {
        assert(p.take(n - 1) =~= positions.take(n - 1));
        assert(t.take(n - 1) =~= types.take(n - 1));
    } else {
        assert(positions.len() == 0 || types.len() == 0);
    }
}

// ─────────────────────────────────────────────────────────────────────────────
// NVT ensemble
// ─────────────────────────────────────────────────────────────────────────────

/// Nosé-Hoover thermostat state for the NVT ensemble.
#[derive(Debug, Clone, Copy)]
pub struct NoseHooverThermostat {
    /// Target temperature T*.
    pub target_temperature: u64,
    /// Thermostat mass Q.
    pub thermostat_mass: u64,
    /// Thermostat momentum ξ.
    pub xi: u64,
    /// Thermostat "position" η.
    pub eta: u64,
    /// Number of degrees of freedom (3N for a monatomic system).
    pub n_dof: usize,
}

/// NVT ensemble simulation using the Nosé-Hoover thermostat.
#[derive(Debug, Clone)]
pub struct PyNvtSimulation {
    /// Underlying MD simulation.
    pub md: PyMdSimulation,
    /// Nosé-Hoover thermostat.
    pub thermostat: NoseHooverThermostat,
}

impl PyNvtSimulation {
    /// Add an atom and count its three degrees of freedom in the
    /// thermostat. Returns the atom index.
    pub fn add_atom(&mut self, position: [u64; 3], atom_type: u32) -> (idx: usize)
        requires
            3 * (old(self).md.atoms@.len() + 1) <= usize::MAX,
        ensures
            idx == old(self).md.atoms@.len(),
            final(self).md.atoms@ == old(self).md.atoms@.push(fresh_atom(position, atom_type)),
            final(self).thermostat == (NoseHooverThermostat { n_dof: (3 * final(self).md.atoms@.len()) as usize, ..old(self).thermostat }),
            final(self).md.config == old(self).md.config,
            final(self).md.step_count == old(self).md.step_count,
            final(self).md.time == old(self).md.time,
    {
        let idx = self.md.add_atom(position, atom_type);
        self.thermostat.n_dof = 3 * self.md.atom_count();
        idx
    }

    /// Step count.
    pub fn step_count(&self) -> (n: u64)
        ensures
            n == self.md.step_count,
    {
        self.md.step_count()
    }
}

} // verus!

//! Particle storage of the divergence-free SPH solver, its per-particle factor
//! table, and the assembly of neighbour lists.
//!
//! Real quantities are bit patterns (see `crate::scalars`). Kernels, pressure
//! solves and distance tests compute with reals and stand outside; the
//! storage they work on, and the lists they are given, are built here.

use vstd::prelude::*;
use crate::scalars::REAL_ZERO;

verus! {

/// Full DFSPH solver state: per-particle arrays kept in step.
#[derive(Debug, Clone)]
pub struct DfsphState {
    /// Particle positions.
    pub positions: Vec<[u64; 3]>,
    /// Particle velocities.
    pub velocities: Vec<[u64; 3]>,
    /// SPH-summed densities.
    pub densities: Vec<u64>,
    /// Pressure (density correction phase).
    pub pressures: Vec<u64>,
    /// Pressure (divergence correction phase).
    pub pressures_div: Vec<u64>,
    /// Per-particle α_i factor.
    pub alphas: Vec<u64>,
    /// Particle masses.
    pub masses: Vec<u64>,
    /// Smoothing length.
    pub h: u64,
    /// Rest density (kg/m³).
    pub rho0: u64,
    /// Time step.
    pub dt: u64,
    /// Number of particles added so far.
    pub n: usize,
}

impl DfsphState {
    /// Create a new empty DFSPH state.
    pub fn new(h: u64, rho0: u64, dt: u64) -> (s: Self)
        ensures
            s.positions@.len() == 0,
            s.velocities@.len() == 0,
            s.densities@.len() == 0,
            s.pressures@.len() == 0,
            s.pressures_div@.len() == 0,
            s.alphas@.len() == 0,
            s.masses@.len() == 0,
            s.h == h,
            s.rho0 == rho0,
            s.dt == dt,
            s.n == 0,
    {
        DfsphState {
            positions: Vec::new(),
            velocities: Vec::new(),
            densities: Vec::new(),
            pressures: Vec::new(),
            pressures_div: Vec::new(),
            alphas: Vec::new(),
            masses: Vec::new(),
            h,
            rho0,
            dt,
            n: 0,
        }
    }

    /// Add a particle at `pos` with the given `mass`, at rest, with zero
    /// density, pressures and factor.
    pub fn add_particle(&mut self, pos: [u64; 3], mass: u64)
        requires
            old(self).n < usize::MAX,
        ensures
            final(self).positions@ == old(self).positions@.push(pos),
            final(self).velocities@ == old(self).velocities@.push([REAL_ZERO, REAL_ZERO, REAL_ZERO]),
            final(self).densities@ == old(self).densities@.push(REAL_ZERO),
            final(self).pressures@ == old(self).pressures@.push(REAL_ZERO),
            final(self).pressures_div@ == old(self).pressures_div@.push(REAL_ZERO),
            final(self).alphas@ == old(self).alphas@.push(REAL_ZERO),
            final(self).masses@ == old(self).masses@.push(mass),
            final(self).h == old(self).h,
            final(self).rho0 == old(self).rho0,
            final(self).dt == old(self).dt,
            final(self).n == old(self).n + 1,
    {
        self.positions.push(pos);
        self.velocities.push([REAL_ZERO, REAL_ZERO, REAL_ZERO]);
        self.densities.push(REAL_ZERO);
        self.pressures.push(REAL_ZERO);
        self.pressures_div.push(REAL_ZERO);
        self.alphas.push(REAL_ZERO);
        self.masses.push(mass);
        self.n = self.n + 1;
    }

    /// Number of particles.
    pub fn n_particles(&self) -> (n: usize)
        ensures
            n == self.n,
    {
        self.n
    }
}

/// Pre-computed α factors, looked up by particle index.
#[derive(Debug, Clone)]
pub struct DfsphFactorTable {
    /// Pre-computed α values (one per particle).
    pub alphas: Vec<u64>,
    /// Rest density used for the pre-computation.
    pub rho0: u64,
    /// Smoothing length used.
    pub h: u64,
}

impl DfsphFactorTable {
    /// Get α for particle `i`, or `0.0` past the end of the table.
    pub fn get(&self, i: usize) -> (a: u64)
        ensures
            i < self.alphas@.len() ==> a == self.alphas@[i as int],
            i >= self.alphas@.len() ==> a == REAL_ZERO,
    {
        if i < self.alphas.len() {
            self.alphas[i]
        } else {
            REAL_ZERO
        }
    }

    /// Number of particles in the table.
    pub fn len(&self) -> (n: usize)
        ensures
            n == self.alphas@.len(),
    {
        self.alphas.len()
    }

    /// Whether the table is empty.
    pub fn is_empty(&self) -> (b: bool)
        ensures
            b == (self.alphas@.len() == 0),
    {
        self.alphas.len() == 0
    }
}

/// The neighbours of particle `i`: every other particle `j` with
/// `within[i][j]`, in increasing order of `j`.
pub open spec fn neighbours_of(row: Seq<bool>, i: int) -> Seq<usize>
    decreases row.len(),
{
    if row.len() == 0 {
        Seq::empty()
    } else {
        let j = row.len() - 1;
        let rest = neighbours_of(row.drop_last(), i);
        if j != i && row[j] { rest.push(j as usize) } else { rest }
    }
}

/// Build the neighbour lists from the pairwise proximity table: list `i`
/// holds, in increasing order, each `j != i` with `within[i][j]`.
pub fn neighbour_lists(within: &Vec<Vec<bool>>) -> (lists: Vec<Vec<usize>>)
    ensures
        lists@.len() == within@.len(),
        forall|i: int| 0 <= i < within@.len() ==> (#[trigger] lists@[i])@ == neighbours_of(within@[i]@, i),
{
    let mut lists: Vec<Vec<usize>> = Vec::new();
    let mut i: usize = 0;
    while i < within.len()
        invariant
            i <= within@.len(),
            lists@.len() == i,
            forall|k: int| 0 <= k < i ==> (#[trigger] lists@[k])@ == neighbours_of(within@[k]@, k),
        decreases within@.len() - i,
    {
        let row = &within[i];
        let mut nb: Vec<usize> = Vec::new();
        let mut j: usize = 0;
        while j < row.len()
            invariant
                j <= row@.len(),
                nb@ == neighbours_of(row@.take(j as int), i as int),
            decreases row@.len() - j,
        {
            let ghost t = row@.take(j + 1);
            assert(t.drop_last() =~= row@.take(j as int));
            if j != i && row[j] {
                nb.push(j);
            }
            j = j + 1;
        }
        assert(row@.take(row@.len() as int) =~= row@);
        lists.push(nb);
        i = i + 1;
    }
    lists
}

/// Every neighbour list names only other particles of the table, each once,
/// in increasing order, and exactly those within range.
pub proof fn law_neighbours_exact(row: Seq<bool>, i: int)
    requires
        row.len() <= usize::MAX,
    ensures
        forall|k: int| 0 <= k < neighbours_of(row, i).len() ==> {
            let j = #[trigger] neighbours_of(row, i)[k] as int;
            0 <= j < row.len() && j != i && row[j]
        },
        forall|k1: int, k2: int| 0 <= k1 < k2 < neighbours_of(row, i).len()
            ==> #[trigger] neighbours_of(row, i)[k1] < #[trigger] neighbours_of(row, i)[k2],
        forall|j: int| 0 <= j < row.len() && j != i && #[trigger] row[j]
            ==> neighbours_of(row, i).contains(j as usize),
    decreases row.len(),
{
    if row.len() > 0 {
        let d = row.drop_last();
        law_neighbours_exact(d, i);
        let rest = neighbours_of(d, i);
        let all = neighbours_of(row, i);
        let last = row.len() - 1;
        let pushed = last != i && row[last];
        assert(pushed ==> all == rest.push(last as usize));
        assert(!pushed ==> all == rest);
        assert forall|k: int| 0 <= k < rest.len() implies (#[trigger] rest[k]) < last by {
            let j = rest[k] as int;
            assert(0 <= j < d.len());
        }
        assert forall|k: int| 0 <= k < all.len() implies {
            let j = #[trigger] all[k] as int;
            0 <= j < row.len() && j != i && row[j]
        } by {
            if k < rest.len() {
                assert(all[k] == rest[k]);
                let j = rest[k] as int;
                assert(d[j] == row[j]);
            }
        }
        assert forall|k1: int, k2: int| 0 <= k1 < k2 < all.len()
            implies #[trigger] all[k1] < #[trigger] all[k2] by {
            assert(all[k1] == rest[k1]);
            if k2 < rest.len() {
                assert(all[k2] == rest[k2]);
            } else {
                assert(rest[k1] < last);
            }
        }
        assert forall|j: int| 0 <= j < row.len() && j != i && #[trigger] row[j] implies all.contains(j as usize) by {
            if j < last {
                assert(d[j] == row[j]);
                assert(rest.contains(j as usize));
                let k = choose|k: int| 0 <= k < rest.len() && rest[k] == j as usize;
                assert(all[k] == j as usize);
            } else {
                assert(all[all.len() - 1] == j as usize);
            }
        }
    }
}

} // verus!

//! Simulation analytics: snapshot history, energy, momentum, collision,
//! sleep, constraint and performance statistics, reports and exports.
//!
//! Real values are bit patterns (see `crate::scalars`). Means, extrema,
//! conservation checks and real-valued text rendering compute on real
//! numbers and are kept outside this library; histories with their capacity
//! limits, event counters, per-pair collision counts, the most collided pair
//! and the report's anomaly messages are here.

use vstd::prelude::*;
use vstd::string::StringExecFns;
use crate::scalars::{REAL_ZERO, REAL_0_01, REAL_0_5, REAL_INFINITY, REAL_NEG_INFINITY, REAL_THOUSAND};
use crate::text::{decimal, push_decimal_usize};
use crate::seqs::{first_index, lemma_first_index, lemma_first_index_bounds};

verus! {

// ─────────────────────────────────────────────────────────────────────────────
// Bounded histories
// ─────────────────────────────────────────────────────────────────────────────

/// A history after recording `x` with capacity `cap`: when the capacity is
/// positive and already reached, the oldest entry is dropped first.
pub open spec fn bounded_push<T>(h: Seq<T>, cap: nat, x: T) -> Seq<T> {
    if cap > 0 && h.len() >= cap {
        h.drop_first().push(x)
    } else {
        h.push(x)
    }
}

/// Record `x` in a history of capacity `cap` (0 means unbounded).
pub fn push_bounded<T>(h: &mut Vec<T>, cap: usize, x: T)
    ensures
        final(h)@ == bounded_push(old(h)@, cap as nat, x),
{
    if cap > 0 && h.len() >= cap {
        h.remove(0);
        assert(h@ =~= old(h)@.drop_first());
    }
    h.push(x);
}

/// A history within its positive capacity stays within it, and its newest
/// entry is the one just recorded; below capacity nothing is dropped, and at
/// capacity exactly the oldest entry is.
pub proof fn law_bounded_history<T>(h: Seq<T>, cap: nat, x: T)
    requires
        cap > 0,
        h.len() <= cap,
    ensures
        bounded_push(h, cap, x).len() <= cap,
        bounded_push(h, cap, x).last() == x,
        h.len() < cap ==> bounded_push(h, cap, x) == h.push(x),
        h.len() == cap ==> bounded_push(h, cap, x) == h.subrange(1, h.len() as int).push(x),
{
}

// ─────────────────────────────────────────────────────────────────────────────
// Snapshots
// ─────────────────────────────────────────────────────────────────────────────

/// A snapshot of global physics state at one time step.
#[derive(Debug, Clone, Copy)]
pub struct PySnapshot {
    /// Simulation time (seconds).
    pub time: u64,
    /// Total kinetic energy (J).
    pub kinetic_energy: u64,
    /// Total potential energy (J).
    pub potential_energy: u64,
    /// Total energy (KE + PE).
    pub total_energy: u64,
    /// Linear momentum magnitude `|p|`.
    pub linear_momentum: u64,
    /// Angular momentum magnitude `|L|`.
    pub angular_momentum: u64,
    /// Number of active contacts.
    pub contact_count: usize,
    /// Number of awake bodies.
    pub awake_count: usize,
    /// Number of sleeping bodies.
    pub sleeping_count: usize,
    /// Step wall-clock time in milliseconds.
    pub step_ms: u64,
}

impl Default for PySnapshot {
    /// The all-zero snapshot.
    fn default() -> (s: Self)
        ensures
            s == (PySnapshot {
                time: REAL_ZERO,
                kinetic_energy: REAL_ZERO,
                potential_energy: REAL_ZERO,
                total_energy: REAL_ZERO,
                linear_momentum: REAL_ZERO,
                angular_momentum: REAL_ZERO,
                contact_count: 0,
                awake_count: 0,
                sleeping_count: 0,
                step_ms: REAL_ZERO,
            }),
    {
        PySnapshot {
            time: REAL_ZERO,
            kinetic_energy: REAL_ZERO,
            potential_energy: REAL_ZERO,
            total_energy: REAL_ZERO,
            linear_momentum: REAL_ZERO,
            angular_momentum: REAL_ZERO,
            contact_count: 0,
            awake_count: 0,
            sleeping_count: 0,
            step_ms: REAL_ZERO,
        }
    }
}

/// Master analytics object: the snapshot history, capped at
/// `max_snapshots` entries (0 means no cap), and the step counter.
#[derive(Debug, Clone)]
pub struct PyPhysicsAnalytics {
    /// All recorded snapshots, oldest first.
    pub snapshots: Vec<PySnapshot>,
    /// Maximum number of snapshots to retain.
    pub max_snapshots: usize,
    /// Current step index.
    pub step: u64,
}

impl PyPhysicsAnalytics {
    /// Create analytics with a given history capacity.
    pub fn new(max_snapshots: usize) -> (a: Self)
        ensures
            a.snapshots@.len() == 0,
            a.max_snapshots == max_snapshots,
            a.step == 0,
    {
        PyPhysicsAnalytics { snapshots: Vec::new(), max_snapshots, step: 0 }
    }

    /// Record a snapshot, dropping the oldest one when the history is full,
    /// and count a step.
    pub fn snapshot(&mut self, snap: PySnapshot)
        requires
            old(self).step < u64::MAX,
        ensures
            final(self).snapshots@ == bounded_push(old(self).snapshots@, old(self).max_snapshots as nat, snap),
            final(self).max_snapshots == old(self).max_snapshots,
            final(self).step == old(self).step + 1,
    {
        push_bounded(&mut self.snapshots, self.max_snapshots, snap);
        self.step = self.step + 1;
    }

    /// Advance the step counter.
    pub fn step(&mut self)
        requires
            old(self).step < u64::MAX,
        ensures
            final(self).snapshots == old(self).snapshots,
            final(self).max_snapshots == old(self).max_snapshots,
            final(self).step == old(self).step + 1,
    {
        self.step = self.step + 1;
    }

    /// The most recent snapshot.
    pub fn latest(&self) -> (s: Option<&PySnapshot>)
        ensures
            self.snapshots@.len() == 0 ==> s is None,
            self.snapshots@.len() > 0 ==> (s matches Some(x) && *x == self.snapshots@.last()),
    {
        if self.snapshots.len() == 0 {
            None
        } else {
            Some(&self.snapshots[self.snapshots.len() - 1])
        }
    }

    /// True if no snapshots are recorded.
    pub fn is_empty(&self) -> (e: bool)
        ensures
            e == (self.snapshots@.len() == 0),
    {
        self.snapshots.len() == 0
    }
}

/// Aggregate metrics derived from snapshot history.
#[derive(Debug, Clone, Copy)]
pub struct PyAggregateMetrics {
    /// Mean kinetic energy.
    pub mean_ke: u64,
    /// Mean potential energy.
    pub mean_pe: u64,
    /// Maximum kinetic energy observed.
    pub max_ke: u64,
    /// Minimum kinetic energy observed.
    pub min_ke: u64,
    /// Mean step wall-clock time (ms).
    pub mean_step_ms: u64,
    /// Maximum step wall-clock time (ms).
    pub max_step_ms: u64,
    /// Number of snapshots in this aggregate.
    pub sample_count: usize,
}

impl Default for PyAggregateMetrics {
    /// The metrics of an empty history: all zero.
    fn default() -> (m: Self)
        ensures
            m == (PyAggregateMetrics {
                mean_ke: REAL_ZERO,
                mean_pe: REAL_ZERO,
                max_ke: REAL_ZERO,
                min_ke: REAL_ZERO,
                mean_step_ms: REAL_ZERO,
                max_step_ms: REAL_ZERO,
                sample_count: 0,
            }),
    {
        PyAggregateMetrics {
            mean_ke: REAL_ZERO,
            mean_pe: REAL_ZERO,
            max_ke: REAL_ZERO,
            min_ke: REAL_ZERO,
            mean_step_ms: REAL_ZERO,
            max_step_ms: REAL_ZERO,
            sample_count: 0,
        }
    }
}

// ─────────────────────────────────────────────────────────────────────────────
// Energy and momentum
// ─────────────────────────────────────────────────────────────────────────────

/// Tracks kinetic, potential, and total energy over time.
#[derive(Debug, Clone)]
pub struct PyEnergyTracker {
    /// Time series of (time, KE, PE, total).
    pub history: Vec<(u64, u64, u64, u64)>,
    /// Maximum history size.
    pub capacity: usize,
    /// Jump threshold for anomaly detection (energy change ratio).
    pub anomaly_threshold: u64,
    /// Detected energy anomalies `(step_index, delta_energy)`.
    pub anomalies: Vec<(usize, u64)>,
}

impl PyEnergyTracker {
    /// Create a new, empty tracker.
    pub fn new(capacity: usize, anomaly_threshold: u64) -> (t: Self)
        ensures
            t.history@.len() == 0,
            t.capacity == capacity,
            t.anomaly_threshold == anomaly_threshold,
            t.anomalies@.len() == 0,
    {
        PyEnergyTracker { history: Vec::new(), capacity, anomaly_threshold, anomalies: Vec::new() }
    }

    /// True if any anomaly was detected.
    pub fn has_anomalies(&self) -> (r: bool)
        ensures
            r == (self.anomalies@.len() > 0),
    {
        self.anomalies.len() != 0
    }
}

/// Tracks linear and angular momentum conservation.
#[derive(Debug, Clone)]
pub struct PyMomentumTracker {
    /// History of `(time, lin_mom_mag, ang_mom_mag)`.
    pub history: Vec<(u64, u64, u64)>,
    /// Initial linear momentum for conservation check.
    pub initial_linear: u64,
    /// Initial angular momentum for conservation check.
    pub initial_angular: u64,
    /// Tolerance for conservation check.
    pub tolerance: u64,
}

impl PyMomentumTracker {
    /// Create an empty tracker with the given tolerance.
    pub fn new(tolerance: u64) -> (t: Self)
        ensures
            t.history@.len() == 0,
            t.initial_linear == REAL_ZERO,
            t.initial_angular == REAL_ZERO,
            t.tolerance == tolerance,
    {
        PyMomentumTracker { history: Vec::new(), initial_linear: REAL_ZERO, initial_angular: REAL_ZERO, tolerance }
    }

    /// Record a step; the first record also fixes the initial momenta.
    pub fn record(&mut self, time: u64, linear_mag: u64, angular_mag: u64)
        ensures
            final(self).history@ == old(self).history@.push((time, linear_mag, angular_mag)),
            final(self).tolerance == old(self).tolerance,
            old(self).history@.len() == 0 ==> final(self).initial_linear == linear_mag
                && final(self).initial_angular == angular_mag,
            old(self).history@.len() > 0 ==> final(self).initial_linear == old(self).initial_linear
                && final(self).initial_angular == old(self).initial_angular,
    {
        if self.history.len() == 0 {
            self.initial_linear = linear_mag;
            self.initial_angular = angular_mag;
        }
        self.history.push((time, linear_mag, angular_mag));
    }
}

// ─────────────────────────────────────────────────────────────────────────────
// Collisions
// ─────────────────────────────────────────────────────────────────────────────

/// Statistics about collisions over the simulation. The penetration-depth
/// statistics are real-valued and are updated outside this library.
#[derive(Debug, Clone)]
pub struct PyCollisionStats {
    /// Total collision count.
    pub total_collisions: u64,
    /// Per-body-pair collision count (body_a_id, body_b_id, count).
    pub pair_counts: Vec<(u32, u32, u64)>,
    /// Impulse histogram (n_bins buckets in `[0, max_impulse]`).
    pub impulse_histogram: Vec<u64>,
    /// Upper end of the impulse histogram.
    pub max_impulse: u64,
    /// Minimum penetration depth recorded.
    pub depth_min: u64,
    /// Maximum penetration depth recorded.
    pub depth_max: u64,
    /// Mean penetration depth.
    pub depth_mean: u64,
    /// Sum of recorded penetration depths.
    pub depth_sum: u64,
    /// Number of recorded penetration depths.
    pub depth_count: u64,
}

/// Pair predicate: the entry counts the unordered pair `{a, b}`.
pub open spec fn same_pair(a: u32, b: u32) -> spec_fn((u32, u32, u64)) -> bool {
    |e: (u32, u32, u64)| (e.0 == a && e.1 == b) || (e.0 == b && e.1 == a)
}

/// The pair counts after one more collision of `{a, b}`: the first entry of
/// that pair, in either order, is incremented, else a new entry `(a, b, 1)`
/// is appended.
pub open spec fn count_pair_spec(pairs: Seq<(u32, u32, u64)>, a: u32, b: u32) -> Seq<(u32, u32, u64)> {
    let k = first_index(pairs, same_pair(a, b));
    if k < pairs.len() {
        pairs.update(k, (pairs[k].0, pairs[k].1, (pairs[k].2 + 1) as u64))
    } else {
        pairs.push((a, b, 1u64))
    }
}

/// Index of the last entry with the greatest count (0 for an empty list).
pub open spec fn last_max_index(pairs: Seq<(u32, u32, u64)>) -> int
    decreases pairs.len(),
{
    if pairs.len() <= 1 {
        0
    } else {
        let k = last_max_index(pairs.drop_last());
        if pairs.last().2 >= pairs[k].2 { pairs.len() - 1 } else { k }
    }
}

proof fn lemma_last_max_index(pairs: Seq<(u32, u32, u64)>)
    requires
        pairs.len() > 0,
    ensures
        0 <= last_max_index(pairs) < pairs.len(),
        forall|j: int| 0 <= j < pairs.len() ==> (#[trigger] pairs[j]).2 <= pairs[last_max_index(pairs)].2,
        forall|j: int| last_max_index(pairs) < j < pairs.len() ==> (#[trigger] pairs[j]).2 < pairs[last_max_index(pairs)].2,
    decreases pairs.len(),
{
    if pairs.len() > 1 {
        let d = pairs.drop_last();
        lemma_last_max_index(d);
        let k = last_max_index(d);
        let m = last_max_index(pairs);
        assert(d[k] == pairs[k]);
        assert forall|j: int| 0 <= j < pairs.len() implies (#[trigger] pairs[j]).2 <= pairs[m].2 by {
            if j < d.len() {
                assert(d[j] == pairs[j]);
            }
        }
        assert forall|j: int| m < j < pairs.len() implies (#[trigger] pairs[j]).2 < pairs[m].2 by {
            if j < d.len() {
                assert(d[j] == pairs[j]);
            }
        }
    }
}

/// The counts of an empty histogram of `n_bins` bins.
pub open spec fn zero_bins(n_bins: nat) -> Seq<u64> {
    Seq::new(n_bins, |i: int| 0u64)
}

/// The histogram after counting an impulse whose raw bin is `raw_bin`:
/// bins past the end count in the last bin; without bins nothing changes.
pub open spec fn count_bin_spec(bins: Seq<u64>, raw_bin: nat) -> Seq<u64> {
    if bins.len() == 0 {
        bins
    } else {
        let b = clamped_bin(bins.len(), raw_bin);
        bins.update(b, (bins[b] + 1) as u64)
    }
}

/// The bin that an impulse with raw bin `raw_bin` is counted in, among
/// `n_bins > 0` bins: bins past the end count in the last bin.
pub open spec fn clamped_bin(n_bins: nat, raw_bin: nat) -> int {
    if raw_bin < n_bins - 1 { raw_bin as int } else { n_bins - 1 }
}

impl PyCollisionStats {
    /// Create empty statistics with `n_bins` impulse bins over
    /// `[0, max_impulse]`; the depth extrema start at +∞ and -∞.
    pub fn new(n_bins: usize, max_impulse: u64) -> (s: Self)
        ensures
            s.total_collisions == 0,
            s.pair_counts@.len() == 0,
            s.impulse_histogram@ == zero_bins(n_bins as nat),
            s.max_impulse == max_impulse,
            s.depth_min == REAL_INFINITY,
            s.depth_max == REAL_NEG_INFINITY,
            s.depth_mean == REAL_ZERO,
            s.depth_sum == REAL_ZERO,
            s.depth_count == 0,
    {
        let impulse_histogram = vec![0u64; n_bins];
        assert(impulse_histogram@ =~= zero_bins(n_bins as nat));
        PyCollisionStats {
            total_collisions: 0,
            pair_counts: Vec::new(),
            impulse_histogram,
            max_impulse,
            depth_min: REAL_INFINITY,
            depth_max: REAL_NEG_INFINITY,
            depth_mean: REAL_ZERO,
            depth_sum: REAL_ZERO,
            depth_count: 0,
        }
    }

    /// Count a collision between bodies `body_a` and `body_b`: the total and
    /// the count of the unordered pair go up by one.
    pub fn count_pair(&mut self, body_a: u32, body_b: u32)
        requires
            old(self).total_collisions < u64::MAX,
            ({
                let k = first_index(old(self).pair_counts@, same_pair(body_a, body_b));
                k < old(self).pair_counts@.len() ==> old(self).pair_counts@[k].2 < u64::MAX
            }),
        ensures
            final(self).total_collisions == old(self).total_collisions + 1,
            final(self).pair_counts@ == count_pair_spec(old(self).pair_counts@, body_a, body_b),
            final(self).impulse_histogram == old(self).impulse_histogram,
            final(self).max_impulse == old(self).max_impulse,
            final(self).depth_min == old(self).depth_min,
            final(self).depth_max == old(self).depth_max,
            final(self).depth_mean == old(self).depth_mean,
            final(self).depth_sum == old(self).depth_sum,
            final(self).depth_count == old(self).depth_count,
    {
        self.total_collisions = self.total_collisions + 1;
        let ghost s = self.pair_counts@;
        let mut i: usize = 0;
        while i < self.pair_counts.len()
            && !((self.pair_counts[i].0 == body_a && self.pair_counts[i].1 == body_b)
                || (self.pair_counts[i].0 == body_b && self.pair_counts[i].1 == body_a))
            invariant
                self.pair_counts@ == s,
                i <= s.len(),
                forall|j: int| 0 <= j < i ==> !(same_pair(body_a, body_b))(#[trigger] s[j]),
            decreases s.len() - i,
        {
            i = i + 1;
        }
        proof { lemma_first_index(s, same_pair(body_a, body_b), i as int); }
        if i < self.pair_counts.len() {
            let (a, b, c) = self.pair_counts[i];
            self.pair_counts.set(i, (a, b, c + 1));
        } else {
            self.pair_counts.push((body_a, body_b, 1));
        }
    }

    /// Count an impulse in the histogram, given the bin its magnitude falls
    /// in; bins past the end count in the last bin.
    pub fn count_impulse_bin(&mut self, raw_bin: usize)
        requires
            old(self).impulse_histogram@.len() > 0 ==> old(self).impulse_histogram@[clamped_bin(
                old(self).impulse_histogram@.len(),
                raw_bin as nat,
            )] < u64::MAX,
        ensures
            final(self).impulse_histogram@ == count_bin_spec(old(self).impulse_histogram@, raw_bin as nat),
            final(self).total_collisions == old(self).total_collisions,
            final(self).pair_counts == old(self).pair_counts,
            final(self).max_impulse == old(self).max_impulse,
            final(self).depth_min == old(self).depth_min,
            final(self).depth_max == old(self).depth_max,
            final(self).depth_mean == old(self).depth_mean,
            final(self).depth_sum == old(self).depth_sum,
            final(self).depth_count == old(self).depth_count,
    {
        let n = self.impulse_histogram.len();
        if n > 0 {
            let bin = if raw_bin < n - 1 { raw_bin } else { n - 1 };
            let c = self.impulse_histogram[bin];
            self.impulse_histogram.set(bin, c + 1);
        }
    }

    /// Reset all statistics, keeping the number of bins and the impulse range.
    pub fn reset(&mut self)
        ensures
            final(self).total_collisions == 0,
            final(self).pair_counts@.len() == 0,
            final(self).impulse_histogram@ == zero_bins(old(self).impulse_histogram@.len()),
            final(self).max_impulse == old(self).max_impulse,
            final(self).depth_min == REAL_INFINITY,
            final(self).depth_max == REAL_NEG_INFINITY,
            final(self).depth_mean == REAL_ZERO,
            final(self).depth_sum == REAL_ZERO,
            final(self).depth_count == 0,
    {
        self.total_collisions = 0;
        self.pair_counts.clear();
        let mut i: usize = 0;
        while i < self.impulse_histogram.len()
            invariant
                self.impulse_histogram@.len() == old(self).impulse_histogram@.len(),
                i <= self.impulse_histogram@.len(),
                forall|j: int| 0 <= j < i ==> #[trigger] self.impulse_histogram@[j] == 0,
                self.max_impulse == old(self).max_impulse,
                self.total_collisions == 0,
                self.pair_counts@.len() == 0,
            decreases self.impulse_histogram@.len() - i,
        {
            self.impulse_histogram.set(i, 0);
            i = i + 1;
        }
        assert(self.impulse_histogram@ =~= zero_bins(old(self).impulse_histogram@.len()));
        self.depth_min = REAL_INFINITY;
        self.depth_max = REAL_NEG_INFINITY;
        self.depth_mean = REAL_ZERO;
        self.depth_sum = REAL_ZERO;
        self.depth_count = 0;
    }

    /// The pair entry with the greatest count (the last one among equals),
    /// if any pair was recorded.
    pub fn most_collided_pair(&self) -> (r: Option<(u32, u32, u64)>)
        ensures
            self.pair_counts@.len() == 0 ==> r is None,
            self.pair_counts@.len() > 0 ==> r == Some(self.pair_counts@[last_max_index(self.pair_counts@)]),
    {
        let n = self.pair_counts.len();
        if n == 0 {
            return None;
        }
        let mut best: usize = 0;
        let mut i: usize = 1;
        while i < n
            invariant
                n == self.pair_counts@.len(),
                1 <= i <= n,
                best == last_max_index(self.pair_counts@.take(i as int)),
            decreases n - i,
        {
            let ghost t = self.pair_counts@.take(i + 1);
            assert(t.drop_last() =~= self.pair_counts@.take(i as int));
            proof { lemma_last_max_index(self.pair_counts@.take(i as int)); }
            assert(t[best as int] == self.pair_counts@[best as int]);
            if self.pair_counts[i].2 >= self.pair_counts[best].2 {
                best = i;
            }
            i = i + 1;
        }
        assert(self.pair_counts@.take(n as int) =~= self.pair_counts@);
        proof { lemma_last_max_index(self.pair_counts@); }
        Some(self.pair_counts[best])
    }
}

/// The most collided pair has a count no smaller than any other pair's, and
/// every pair after it in the list has a strictly smaller count.
pub proof fn law_most_collided_is_maximal(pairs: Seq<(u32, u32, u64)>)
    requires
        pairs.len() > 0,
    ensures
        forall|j: int| 0 <= j < pairs.len() ==> (#[trigger] pairs[j]).2 <= pairs[last_max_index(pairs)].2,
        forall|j: int| last_max_index(pairs) < j < pairs.len() ==> (#[trigger] pairs[j]).2 < pairs[last_max_index(pairs)].2,
{
    lemma_last_max_index(pairs);
}

/// Counting a collision of `{a, b}` keeps the list free of a second entry
/// for that pair; once the pair is listed, the order in which the two bodies
/// are given makes no difference.
pub proof fn law_pair_counted_once(pairs: Seq<(u32, u32, u64)>, a: u32, b: u32)
    requires
        forall|i: int, j: int| 0 <= i < j < pairs.len() && (same_pair(a, b))(#[trigger] pairs[i]) ==> !(same_pair(a, b))(#[trigger] pairs[j]),
    ensures
        ({
            let t = count_pair_spec(pairs, a, b);
            forall|i: int, j: int| 0 <= i < j < t.len() && (same_pair(a, b))(#[trigger] t[i]) ==> !(same_pair(a, b))(#[trigger] t[j])
        }),
        first_index(pairs, same_pair(a, b)) < pairs.len()
            ==> count_pair_spec(pairs, b, a) == count_pair_spec(pairs, a, b),
{
    lemma_first_index_bounds(pairs, same_pair(a, b));
    let k = first_index(pairs, same_pair(a, b));
    let t = count_pair_spec(pairs, a, b);
    assert forall|i: int, j: int| 0 <= i < j < t.len() && (same_pair(a, b))(#[trigger] t[i]) implies !(same_pair(a, b))(#[trigger] t[j]) by {
        if k < pairs.len() {
            if i != k && j != k {
                assert(t[i] == pairs[i] && t[j] == pairs[j]);
            } else if i == k {
                assert(t[j] == pairs[j]);
                assert((same_pair(a, b))(pairs[k]));
            } else {
                assert(t[i] == pairs[i]);
                assert((same_pair(a, b))(pairs[i]));
                assert(i < k);
            }
        } else {
            if j < pairs.len() {
                assert(t[i] == pairs[i] && t[j] == pairs[j]);
            } else {
                assert(t[i] == pairs[i]);
                assert((same_pair(a, b))(pairs[i]));
                assert(i < k);
            }
        }
    }
    assert(same_pair(b, a) == same_pair(a, b)) by {
        assert forall|e: (u32, u32, u64)| #[trigger] (same_pair(b, a))(e) == (same_pair(a, b))(e) by {}
        assert(same_pair(b, a) =~= same_pair(a, b));
    }
}

// ─────────────────────────────────────────────────────────────────────────────
// Sleep, constraint and performance statistics
// ─────────────────────────────────────────────────────────────────────────────

/// Statistics about body sleep/wake behaviour.
#[derive(Debug, Clone)]
pub struct PySleepStats {
    /// Total wake events observed.
    pub total_wake_events: u64,
    /// Total sleep events observed.
    pub total_sleep_events: u64,
    /// History of (time, sleeping_fraction) tuples.
    pub sleeping_fraction_history: Vec<(u64, u64)>,
    /// Capacity limit.
    pub capacity: usize,
}

impl PySleepStats {
    /// Create empty statistics with a history capacity.
    pub fn new(capacity: usize) -> (s: Self)
        ensures
            s.total_wake_events == 0,
            s.total_sleep_events == 0,
            s.sleeping_fraction_history@.len() == 0,
            s.capacity == capacity,
    {
        PySleepStats { total_wake_events: 0, total_sleep_events: 0, sleeping_fraction_history: Vec::new(), capacity }
    }
}

/// Solver and constraint quality statistics.
#[derive(Debug, Clone, Copy)]
pub struct PyConstraintStats {
    /// Mean solver residual per step.
    pub mean_residual: u64,
    /// Maximum residual observed.
    pub max_residual: u64,
    /// Mean solver iterations used.
    pub mean_iterations: u64,
    /// Warm-start hit rate (fraction of constraints using warm start).
    pub warm_start_rate: u64,
    /// Number of samples.
    pub sample_count: u64,
    /// Sum of recorded residuals.
    pub residual_sum: u64,
    /// Sum of recorded iteration counts.
    pub iterations_sum: u64,
}

/// Constraint statistics with no samples.
pub open spec fn empty_constraint_stats() -> PyConstraintStats {
    PyConstraintStats {
        mean_residual: REAL_ZERO,
        max_residual: REAL_ZERO,
        mean_iterations: REAL_ZERO,
        warm_start_rate: REAL_ZERO,
        sample_count: 0,
        residual_sum: REAL_ZERO,
        iterations_sum: REAL_ZERO,
    }
}

impl PyConstraintStats {
    /// Create empty statistics.
    pub fn new() -> (s: Self)
        ensures
            s == empty_constraint_stats(),
    {
        PyConstraintStats {
            mean_residual: REAL_ZERO,
            max_residual: REAL_ZERO,
            mean_iterations: REAL_ZERO,
            warm_start_rate: REAL_ZERO,
            sample_count: 0,
            residual_sum: REAL_ZERO,
            iterations_sum: REAL_ZERO,
        }
    }
}

/// Breakdown of time spent per pipeline phase (milliseconds).
#[derive(Debug, Clone, Copy)]
pub struct PyStepTimings {
    /// Broadphase collision detection (ms).
    pub broad_ms: u64,
    /// Narrowphase collision detection (ms).
    pub narrow_ms: u64,
    /// Constraint solver (ms).
    pub solver_ms: u64,
    /// Integration (ms).
    pub integration_ms: u64,
    /// Total step time (ms).
    pub total_ms: u64,
}

/// Tracks per-step performance timings.
#[derive(Debug, Clone)]
pub struct PyPerformanceTracker {
    /// History of per-step timings.
    pub history: Vec<PyStepTimings>,
    /// Capacity limit.
    pub capacity: usize,
}

impl PyPerformanceTracker {
    /// Create an empty tracker with a capacity.
    pub fn new(capacity: usize) -> (t: Self)
        ensures
            t.history@.len() == 0,
            t.capacity == capacity,
    {
        PyPerformanceTracker { capacity, history: Vec::new() }
    }
}

// ─────────────────────────────────────────────────────────────────────────────
// Reports, benchmarks and exports
// ─────────────────────────────────────────────────────────────────────────────

/// A full simulation quality report.
#[derive(Debug, Clone)]
pub struct PySimulationReport {
    /// Total steps simulated.
    pub total_steps: u64,
    /// Total simulation time (s).
    pub total_time: u64,
    /// Energy summary.
    pub energy: PyEnergyTracker,
    /// Momentum summary.
    pub momentum: PyMomentumTracker,
    /// Collision stats.
    pub collision: PyCollisionStats,
    /// Sleep stats.
    pub sleep: PySleepStats,
    /// Constraint stats.
    pub constraint: PyConstraintStats,
    /// Performance stats.
    pub performance: PyPerformanceTracker,
    /// List of anomalies as human-readable strings.
    pub anomaly_list: Vec<String>,
}

/// The message of a report whose energy tracker found `n` anomalies.
pub open spec fn energy_anomaly_message(n: nat) -> Seq<char> {
    "Energy anomalies detected: "@ + decimal(n) + " jumps"@
}

impl PySimulationReport {
    /// Create an empty report: energy history of 1000 steps with jump
    /// threshold 0.5, momentum tolerance 0.01, 32 impulse bins up to 1000,
    /// sleep and performance histories of 1000 steps.
    pub fn new() -> (r: Self)
        ensures
            r.total_steps == 0,
            r.total_time == REAL_ZERO,
            r.energy.history@.len() == 0 && r.energy.capacity == 1000
                && r.energy.anomaly_threshold == REAL_0_5 && r.energy.anomalies@.len() == 0,
            r.momentum.history@.len() == 0 && r.momentum.tolerance == REAL_0_01
                && r.momentum.initial_linear == REAL_ZERO && r.momentum.initial_angular == REAL_ZERO,
            r.collision.total_collisions == 0 && r.collision.pair_counts@.len() == 0
                && r.collision.impulse_histogram@ == zero_bins(32) && r.collision.max_impulse == REAL_THOUSAND
                && r.collision.depth_min == REAL_INFINITY && r.collision.depth_max == REAL_NEG_INFINITY
                && r.collision.depth_mean == REAL_ZERO && r.collision.depth_sum == REAL_ZERO
                && r.collision.depth_count == 0,
            r.sleep.total_wake_events == 0 && r.sleep.total_sleep_events == 0
                && r.sleep.sleeping_fraction_history@.len() == 0 && r.sleep.capacity == 1000,
            r.constraint == empty_constraint_stats(),
            r.performance.history@.len() == 0 && r.performance.capacity == 1000,
            r.anomaly_list@.len() == 0,
    {
        PySimulationReport {
            total_steps: 0,
            total_time: REAL_ZERO,
            energy: PyEnergyTracker::new(1000, REAL_0_5),
            momentum: PyMomentumTracker::new(REAL_0_01),
            collision: PyCollisionStats::new(32, REAL_THOUSAND),
            sleep: PySleepStats::new(1000),
            constraint: PyConstraintStats::new(),
            performance: PyPerformanceTracker::new(1000),
            anomaly_list: Vec::new(),
        }
    }

    /// Append an anomaly message.
    pub fn flag_anomaly(&mut self, msg: &str)
        ensures
            final(self).anomaly_list@.len() == old(self).anomaly_list@.len() + 1,
            final(self).anomaly_list@.drop_last() == old(self).anomaly_list@,
            final(self).anomaly_list@.last()@ == msg@,
            final(self).energy == old(self).energy,
            final(self).total_steps == old(self).total_steps,
            final(self).total_time == old(self).total_time,
            final(self).momentum == old(self).momentum,
            final(self).collision == old(self).collision,
            final(self).sleep == old(self).sleep,
            final(self).constraint == old(self).constraint,
            final(self).performance == old(self).performance,
    {
        self.anomaly_list.push(msg.to_owned());
        assert(self.anomaly_list@.drop_last() =~= old(self).anomaly_list@);
    }

    /// Flag the energy anomalies, if the energy tracker found any.
    pub fn check_energy(&mut self)
        ensures
            old(self).energy.anomalies@.len() == 0 ==> final(self).anomaly_list == old(self).anomaly_list,
            old(self).energy.anomalies@.len() > 0 ==> {
                &&& final(self).anomaly_list@.len() == old(self).anomaly_list@.len() + 1
                &&& final(self).anomaly_list@.drop_last() == old(self).anomaly_list@
                &&& final(self).anomaly_list@.last()@ == energy_anomaly_message(old(self).energy.anomalies@.len())
            },
            final(self).energy == old(self).energy,
            final(self).total_steps == old(self).total_steps,
            final(self).total_time == old(self).total_time,
            final(self).momentum == old(self).momentum,
            final(self).collision == old(self).collision,
            final(self).sleep == old(self).sleep,
            final(self).constraint == old(self).constraint,
            final(self).performance == old(self).performance,
    {
        if self.energy.has_anomalies() {
            let mut msg = String::new();
            msg.append("Energy anomalies detected: ");
            push_decimal_usize(&mut msg, self.energy.anomalies.len());
            msg.append(" jumps");
            self.anomaly_list.push(msg);
            assert(self.anomaly_list@.drop_last() =~= old(self).anomaly_list@);
        }
    }
}

/// Benchmarks a physics simulation over N steps.
#[derive(Debug, Clone, Copy)]
pub struct PyBenchmark {
    /// Number of steps run.
    pub steps_run: u64,
    /// Total wall-clock time for all steps (ms, simulated).
    pub total_ms: u64,
    /// Throughput in steps per second.
    pub throughput: u64,
    /// Body count used in the benchmark.
    pub body_count: usize,
    /// Constraint count used.
    pub constraint_count: usize,
}

impl PyBenchmark {
    /// Create a benchmark for the given body and constraint counts.
    pub fn new(body_count: usize, constraint_count: usize) -> (b: Self)
        ensures
            b == (PyBenchmark { steps_run: 0, total_ms: REAL_ZERO, throughput: REAL_ZERO, body_count, constraint_count }),
    {
        PyBenchmark { steps_run: 0, total_ms: REAL_ZERO, throughput: REAL_ZERO, body_count, constraint_count }
    }

    /// Throughput in steps per second, as last measured.
    pub fn steps_per_second(&self) -> (t: u64)
        ensures
            t == self.throughput,
    {
        self.throughput
    }
}

/// Exports simulation state rows `(time, body_id, px, py, pz, vx, vy, vz, ke)`.
#[derive(Debug, Clone)]
pub struct PyDataExporter {
    /// Recorded rows.
    pub rows: Vec<(u64, u32, u64, u64, u64, u64, u64, u64, u64)>,
}

impl PyDataExporter {
    /// Create an empty exporter.
    pub fn new() -> (e: Self)
        ensures
            e.rows@.len() == 0,
    {
        PyDataExporter { rows: Vec::new() }
    }

    /// Record a body state as one row.
    pub fn record(&mut self, time: u64, body_id: u32, position: [u64; 3], velocity: [u64; 3], ke: u64)
        ensures
            final(self).rows@ == old(self).rows@.push(
                (time, body_id, position[0], position[1], position[2], velocity[0], velocity[1], velocity[2], ke),
            ),
    {
        self.rows.push((time, body_id, position[0], position[1], position[2], velocity[0], velocity[1], velocity[2], ke));
    }

    /// Number of recorded rows.
    pub fn row_count(&self) -> (n: usize)
        ensures
            n == self.rows@.len(),
    {
        self.rows.len()
    }

    /// Clear all rows.
    pub fn clear(&mut self)
        ensures
            final(self).rows@.len() == 0,
    {
        self.rows.clear();
    }
}

} // verus!

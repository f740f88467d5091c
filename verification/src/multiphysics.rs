//! Bookkeeping of coupled multiphysics runs: convergence tracking across
//! physics domains, the coupling-iteration stop rule, and per-domain time
//! series.
//!
//! Real quantities are bit patterns (see `crate::scalars`). Whether one
//! domain's last residual is within its tolerance is a comparison of reals,
//! made outside; the rules that combine those answers are here.

use vstd::prelude::*;

verus! {

/// Integration method for field-line tracing.
#[derive(Debug, Clone, Copy, PartialEq, Eq, Structural)]
pub enum FieldLineMethod {
    /// First-order Euler integration.
    Euler,
    /// Fourth-order Runge-Kutta integration.
    Rk4,
}

/// Synchronization policy when physics domains have different time steps.
#[derive(Debug, Clone, Copy)]
pub enum SyncPolicy {
    /// Use the coarsest time step (minimum frequency).
    Coarsest,
    /// Use the finest time step (maximum frequency).
    Finest,
    /// Use a user-specified fixed time step.
    Fixed(u64),
}

// ─────────────────────────────────────────────────────────────────────────────
// Convergence dashboard
// ─────────────────────────────────────────────────────────────────────────────

/// Convergence history for a single physics domain.
#[derive(Debug, Clone)]
pub struct DomainConvergence {
    /// Name of the physics domain (e.g. `"thermal"`, `"mechanical"`).
    pub name: String,
    /// Residual norm at each coupling iteration.
    pub residuals: Vec<u64>,
    /// Convergence tolerance.
    pub tolerance: u64,
}

impl DomainConvergence {
    /// Construct a new record with no residuals.
    pub fn new(name: &str, tolerance: u64) -> (d: Self)
        ensures
            d.name@ == name@,
            d.residuals@.len() == 0,
            d.tolerance == tolerance,
    {
        DomainConvergence { name: name.to_owned(), residuals: Vec::new(), tolerance }
    }

    /// Append a new residual sample.
    pub fn push(&mut self, residual: u64)
        ensures
            final(self).residuals@ == old(self).residuals@.push(residual),
            final(self).name == old(self).name,
            final(self).tolerance == old(self).tolerance,
    {
        self.residuals.push(residual);
    }

    /// The last residual, if any was recorded.
    pub fn last_residual(&self) -> (r: Option<u64>)
        ensures
            self.residuals@.len() == 0 ==> r is None,
            self.residuals@.len() > 0 ==> r == Some(self.residuals@.last()),
    {
        if self.residuals.len() == 0 {
            None
        } else {
            Some(self.residuals[self.residuals.len() - 1])
        }
    }

    /// The last two residuals `(previous, last)`, from which the convergence
    /// rate is formed, or `None` with fewer than two samples.
    pub fn last_two_residuals(&self) -> (r: Option<(u64, u64)>)
        ensures
            self.residuals@.len() < 2 ==> r is None,
            self.residuals@.len() >= 2 ==> r == Some((
                self.residuals@[self.residuals@.len() - 2],
                self.residuals@[self.residuals@.len() - 1],
            )),
    {
        let n = self.residuals.len();
        if n < 2 {
            None
        } else {
            Some((self.residuals[n - 2], self.residuals[n - 1]))
        }
    }
}

/// A multiphysics convergence dashboard aggregating multiple domains.
#[derive(Debug, Clone)]
pub struct MultiphysicsConvergenceDashboard {
    /// Convergence records for each physics domain.
    pub domains: Vec<DomainConvergence>,
    /// Current coupling iteration number.
    pub iteration: usize,
    /// Maximum coupling iterations allowed.
    pub max_iterations: usize,
}

/// All domains converged: there is at least one, and each one's flag is set.
pub open spec fn all_converged_spec(flags: Seq<bool>) -> bool {
    flags.len() > 0 && forall|i: int| 0 <= i < flags.len() ==> #[trigger] flags[i]
}

impl MultiphysicsConvergenceDashboard {
    /// Construct an empty dashboard.
    pub fn new(max_iterations: usize) -> (d: Self)
        ensures
            d.domains@.len() == 0,
            d.iteration == 0,
            d.max_iterations == max_iterations,
    {
        MultiphysicsConvergenceDashboard { domains: Vec::new(), iteration: 0, max_iterations }
    }

    /// Register a new physics domain.
    pub fn add_domain(&mut self, domain: DomainConvergence)
        ensures
            final(self).domains@ == old(self).domains@.push(domain),
            final(self).iteration == old(self).iteration,
            final(self).max_iterations == old(self).max_iterations,
    {
        self.domains.push(domain);
    }

    /// Advance the coupling iteration counter.
    pub fn next_iteration(&mut self)
        requires
            old(self).iteration < usize::MAX,
        ensures
            final(self).iteration == old(self).iteration + 1,
            final(self).domains@ == old(self).domains@,
            final(self).max_iterations == old(self).max_iterations,
    {
        self.iteration = self.iteration + 1;
    }

    /// Given, for each registered domain in order, whether it has converged,
    /// return `true` if all registered domains have converged (and there is
    /// at least one).
    pub fn all_converged(&self, converged: &[bool]) -> (r: bool)
        requires
            converged@.len() == self.domains@.len(),
        ensures
            r == all_converged_spec(converged@),
    {
        if converged.len() == 0 {
            return false;
        }
        let mut i: usize = 0;
        while i < converged.len()
            invariant
                i <= converged@.len(),
                forall|j: int| 0 <= j < i ==> #[trigger] converged@[j],
            decreases converged@.len() - i,
        {
            if !converged[i] {
                return false;
            }
            i = i + 1;
        }
        true
    }

    /// Return `true` if the iteration limit has been reached.
    pub fn iteration_limit_reached(&self) -> (r: bool)
        ensures
            r == (self.iteration >= self.max_iterations),
    {
        self.iteration >= self.max_iterations
    }

    /// Given each domain's convergence flag, return `true` if either all
    /// domains converged or the limit is reached.
    pub fn should_stop(&self, converged: &[bool]) -> (r: bool)
        requires
            converged@.len() == self.domains@.len(),
        ensures
            r == (all_converged_spec(converged@) || self.iteration >= self.max_iterations),
    {
        self.all_converged(converged) || self.iteration_limit_reached()
    }
}

// ─────────────────────────────────────────────────────────────────────────────
// Time series
// ─────────────────────────────────────────────────────────────────────────────

/// A time series record for one physics domain.
#[derive(Debug, Clone)]
pub struct PhysicsTimeSeries {
    /// Name of the domain.
    pub name: String,
    /// Time stamps of recorded frames (seconds).
    pub times: Vec<u64>,
    /// Scalar quantity sampled at each frame.
    pub values: Vec<u64>,
}

impl PhysicsTimeSeries {
    /// Construct an empty time series.
    pub fn new(name: &str) -> (s: Self)
        ensures
            s.name@ == name@,
            s.times@.len() == 0,
            s.values@.len() == 0,
    {
        PhysicsTimeSeries { name: name.to_owned(), times: Vec::new(), values: Vec::new() }
    }

    /// Append a `(time, value)` sample.
    pub fn push(&mut self, time: u64, value: u64)
        ensures
            final(self).times@ == old(self).times@.push(time),
            final(self).values@ == old(self).values@.push(value),
            final(self).name == old(self).name,
    {
        self.times.push(time);
        self.values.push(value);
    }

    /// Number of recorded samples.
    pub fn len(&self) -> (n: usize)
        ensures
            n == self.times@.len(),
    {
        self.times.len()
    }
}

/// A synchronized multiphysics timeline that aligns multiple domain time series.
#[derive(Debug, Clone)]
pub struct MultiphysicsTimeline {
    /// Registered physics domain time series.
    pub domains: Vec<PhysicsTimeSeries>,
    /// Synchronization policy.
    pub policy: SyncPolicy,
}

impl MultiphysicsTimeline {
    /// Construct an empty timeline with the given sync policy.
    pub fn new(policy: SyncPolicy) -> (t: Self)
        ensures
            t.domains@.len() == 0,
            t.policy == policy,
    {
        MultiphysicsTimeline { domains: Vec::new(), policy }
    }

    /// Register a domain time series.
    pub fn add_domain(&mut self, series: PhysicsTimeSeries)
        ensures
            final(self).domains@ == old(self).domains@.push(series),
            final(self).policy == old(self).policy,
    {
        self.domains.push(series);
    }
}

} // verus!

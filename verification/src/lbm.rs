//! Storage of a two-dimensional D2Q9 lattice-Boltzmann grid: its
//! configuration, the layout of the distribution functions, and the
//! equilibrium initial state.
//!
//! Real quantities are bit patterns (see `crate::scalars`). Collision,
//! streaming and the macroscopic moments compute with reals and stand
//! outside; they read cells through the layout fixed here.

use vstd::prelude::*;
use crate::scalars::{REAL_ZERO, REAL_0_01};

verus! {

/// Bit pattern of `1e-6`, the smallest viscosity a configuration accepts.
pub const MIN_VISCOSITY: u64 = 0x3EB0_C6F7_A0B5_ED8Du64;
/// Bit pattern of `4/9`, the D2Q9 weight of the rest direction.
pub const W_REST: u64 = 0x3FDC_71C7_1C71_C71Cu64;
/// Bit pattern of `1/9`, the D2Q9 weight of the four axis directions.
pub const W_AXIS: u64 = 0x3FBC_71C7_1C71_C71Cu64;
/// Bit pattern of `1/36`, the D2Q9 weight of the four diagonal directions.
pub const W_DIAG: u64 = 0x3F9C_71C7_1C71_C71Cu64;

/// Whether a bit pattern is a NaN.
pub open spec fn is_nan_bits(v: u64) -> bool {
    ((v >> 52u64) & 0x7FFu64) == 0x7FFu64 && (v & 0x000F_FFFF_FFFF_FFFFu64) != 0u64
}

/// `v.max(floor)` for a positive, finite `floor`: NaN and anything below the
/// floor (negative values and `-0.0` included) give the floor. For
/// non-negative values the order of the reals is that of their bit patterns.
pub open spec fn max_with_floor(v: u64, floor: u64) -> u64 {
    if (v >> 63u64) == 1u64 || is_nan_bits(v) || v < floor {
        floor
    } else {
        v
    }
}

/// D2Q9 weight of direction `q`.
pub open spec fn d2q9_weight(q: int) -> u64 {
    if q == 0 {
        W_REST
    } else if 1 <= q <= 4 {
        W_AXIS
    } else {
        W_DIAG
    }
}

/// Configuration for a 2-D D2Q9 Lattice-Boltzmann simulation.
#[derive(Debug, Clone, Copy)]
pub struct PyLbmConfig {
    /// Grid width (number of cells in X direction).
    pub width: usize,
    /// Grid height (number of cells in Y direction).
    pub height: usize,
    /// Kinematic viscosity (nu). Controls the relaxation rate.
    pub viscosity: u64,
    /// External body-force acceleration `[fx, fy]` applied to the fluid.
    pub body_force: [u64; 2],
}

impl PyLbmConfig {
    /// Create a new LBM configuration; the viscosity is raised to at least
    /// `1e-6`.
    pub fn new(width: usize, height: usize, viscosity: u64) -> (c: Self)
        ensures
            c.width == width,
            c.height == height,
            c.viscosity == max_with_floor(viscosity, MIN_VISCOSITY),
            c.body_force == [REAL_ZERO, REAL_ZERO],
    {
        let negative = (viscosity >> 63u64) == 1u64;
        let nan = ((viscosity >> 52u64) & 0x7FFu64) == 0x7FFu64 && (viscosity & 0x000F_FFFF_FFFF_FFFFu64) != 0u64;
        let v = if negative || nan || viscosity < MIN_VISCOSITY { MIN_VISCOSITY } else { viscosity };
        PyLbmConfig { width, height, viscosity: v, body_force: [REAL_ZERO, REAL_ZERO] }
    }

    /// Create a default lid-driven cavity configuration (64×64).
    pub fn lid_driven_cavity() -> (c: Self)
        ensures
            c.width == 64,
            c.height == 64,
            c.viscosity == REAL_0_01,
            c.body_force == [REAL_ZERO, REAL_ZERO],
    {
        assert(REAL_0_01 >= MIN_VISCOSITY);
        assert((REAL_0_01 >> 63u64) == 0u64) by (bit_vector);
        assert(!is_nan_bits(REAL_0_01)) by (bit_vector);
        Self::new(64, 64, REAL_0_01)
    }
}

/// D2Q9 Lattice-Boltzmann grid: nine distribution values per cell, cell
/// `(x, y)` at offset `(y * width + x) * 9`.
#[derive(Debug, Clone)]
pub struct PyLbmGrid {
    /// Number of cells in X.
    pub width: usize,
    /// Number of cells in Y.
    pub height: usize,
    /// Relaxation rate omega.
    pub omega: u64,
    /// External body force `[fx, fy]`.
    pub body_force: [u64; 2],
    /// Distribution functions, indexed `[cell_idx * 9 + q]`.
    pub f: Vec<u64>,
    /// Post-collision / swap buffer.
    pub f_tmp: Vec<u64>,
    /// Accumulated simulation steps.
    pub step_count: u64,
}

/// The x component of D2Q9 direction `q`.
pub open spec fn d2q9_ex(q: int) -> int {
    if q == 1 || q == 5 || q == 8 {
        1
    } else if q == 3 || q == 6 || q == 7 {
        -1
    } else {
        0
    }
}

/// The y component of D2Q9 direction `q`.
pub open spec fn d2q9_ey(q: int) -> int {
    if q == 2 || q == 5 || q == 6 {
        1
    } else if q == 4 || q == 7 || q == 8 {
        -1
    } else {
        0
    }
}

/// Where streaming takes the value at flat position `i` from: the same
/// direction `q` of the cell one step back along `q`, wrapping around the
/// `w` × `h` grid.
pub open spec fn stream_source(w: int, h: int, i: int) -> int {
    let cell = i / 9;
    let q = i % 9;
    let x = cell % w;
    let y = cell / w;
    let sx = (x - d2q9_ex(q)) % w;
    let sy = (y - d2q9_ey(q)) % h;
    (sy * w + sx) * 9 + q
}

/// What streaming puts at flat position `i`.
pub open spec fn streamed_value(post: Seq<u64>, w: int, h: int, i: int) -> u64 {
    post[stream_source(w, h, i)]
}

/// The distributions after streaming `post` over a `w` × `h` grid.
pub open spec fn streamed(post: Seq<u64>, w: int, h: int) -> Seq<u64> {
    Seq::new(post.len(), |i: int| streamed_value(post, w, h, i))
}

/// The D2Q9 velocity of direction `q`, as `(ex, ey)`.
fn d2q9_velocity(q: usize) -> (e: (i64, i64))
    requires
        q < 9,
    ensures
        e.0 == d2q9_ex(q as int),
        e.1 == d2q9_ey(q as int),
{
    let ex: i64 = if q == 1 || q == 5 || q == 8 {
        1
    } else if q == 3 || q == 6 || q == 7 {
        -1
    } else {
        0
    };
    let ey: i64 = if q == 2 || q == 5 || q == 6 {
        1
    } else if q == 4 || q == 7 || q == 8 {
        -1
    } else {
        0
    };
    (ex, ey)
}

/// The coordinate one step back along a velocity component `e`, wrapped
/// to `[0, n)`.
fn back_one(x: usize, n: usize, e: i64) -> (r: usize)
    requires
        x < n,
        -1 <= e <= 1,
    ensures
        r as int == (x - e) % (n as int),
        r < n,
{
    if e == 1 {
        if x == 0 {
            assert((n - 1) as int % (n as int) == (n - 1) as int) by {
                vstd::arithmetic::div_mod::lemma_small_mod((n - 1) as nat, n as nat);
            }
            assert((-1int) % (n as int) == (n - 1) as int) by {
                vstd::arithmetic::div_mod::lemma_mod_add_multiples_vanish(-1, n as int);
            }
            n - 1
        } else {
            assert((x - 1) as int % (n as int) == x - 1) by {
                vstd::arithmetic::div_mod::lemma_small_mod((x - 1) as nat, n as nat);
            }
            x - 1
        }
    } else if e == -1 {
        if x + 1 == n {
            assert((n as int) % (n as int) == 0) by {
                vstd::arithmetic::div_mod::lemma_mod_self_0(n as int);
            }
            0
        } else {
            assert((x + 1) as int % (n as int) == x + 1) by {
                vstd::arithmetic::div_mod::lemma_small_mod((x + 1) as nat, n as nat);
            }
            x + 1
        }
    } else {
        assert((x as int) % (n as int) == x) by {
            vstd::arithmetic::div_mod::lemma_small_mod(x as nat, n as nat);
        }
        x
    }
}

/// The equilibrium state at unit density and rest of `n` cells.
pub open spec fn equilibrium(n: nat) -> Seq<u64> {
    Seq::new(n * 9, |i: int| d2q9_weight(i % 9))
}

impl PyLbmGrid {
    /// Create a grid for `config` with relaxation rate `omega` (computed from
    /// the configuration's viscosity). All cells start at equilibrium with
    /// unit density and zero velocity.
    pub fn new(config: &PyLbmConfig, omega: u64) -> (g: Self)
        requires
            config.width * config.height * 9 <= usize::MAX,
        ensures
            g.width == config.width,
            g.height == config.height,
            g.omega == omega,
            g.body_force == config.body_force,
            g.f@ == equilibrium((config.width * config.height) as nat),
            g.f_tmp@ == g.f@,
            g.step_count == 0,
    {
        let n = config.width * config.height;
        let weights: [u64; 9] = [W_REST, W_AXIS, W_AXIS, W_AXIS, W_AXIS, W_DIAG, W_DIAG, W_DIAG, W_DIAG];
        let mut f: Vec<u64> = Vec::new();
        let mut i: usize = 0;
        while i < n * 9
            invariant
                n * 9 <= usize::MAX,
                i <= n * 9,
                f@.len() == i,
                forall|k: int| 0 <= k < i ==> #[trigger] f@[k] == d2q9_weight(k % 9),
                weights@ == seq![W_REST, W_AXIS, W_AXIS, W_AXIS, W_AXIS, W_DIAG, W_DIAG, W_DIAG, W_DIAG],
            decreases n * 9 - i,
        {
            f.push(weights[i % 9]);
            i = i + 1;
        }
        let f_tmp = f.clone();
        assert(f@ =~= equilibrium(n as nat));
        PyLbmGrid {
            width: config.width,
            height: config.height,
            omega,
            body_force: config.body_force,
            f,
            f_tmp,
            step_count: 0,
        }
    }

    /// Return the grid width.
    pub fn width(&self) -> (w: usize)
        ensures
            w == self.width,
    {
        self.width
    }

    /// Return the grid height.
    pub fn height(&self) -> (h: usize)
        ensures
            h == self.height,
    {
        self.height
    }

    /// Return the number of completed steps.
    pub fn step_count(&self) -> (n: u64)
        ensures
            n == self.step_count,
    {
        self.step_count
    }

    /// Advance the simulation by one LBM time step, given the post-collision
    /// distributions of every cell: keep them as the collision buffer and
    /// stream them, each value moving one cell along its lattice direction
    /// with periodic wrap-around.
    pub fn step(&mut self, post_collision: Vec<u64>)
        requires
            old(self).step_count < u64::MAX,
            old(self).width * old(self).height * 9 <= usize::MAX,
            post_collision@.len() == old(self).width * old(self).height * 9,
        ensures
            final(self).f@ == streamed(post_collision@, old(self).width as int, old(self).height as int),
            final(self).f_tmp@ == post_collision@,
            final(self).step_count == old(self).step_count + 1,
            final(self).width == old(self).width,
            final(self).height == old(self).height,
            final(self).omega == old(self).omega,
            final(self).body_force == old(self).body_force,
    {
        let w = self.width;
        let h = self.height;
        let n = w * h * 9;
        let mut out: Vec<u64> = Vec::new();
        let mut i: usize = 0;
        while i < n
            invariant
                n == w * h * 9,
                n <= usize::MAX,
                post_collision@.len() == n,
                i <= n,
                out@.len() == i,
                forall|k: int| 0 <= k < i ==> #[trigger] out@[k] == streamed_value(post_collision@, w as int, h as int, k),
            decreases n - i,
        {
            assert(w > 0 && h > 0) by (nonlinear_arith)
                requires
                    i < n,
                    n == w * h * 9,
            ;
            let cell = i / 9;
            let q = i % 9;
            let x = cell % w;
            let y = cell / w;
            assert(y < h) by (nonlinear_arith)
                requires
                    cell == i / 9,
                    i < w * h * 9,
                    y == cell / w,
                    w > 0,
            ;
            let (ex, ey) = d2q9_velocity(q);
            let sx = back_one(x, w, ex);
            let sy = back_one(y, h, ey);
            assert((sy * w + sx) * 9 + q < w * h * 9) by (nonlinear_arith)
                requires
                    sx < w,
                    sy < h,
                    q < 9,
            ;
            out.push(post_collision[(sy * w + sx) * 9 + q]);
            i = i + 1;
        }
        assert(out@ =~= streamed(post_collision@, w as int, h as int));
        self.f = out;
        self.f_tmp = post_collision;
        self.step_count = self.step_count + 1;
    }

    /// The nine distribution values of cell `(x, y)`, or `None` outside the
    /// grid (or where the storage is shorter than the grid).
    pub fn cell(&self, x: usize, y: usize) -> (c: Option<[u64; 9]>)
        ensures
            (x < self.width && y < self.height && (y * self.width + x) * 9 + 9 <= self.f@.len()) ==> c == Some(
                [
                    self.f@[(y * self.width + x) * 9],
                    self.f@[(y * self.width + x) * 9 + 1],
                    self.f@[(y * self.width + x) * 9 + 2],
                    self.f@[(y * self.width + x) * 9 + 3],
                    self.f@[(y * self.width + x) * 9 + 4],
                    self.f@[(y * self.width + x) * 9 + 5],
                    self.f@[(y * self.width + x) * 9 + 6],
                    self.f@[(y * self.width + x) * 9 + 7],
                    self.f@[(y * self.width + x) * 9 + 8],
                ],
            ),
            !(x < self.width && y < self.height && (y * self.width + x) * 9 + 9 <= self.f@.len()) ==> c is None,
    {
        if x >= self.width || y >= self.height {
            return None;
        }
        let cells = self.f.len() / 9;
        let row = match y.checked_mul(self.width) {
            Some(r) => r,
            None => return None,
        };
        let c = match row.checked_add(x) {
            Some(c) => c,
            None => return None,
        };
        if c >= cells {
            return None;
        }
        let idx = c * 9;
        Some([
            self.f[idx], self.f[idx + 1], self.f[idx + 2], self.f[idx + 3], self.f[idx + 4],
            self.f[idx + 5], self.f[idx + 6], self.f[idx + 7], self.f[idx + 8],
        ])
    }
}

/// Streaming moves every value one cell along its lattice direction: after
/// a step, direction `q` of cell `(x, y)` holds what direction `q` of the
/// cell one step back along `q` held after collision, wrapping around the
/// edges of the grid.
pub proof fn law_stream_moves_along_direction(post: Seq<u64>, w: int, h: int, x: int, y: int, q: int)
    requires
        0 <= x < w,
        0 <= y < h,
        0 <= q < 9,
        post.len() == w * h * 9,
    ensures
        streamed(post, w, h)[(y * w + x) * 9 + q] == post[(((y - d2q9_ey(q)) % h) * w + (x - d2q9_ex(q)) % w) * 9 + q],
{
    let cell = y * w + x;
    let i = cell * 9 + q;
    assert(0 <= cell < w * h) by (nonlinear_arith)
        requires
            0 <= x < w,
            0 <= y < h,
            cell == y * w + x,
    ;
    assert(0 <= i < w * h * 9) by (nonlinear_arith)
        requires
            0 <= cell < w * h,
            0 <= q < 9,
            i == cell * 9 + q,
    ;
    vstd::arithmetic::div_mod::lemma_fundamental_div_mod_converse(i, 9, cell, q);
    vstd::arithmetic::div_mod::lemma_fundamental_div_mod_converse(cell, w, y, x);
}

/// A flat position decomposed: cell `(x, y)` and direction `q`.
proof fn lemma_decompose(w: int, h: int, i: int)
    requires
        w > 0,
        h > 0,
        0 <= i < w * h * 9,
    ensures
        0 <= (i / 9) % w < w,
        0 <= (i / 9) / w < h,
        0 <= i % 9 < 9,
        i == (((i / 9) / w) * w + (i / 9) % w) * 9 + i % 9,
{
    let cell = i / 9;
    vstd::arithmetic::div_mod::lemma_fundamental_div_mod(i, 9);
    vstd::arithmetic::div_mod::lemma_mod_bound(i, 9);
    vstd::arithmetic::div_mod::lemma_fundamental_div_mod(cell, w);
    vstd::arithmetic::div_mod::lemma_mod_bound(cell, w);
    assert(0 <= cell < w * h) by (nonlinear_arith)
        requires
            0 <= i < w * h * 9,
            i == 9 * cell + i % 9,
            0 <= i % 9 < 9,
    ;
    assert(0 <= cell / w < h) by (nonlinear_arith)
        requires
            0 <= cell < w * h,
            cell == w * (cell / w) + cell % w,
            0 <= cell % w < w,
            w > 0,
    ;
    assert(i == ((cell / w) * w + cell % w) * 9 + i % 9) by (nonlinear_arith)
        requires
            i == 9 * cell + i % 9,
            cell == w * (cell / w) + cell % w,
    ;
}

/// Positions built from in-range coordinates are distinct for distinct coordinates.
proof fn lemma_compose_unique(w: int, h: int, x1: int, y1: int, q1: int, x2: int, y2: int, q2: int)
    requires
        w > 0,
        0 <= x1 < w,
        0 <= x2 < w,
        0 <= q1 < 9,
        0 <= q2 < 9,
        (y1 * w + x1) * 9 + q1 == (y2 * w + x2) * 9 + q2,
    ensures
        x1 == x2 && y1 == y2 && q1 == q2,
{
    let c1 = y1 * w + x1;
    let c2 = y2 * w + x2;
    vstd::arithmetic::div_mod::lemma_fundamental_div_mod_converse(c1 * 9 + q1, 9, c1, q1);
    vstd::arithmetic::div_mod::lemma_fundamental_div_mod_converse(c2 * 9 + q2, 9, c2, q2);
    vstd::arithmetic::div_mod::lemma_fundamental_div_mod_converse(c1, w, y1, x1);
    vstd::arithmetic::div_mod::lemma_fundamental_div_mod_converse(c2, w, y2, x2);
}

/// Stepping back by the same amount from two in-range coordinates lands on
/// the same wrapped coordinate only if they were equal.
proof fn lemma_wrap_injective(a: int, b: int, e: int, n: int)
    requires
        n > 0,
        0 <= a < n,
        0 <= b < n,
        (a - e) % n == (b - e) % n,
    ensures
        a == b,
{
    vstd::arithmetic::div_mod::lemma_fundamental_div_mod(a - e, n);
    vstd::arithmetic::div_mod::lemma_fundamental_div_mod(b - e, n);
    let qa = (a - e) / n;
    let qb = (b - e) / n;
    assert(a - b == n * (qa - qb)) by (nonlinear_arith)
        requires
            a - e == n * qa + (a - e) % n,
            b - e == n * qb + (b - e) % n,
            (a - e) % n == (b - e) % n,
    ;
    assert(qa == qb) by (nonlinear_arith)
        requires
            a - b == n * (qa - qb),
            -n < a - b < n,
            n > 0,
    ;
}

/// Some position of the grid takes its value from position `k`.
pub open spec fn is_read_by_streaming(w: int, h: int, k: int) -> bool {
    exists|i: int| 0 <= i < w * h * 9 && #[trigger] stream_source(w, h, i) == k
}

/// Streaming neither duplicates nor loses a value: distinct positions take
/// their values from distinct sources, and every position of the collided
/// state is the source of some position, so streaming permutes the
/// distributions and conserves their total.
pub proof fn law_stream_is_permutation(w: int, h: int)
    requires
        w > 0,
        h > 0,
    ensures
        forall|i: int| 0 <= i < w * h * 9 ==> 0 <= #[trigger] stream_source(w, h, i) < w * h * 9,
        forall|i: int, j: int|
            0 <= i < w * h * 9 && 0 <= j < w * h * 9 && i != j ==> #[trigger] stream_source(w, h, i) != #[trigger] stream_source(
                w,
                h,
                j,
            ),
        forall|k: int| 0 <= k < w * h * 9 ==> #[trigger] is_read_by_streaming(w, h, k),
{
    assert forall|i: int| 0 <= i < w * h * 9 implies 0 <= #[trigger] stream_source(w, h, i) < w * h * 9 by {
        lemma_source_in_range(w, h, i);
    }
    assert forall|i: int, j: int|
        0 <= i < w * h * 9 && 0 <= j < w * h * 9 && i != j implies #[trigger] stream_source(w, h, i) != #[trigger] stream_source(
        w,
        h,
        j,
    ) by {
        if stream_source(w, h, i) == stream_source(w, h, j) {
            lemma_decompose(w, h, i);
            lemma_decompose(w, h, j);
            let (qi, qj) = (i % 9, j % 9);
            let (xi, xj) = ((i / 9) % w, (j / 9) % w);
            let (yi, yj) = ((i / 9) / w, (j / 9) / w);
            let (sxi, sxj) = ((xi - d2q9_ex(qi)) % w, (xj - d2q9_ex(qj)) % w);
            let (syi, syj) = ((yi - d2q9_ey(qi)) % h, (yj - d2q9_ey(qj)) % h);
            vstd::arithmetic::div_mod::lemma_mod_bound(xi - d2q9_ex(qi), w);
            vstd::arithmetic::div_mod::lemma_mod_bound(xj - d2q9_ex(qj), w);
            lemma_compose_unique(w, h, sxi, syi, qi, sxj, syj, qj);
            lemma_wrap_injective(xi, xj, d2q9_ex(qi), w);
            lemma_wrap_injective(yi, yj, d2q9_ey(qi), h);
        }
    }
    assert forall|k: int| 0 <= k < w * h * 9 implies #[trigger] is_read_by_streaming(w, h, k) by {
        lemma_decompose(w, h, k);
        let q = k % 9;
        let kx = (k / 9) % w;
        let ky = (k / 9) / w;
        let x = (kx + d2q9_ex(q)) % w;
        let y = (ky + d2q9_ey(q)) % h;
        vstd::arithmetic::div_mod::lemma_mod_bound(kx + d2q9_ex(q), w);
        vstd::arithmetic::div_mod::lemma_mod_bound(ky + d2q9_ey(q), h);
        let i = (y * w + x) * 9 + q;
        assert(0 <= i < w * h * 9) by (nonlinear_arith)
            requires
                0 <= x < w,
                0 <= y < h,
                0 <= q < 9,
                i == (y * w + x) * 9 + q,
        ;
        lemma_decompose(w, h, i);
        lemma_compose_unique(w, h, (i / 9) % w, (i / 9) / w, i % 9, x, y, q);
        lemma_back_after_forward(kx, d2q9_ex(q), w);
        lemma_back_after_forward(ky, d2q9_ey(q), h);
        assert(stream_source(w, h, i) == k);
    }
}

/// The coordinate reached by stepping forward and then back is the start.
proof fn lemma_back_after_forward(a: int, e: int, n: int)
    requires
        n > 0,
        0 <= a < n,
    ensures
        (((a + e) % n) - e) % n == a,
{
    vstd::arithmetic::div_mod::lemma_fundamental_div_mod(a + e, n);
    let t = (a + e) / n;
    assert(((a + e) % n) - e == a + n * (-t)) by (nonlinear_arith)
        requires
            a + e == n * t + (a + e) % n,
    ;
    vstd::arithmetic::div_mod::lemma_fundamental_div_mod_converse(a + n * (-t), n, -t, a);
}

/// The source of every position is a position.
proof fn lemma_source_in_range(w: int, h: int, i: int)
    requires
        w > 0,
        h > 0,
        0 <= i < w * h * 9,
    ensures
        0 <= stream_source(w, h, i) < w * h * 9,
{
    lemma_decompose(w, h, i);
    let q = i % 9;
    let x = (i / 9) % w;
    let y = (i / 9) / w;
    vstd::arithmetic::div_mod::lemma_mod_bound(x - d2q9_ex(q), w);
    vstd::arithmetic::div_mod::lemma_mod_bound(y - d2q9_ey(q), h);
    let sx = (x - d2q9_ex(q)) % w;
    let sy = (y - d2q9_ey(q)) % h;
    assert(0 <= (sy * w + sx) * 9 + q < w * h * 9) by (nonlinear_arith)
        requires
            0 <= sx < w,
            0 <= sy < h,
            0 <= q < 9,
    ;
}

} // verus!

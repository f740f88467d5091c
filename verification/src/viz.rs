//! Visualization data: colormaps, materials, renderers, the scene graph,
//! post-processing settings and debug overlays.
//!
//! Real values are bit patterns (see `crate::scalars`). Color mapping, normal
//! computation, tone mapping and streamline tracing compute on real numbers
//! and are kept outside this library; the containers, counts, buffers and
//! the scene graph's bookkeeping are here.

use vstd::prelude::*;
use crate::scalars::{
    REAL_ZERO, REAL_ONE, REAL_MINUS_ONE, REAL_0_01, REAL_0_025, REAL_0_05, REAL_0_063, REAL_0_1,
    REAL_0_3, REAL_0_4, REAL_0_5, REAL_0_8, REAL_0_99, REAL_TWO, REAL_2_2, REAL_EIGHT, REAL_PI,
};
use crate::seqs::{first_index, lemma_first_index, lemma_first_index_bounds};

verus! {

// ---------------------------------------------------------------------------
// Colormaps and materials
// ---------------------------------------------------------------------------

/// Named colormap for scalar field visualization.
#[derive(Debug, Clone, Copy, PartialEq, Eq, Structural)]
pub enum ColormapKind {
    /// Viridis perceptually uniform colormap.
    Viridis,
    /// Plasma perceptually uniform colormap.
    Plasma,
    /// Magma perceptually uniform colormap.
    Magma,
    /// Inferno perceptually uniform colormap.
    Inferno,
    /// Turbo rainbow colormap.
    Turbo,
    /// Greyscale colormap.
    Greys,
    /// Red-Blue diverging colormap.
    RdBu,
    /// Spectral diverging colormap.
    Spectral,
    /// Coolwarm diverging colormap.
    Coolwarm,
    /// Hot colormap.
    Hot,
    /// Jet colormap (legacy).
    Jet,
}

/// A colormap mapping scalar values in `[vmin, vmax]` to RGBA colors.
#[derive(Debug, Clone, Copy)]
pub struct PyColormap {
    /// The colormap kind.
    pub kind: ColormapKind,
    /// Minimum scalar value (maps to t=0).
    pub vmin: u64,
    /// Maximum scalar value (maps to t=1).
    pub vmax: u64,
    /// Alpha value for all colors (0=transparent, 1=opaque).
    pub alpha: u64,
}

impl PyColormap {
    /// Create a new, opaque colormap with explicit range.
    pub fn new(kind: ColormapKind, vmin: u64, vmax: u64) -> (c: Self)
        ensures
            c == (PyColormap { kind, vmin, vmax, alpha: REAL_ONE }),
    {
        PyColormap { kind, vmin, vmax, alpha: REAL_ONE }
    }

    /// A Viridis colormap over `[0, 1]`.
    pub fn viridis() -> (c: Self)
        ensures
            c == (PyColormap { kind: ColormapKind::Viridis, vmin: REAL_ZERO, vmax: REAL_ONE, alpha: REAL_ONE }),
    {
        Self::new(ColormapKind::Viridis, REAL_ZERO, REAL_ONE)
    }

    /// A Plasma colormap over `[0, 1]`.
    pub fn plasma() -> (c: Self)
        ensures
            c == (PyColormap { kind: ColormapKind::Plasma, vmin: REAL_ZERO, vmax: REAL_ONE, alpha: REAL_ONE }),
    {
        Self::new(ColormapKind::Plasma, REAL_ZERO, REAL_ONE)
    }

    /// A Jet colormap over `[0, 1]`.
    pub fn jet() -> (c: Self)
        ensures
            c == (PyColormap { kind: ColormapKind::Jet, vmin: REAL_ZERO, vmax: REAL_ONE, alpha: REAL_ONE }),
    {
        Self::new(ColormapKind::Jet, REAL_ZERO, REAL_ONE)
    }
}

/// Surface material properties for mesh rendering.
#[derive(Debug, Clone, Copy)]
pub struct PyMaterial {
    /// Base color RGBA.
    pub base_color: [u64; 4],
    /// Metallic factor (0=dielectric, 1=metal).
    pub metallic: u64,
    /// Roughness factor (0=mirror, 1=fully rough).
    pub roughness: u64,
    /// Emissive color RGB.
    pub emissive: [u64; 3],
    /// Whether to use double-sided rendering.
    pub double_sided: bool,
    /// Optional colormap for scalar-driven coloring.
    pub colormap: Option<PyColormap>,
}

/// A dielectric material of roughness 0.5 with the given base color.
pub open spec fn plain_material(base_color: [u64; 4]) -> PyMaterial {
    PyMaterial {
        base_color,
        metallic: REAL_ZERO,
        roughness: REAL_0_5,
        emissive: [REAL_ZERO, REAL_ZERO, REAL_ZERO],
        double_sided: false,
        colormap: None,
    }
}

impl PyMaterial {
    /// Create a default PBR material.
    pub fn new(base_color: [u64; 4]) -> (m: Self)
        ensures
            m == plain_material(base_color),
    {
        PyMaterial {
            base_color,
            metallic: REAL_ZERO,
            roughness: REAL_0_5,
            emissive: [REAL_ZERO, REAL_ZERO, REAL_ZERO],
            double_sided: false,
            colormap: None,
        }
    }

    /// Red material.
    pub fn red() -> (m: Self)
        ensures
            m == plain_material([REAL_ONE, REAL_ZERO, REAL_ZERO, REAL_ONE]),
    {
        Self::new([REAL_ONE, REAL_ZERO, REAL_ZERO, REAL_ONE])
    }

    /// Blue material.
    pub fn blue() -> (m: Self)
        ensures
            m == plain_material([REAL_ZERO, REAL_0_3, REAL_ONE, REAL_ONE]),
    {
        Self::new([REAL_ZERO, REAL_0_3, REAL_ONE, REAL_ONE])
    }

    /// Metallic silver material.
    pub fn silver() -> (m: Self)
        ensures
            m == (PyMaterial {
                base_color: [REAL_0_8, REAL_0_8, REAL_0_8, REAL_ONE],
                metallic: REAL_ONE,
                roughness: REAL_0_1,
                emissive: [REAL_ZERO, REAL_ZERO, REAL_ZERO],
                double_sided: false,
                colormap: None,
            }),
    {
        PyMaterial {
            base_color: [REAL_0_8, REAL_0_8, REAL_0_8, REAL_ONE],
            metallic: REAL_ONE,
            roughness: REAL_0_1,
            emissive: [REAL_ZERO, REAL_ZERO, REAL_ZERO],
            double_sided: false,
            colormap: None,
        }
    }
}

// ---------------------------------------------------------------------------
// Mesh connectivity
// ---------------------------------------------------------------------------

/// The two triangles of the quad of a UV sphere at latitude band `lat` and
/// longitude `lon`, with `lon_segments + 1` vertices per latitude ring.
pub open spec fn sphere_quad(lat: int, lon: int, lon_segments: int) -> Seq<int> {
    let row = lon_segments + 1;
    let a = lat * row + lon;
    seq![a, a + row, a + row + 1, a, a + row + 1, a + 1]
}

/// The quads of latitude band `lat` for the first `k` longitudes.
pub open spec fn sphere_band(lat: int, k: int, lon_segments: int) -> Seq<int>
    decreases k,
{
    if k <= 0 {
        Seq::empty()
    } else {
        sphere_band(lat, k - 1, lon_segments) + sphere_quad(lat, k - 1, lon_segments)
    }
}

/// The triangle indices of the first `k` latitude bands of a UV sphere.
pub open spec fn sphere_indices(k: int, lon_segments: int) -> Seq<int>
    decreases k,
{
    if k <= 0 {
        Seq::empty()
    } else {
        sphere_indices(k - 1, lon_segments) + sphere_band(k - 1, lon_segments, lon_segments)
    }
}

/// The integer values of a list of indices.
pub open spec fn index_values(v: Seq<u32>) -> Seq<int> {
    v.map_values(|x: u32| x as int)
}

/// Triangle indices of a UV sphere with `lat_segments` latitude bands and
/// `lon_segments` longitudes: two triangles per quad, band by band.
pub fn sphere_mesh_indices(lat_segments: u32, lon_segments: u32) -> (idx: Vec<u32>)
    requires
        (lat_segments + 1) * (lon_segments + 1) <= u32::MAX,
    ensures
        index_values(idx@) == sphere_indices(lat_segments as int, lon_segments as int),
{
    let mut idx: Vec<u32> = Vec::new();
    assert(lon_segments + 1 <= (lat_segments + 1) * (lon_segments + 1)) by (nonlinear_arith);
    let row = lon_segments + 1;
    let mut lat: u32 = 0;
    while lat < lat_segments
        invariant
            row == lon_segments + 1,
            (lat_segments + 1) * (lon_segments + 1) <= u32::MAX,
            lat <= lat_segments,
            index_values(idx@) == sphere_indices(lat as int, lon_segments as int),
        decreases lat_segments - lat,
    {
        let ghost head = index_values(idx@);
        let mut lon: u32 = 0;
        while lon < lon_segments
            invariant
                row == lon_segments + 1,
                (lat_segments + 1) * (lon_segments + 1) <= u32::MAX,
                lat < lat_segments,
                lon <= lon_segments,
                index_values(idx@) == head + sphere_band(lat as int, lon as int, lon_segments as int),
            decreases lon_segments - lon,
        {
            assert((lat + 1) * row <= (lat_segments + 1) * (lon_segments + 1)) by (nonlinear_arith)
                requires lat < lat_segments, row == lon_segments + 1;
            assert(lat * row + lon + row + 1 <= (lat + 1) * row + row) by (nonlinear_arith)
                requires lon < lon_segments, row == lon_segments + 1;
            assert((lat + 1) * row + row == (lat + 2) * row) by (nonlinear_arith);
            assert((lat + 2) * row <= (lat_segments + 1) * (lon_segments + 1)) by (nonlinear_arith)
                requires lat + 1 <= lat_segments, row == lon_segments + 1;
            let a = lat * row + lon;
            let b = a + row;
            let c = b + 1;
            let d = a + 1;
            let ghost before = idx@;
            idx.push(a);
            idx.push(b);
            idx.push(c);
            idx.push(a);
            idx.push(c);
            idx.push(d);
            assert(idx@ =~= before + seq![a, b, c, a, c, d]);
            assert(index_values(idx@) =~= index_values(before) + seq![a as int, b as int, c as int, a as int, c as int, d as int]);
            assert(sphere_quad(lat as int, lon as int, lon_segments as int) =~= seq![a as int, b as int, c as int, a as int, c as int, d as int]);
            assert(index_values(idx@) =~= head + sphere_band(lat as int, lon as int + 1, lon_segments as int));
            lon = lon + 1;
        }
        lat = lat + 1;
    }
    idx
}

proof fn lemma_sphere_band(lat: int, k: int, m: int)
    requires
        0 <= k,
    ensures
        sphere_band(lat, k, m).len() == 6 * k,
        forall|j: int, t: int| 0 <= j < k && 0 <= t < 6 ==> #[trigger] sphere_band(lat, k, m)[6 * j + t] == sphere_quad(lat, j, m)[t],
    decreases k,
{
    if k > 0 {
        lemma_sphere_band(lat, k - 1, m);
        let prev = sphere_band(lat, k - 1, m);
        let q = sphere_quad(lat, k - 1, m);
        assert(sphere_band(lat, k, m) == prev + q);
        assert forall|j: int, t: int| 0 <= j < k && 0 <= t < 6 implies #[trigger] sphere_band(lat, k, m)[6 * j + t] == sphere_quad(lat, j, m)[t] by {
            if j < k - 1 {
                assert(6 * j + t < 6 * (k - 1));
                assert((prev + q)[6 * j + t] == prev[6 * j + t]);
            } else {
                assert((prev + q)[6 * j + t] == q[t]);
            }
        }
    }
}

proof fn lemma_sphere_indices(k: int, m: int)
    requires
        0 <= k,
        0 <= m,
    ensures
        sphere_indices(k, m).len() == 6 * k * m,
        forall|lat: int, p: int| 0 <= lat < k && 0 <= p < 6 * m ==> #[trigger] sphere_indices(k, m)[6 * (lat * m) + p] == sphere_band(lat, m, m)[p],
    decreases k,
{
    if k > 0 {
        lemma_sphere_indices(k - 1, m);
        lemma_sphere_band(k - 1, m, m);
        let prev = sphere_indices(k - 1, m);
        let band = sphere_band(k - 1, m, m);
        assert(sphere_indices(k, m) == prev + band);
        assert(6 * (k - 1) * m + 6 * m == 6 * k * m) by (nonlinear_arith);
        assert forall|lat: int, p: int| 0 <= lat < k && 0 <= p < 6 * m implies #[trigger] sphere_indices(k, m)[6 * (lat * m) + p] == sphere_band(lat, m, m)[p] by {
            if lat < k - 1 {
                assert(6 * (lat * m) + p < 6 * (k - 1) * m) by (nonlinear_arith)
                    requires lat < k - 1, 0 <= p < 6 * m, 0 <= lat;
                assert((prev + band)[6 * (lat * m) + p] == prev[6 * (lat * m) + p]);
            } else {
                assert(6 * (lat * m) == 6 * (k - 1) * m) by (nonlinear_arith)
                    requires lat == k - 1;
                assert((prev + band)[6 * (lat * m) + p] == band[p]);
            }
        }
    }
}

/// The sphere's index list covers its vertex grid of `lat_segments + 1`
/// rings of `lon_segments + 1` vertices, vertex `(r, c)` being number
/// `r * (lon_segments + 1) + c`: it holds two triangles per quad, and the
/// triangles of quad `(lat, lon)`, at position `6 * (lat * lon_segments + lon)`,
/// are `(r, c), (r + 1, c), (r + 1, c + 1)` and `(r, c), (r + 1, c + 1), (r, c + 1)`
/// for `r = lat`, `c = lon`.
pub proof fn law_sphere_quad_corners(lat_segments: int, lon_segments: int, lat: int, lon: int)
    requires
        0 <= lat < lat_segments,
        0 <= lon < lon_segments,
    ensures
        sphere_indices(lat_segments, lon_segments).len() == 6 * lat_segments * lon_segments,
        ({
            let s = sphere_indices(lat_segments, lon_segments);
            let q = 6 * (lat * lon_segments + lon);
            let row = lon_segments + 1;
            &&& s[q] == lat * row + lon
            &&& s[q + 1] == (lat + 1) * row + lon
            &&& s[q + 2] == (lat + 1) * row + lon + 1
            &&& s[q + 3] == lat * row + lon
            &&& s[q + 4] == (lat + 1) * row + lon + 1
            &&& s[q + 5] == lat * row + lon + 1
        }),
{
    let m = lon_segments;
    lemma_sphere_indices(lat_segments, m);
    lemma_sphere_band(lat, m, m);
    let s = sphere_indices(lat_segments, m);
    let row = m + 1;
    assert(6 * (lat * m + lon) == 6 * (lat * m) + 6 * lon) by (nonlinear_arith);
    assert((lat + 1) * row == lat * row + row) by (nonlinear_arith);
    assert forall|t: int| 0 <= t < 6 implies s[6 * (lat * m + lon) + t] == sphere_quad(lat, lon, m)[t] by {
        assert(s[6 * (lat * m) + (6 * lon + t)] == sphere_band(lat, m, m)[6 * lon + t]);
        assert(sphere_band(lat, m, m)[6 * lon + t] == sphere_quad(lat, lon, m)[t]);
        assert(6 * (lat * m) + (6 * lon + t) == 6 * (lat * m + lon) + t);
    }
    assert(s[6 * (lat * m + lon) + 0] == sphere_quad(lat, lon, m)[0]);
    assert(s[6 * (lat * m + lon) + 1] == sphere_quad(lat, lon, m)[1]);
    assert(s[6 * (lat * m + lon) + 2] == sphere_quad(lat, lon, m)[2]);
    assert(s[6 * (lat * m + lon) + 3] == sphere_quad(lat, lon, m)[3]);
    assert(s[6 * (lat * m + lon) + 4] == sphere_quad(lat, lon, m)[4]);
    assert(s[6 * (lat * m + lon) + 5] == sphere_quad(lat, lon, m)[5]);
}

/// The two triangles of face `f` of a box mesh, four vertices per face.
pub open spec fn box_face(f: int) -> Seq<int> {
    let base = 4 * f;
    seq![base, base + 1, base + 2, base, base + 2, base + 3]
}

/// The triangle indices of the first `k` faces of a box mesh.
pub open spec fn box_indices(k: int) -> Seq<int>
    decreases k,
{
    if k <= 0 {
        Seq::empty()
    } else {
        box_indices(k - 1) + box_face(k - 1)
    }
}

/// Triangle indices of a box mesh: six faces of four vertices, two
/// triangles each.
pub fn box_mesh_indices() -> (idx: Vec<u32>)
    ensures
        index_values(idx@) == box_indices(6),
{
    let mut idx: Vec<u32> = Vec::new();
    let mut face: u32 = 0;
    while face < 6
        invariant
            face <= 6,
            index_values(idx@) == box_indices(face as int),
        decreases 6 - face,
    {
        let base = face * 4;
        idx.push(base);
        idx.push(base + 1);
        idx.push(base + 2);
        idx.push(base);
        idx.push(base + 2);
        idx.push(base + 3);
        assert(index_values(idx@) =~= box_indices(face as int + 1));
        face = face + 1;
    }
    idx
}

// ---------------------------------------------------------------------------
// Mesh and particle renderers
// ---------------------------------------------------------------------------

/// Mesh data with material and optional per-vertex scalar field.
#[derive(Debug, Clone)]
pub struct PyMeshRenderer {
    /// Flat array of vertex positions: `[x0, y0, z0, x1, …]`.
    pub vertices: Vec<u64>,
    /// Flat array of vertex normals (same length as vertices).
    pub normals: Vec<u64>,
    /// Triangle index list (3 indices per triangle).
    pub indices: Vec<u32>,
    /// Surface material.
    pub material: PyMaterial,
    /// Optional per-vertex scalar values for colormap coloring.
    pub scalars: Option<Vec<u64>>,
}

/// A pixel buffer of `width × height` RGBA pixels all of one color.
pub open spec fn filled_buffer(buf: Seq<u8>, n_pixels: nat, color: [u8; 4]) -> bool {
    &&& buf.len() == 4 * n_pixels
    &&& forall|i: int, c: int| 0 <= i < n_pixels && 0 <= c < 4 ==> #[trigger] buf[4 * i + c] == color[c]
}

impl PyMeshRenderer {
    /// Store the per-vertex scalars and set the material's colormap.
    pub fn apply_colormap(&mut self, scalars: Vec<u64>, colormap: PyColormap)
        ensures
            final(self).vertices == old(self).vertices,
            final(self).normals == old(self).normals,
            final(self).indices == old(self).indices,
            final(self).scalars == Some(scalars),
            final(self).material == (PyMaterial { colormap: Some(colormap), ..old(self).material }),
    {
        self.scalars = Some(scalars);
        self.material.colormap = Some(colormap);
    }

    /// Number of vertices (three coordinates each).
    pub fn vertex_count(&self) -> (n: usize)
        ensures
            n == self.vertices@.len() / 3,
    {
        self.vertices.len() / 3
    }

    /// Number of triangles (three indices each).
    pub fn triangle_count(&self) -> (n: usize)
        ensures
            n == self.indices@.len() / 3,
    {
        self.indices.len() / 3
    }

    /// An RGBA pixel buffer of `width × height` pixels cleared to the
    /// background color.
    pub fn render_to_buffer(&self, width: u32, height: u32, background: [u8; 4]) -> (buf: Vec<u8>)
        requires
            width * height * 4 <= u32::MAX,
        ensures
            filled_buffer(buf@, (width * height) as nat, background),
    {
        let pixels = width * height;
        let n = (pixels * 4) as usize;
        let mut buf = vec![0u8; n];
        let mut i: usize = 0;
        while i < pixels as usize
            invariant
                pixels == width * height,
                n == 4 * pixels,
                buf@.len() == n,
                i <= pixels,
                forall|k: int, c: int| 0 <= k < i && 0 <= c < 4 ==> #[trigger] buf@[4 * k + c] == background[c],
            decreases pixels - i,
        {
            buf.set(4 * i, background[0]);
            buf.set(4 * i + 1, background[1]);
            buf.set(4 * i + 2, background[2]);
            buf.set(4 * i + 3, background[3]);
            proof {
                assert forall|k: int, c: int| 0 <= k < i + 1 && 0 <= c < 4 implies #[trigger] buf@[4 * k + c] == background[c] by {
                    if k == i {
                        assert(c == 0 || c == 1 || c == 2 || c == 3);
                    }
                }
            }
            i = i + 1;
        }
        buf
    }
}

/// Renderer for particle systems.
#[derive(Debug, Clone)]
pub struct PyParticleRenderer {
    /// Flat array of particle positions: `[x0, y0, z0, x1, …]`.
    pub positions: Vec<u64>,
    /// Per-particle radii.
    pub radii: Vec<u64>,
    /// Per-particle RGBA colors, flat: `[r0, g0, b0, a0, r1, …]`.
    pub colors: Vec<u64>,
    /// Whether to use billboard rendering (always face camera).
    pub billboard: bool,
    /// Whether to use hardware instancing.
    pub use_instancing: bool,
    /// Optional colormap applied over a scalar field.
    pub colormap: Option<PyColormap>,
}

/// The default particle color, orange `[0.8, 0.4, 0.1, 1.0]`.
pub open spec fn default_particle_color() -> Seq<u64> {
    seq![REAL_0_8, REAL_0_4, REAL_0_1, REAL_ONE]
}

impl PyParticleRenderer {
    /// Create a particle renderer: one particle per three coordinates, each
    /// of radius 0.05 and the default orange color; billboards and instancing on.
    pub fn new(positions: Vec<u64>) -> (r: Self)
        requires
            positions@.len() / 3 * 4 <= usize::MAX,
        ensures
            r.positions@ == positions@,
            r.radii@ == Seq::new(positions@.len() / 3, |i: int| REAL_0_05),
            r.colors@.len() == 4 * (positions@.len() / 3),
            forall|i: int| 0 <= i < r.colors@.len() ==> #[trigger] r.colors@[i] == default_particle_color()[i % 4],
            r.billboard,
            r.use_instancing,
            r.colormap is None,
    {
        let n = positions.len() / 3;
        let radii = vec![REAL_0_05; n];
        let mut colors: Vec<u64> = Vec::new();
        let mut i: usize = 0;
        while i < n
            invariant
                n == positions@.len() / 3,
                n * 4 <= usize::MAX,
                i <= n,
                colors@.len() == 4 * i,
                forall|k: int| 0 <= k < colors@.len() ==> #[trigger] colors@[k] == default_particle_color()[k % 4],
            decreases n - i,
        {
            colors.push(REAL_0_8);
            colors.push(REAL_0_4);
            colors.push(REAL_0_1);
            colors.push(REAL_ONE);
            i = i + 1;
        }
        assert(radii@ =~= Seq::new(positions@.len() / 3, |i: int| REAL_0_05));
        PyParticleRenderer { positions, radii, colors, billboard: true, use_instancing: true, colormap: None }
    }

    /// Give every particle the same radius.
    pub fn set_uniform_radius(&mut self, radius: u64)
        ensures
            final(self).positions == old(self).positions,
            final(self).colors == old(self).colors,
            final(self).radii@ == Seq::new(old(self).positions@.len() / 3, |i: int| radius),
            final(self).billboard == old(self).billboard,
            final(self).use_instancing == old(self).use_instancing,
            final(self).colormap == old(self).colormap,
    {
        let n = self.positions.len() / 3;
        self.radii = vec![radius; n];
        assert(self.radii@ =~= Seq::new(old(self).positions@.len() / 3, |i: int| radius));
    }

    /// Number of particles (three coordinates each).
    pub fn particle_count(&self) -> (n: usize)
        ensures
            n == self.positions@.len() / 3,
    {
        self.positions.len() / 3
    }
}

// ---------------------------------------------------------------------------
// Volume rendering
// ---------------------------------------------------------------------------

/// A control point in a transfer function (scalar → RGBA).
#[derive(Debug, Clone, Copy)]
pub struct TransferPoint {
    /// Scalar value in `[0, 1]`.
    pub scalar: u64,
    /// RGBA color at this point.
    pub color: [u64; 4],
}

/// Transfer function mapping scalar densities to RGBA for volume rendering.
#[derive(Debug, Clone)]
pub struct PyTransferFunction {
    /// Sorted control points.
    pub control_points: Vec<TransferPoint>,
}

impl PyTransferFunction {
    /// A two-point transfer function: `low_color` at 0, `high_color` at 1.
    pub fn simple(low_color: [u64; 4], high_color: [u64; 4]) -> (f: Self)
        ensures
            f.control_points@ == seq![
                TransferPoint { scalar: REAL_ZERO, color: low_color },
                TransferPoint { scalar: REAL_ONE, color: high_color },
            ],
    {
        let mut control_points: Vec<TransferPoint> = Vec::new();
        control_points.push(TransferPoint { scalar: REAL_ZERO, color: low_color });
        control_points.push(TransferPoint { scalar: REAL_ONE, color: high_color });
        PyTransferFunction { control_points }
    }
}

/// Settings for ray-marching volume rendering.
#[derive(Debug, Clone, Copy)]
pub struct RayMarchSettings {
    /// Step size along the ray.
    pub step_size: u64,
    /// Maximum number of steps.
    pub max_steps: u32,
    /// Early termination opacity threshold.
    pub opacity_threshold: u64,
    /// Jitter the ray origin to reduce banding.
    pub jitter: bool,
}

impl Default for RayMarchSettings {
    fn default() -> (s: Self)
        ensures
            s == (RayMarchSettings { step_size: REAL_0_01, max_steps: 512, opacity_threshold: REAL_0_99, jitter: true }),
    {
        RayMarchSettings { step_size: REAL_0_01, max_steps: 512, opacity_threshold: REAL_0_99, jitter: true }
    }
}

/// Volume renderer for 3D scalar fields stored `[z][y][x]`, flattened.
#[derive(Debug, Clone)]
pub struct PyVolumeRenderer {
    /// 3D scalar field stored in `[z][y][x]` order, flattened.
    pub data: Vec<u64>,
    /// Grid dimensions `[nx, ny, nz]`.
    pub dims: [u32; 3],
    /// World-space bounding box `[min_x, min_y, min_z, max_x, max_y, max_z]`.
    pub bounds: [u64; 6],
    /// Transfer function for density → RGBA mapping.
    pub transfer_function: PyTransferFunction,
    /// Ray marching settings.
    pub ray_march: RayMarchSettings,
}

/// The flat index of grid cell `(ix, iy, iz)`.
pub open spec fn voxel_index(dims: [u32; 3], ix: u32, iy: u32, iz: u32) -> int {
    iz * dims[1] * dims[0] + iy * dims[0] + ix
}

impl PyVolumeRenderer {
    /// Create a volume renderer with the default ray-marching settings.
    pub fn new(
        data: Vec<u64>,
        dims: [u32; 3],
        bounds: [u64; 6],
        transfer_function: PyTransferFunction,
    ) -> (v: Self)
        ensures
            v.data == data,
            v.dims == dims,
            v.bounds == bounds,
            v.transfer_function == transfer_function,
            v.ray_march == (RayMarchSettings { step_size: REAL_0_01, max_steps: 512, opacity_threshold: REAL_0_99, jitter: true }),
    {
        PyVolumeRenderer { data, dims, bounds, transfer_function, ray_march: RayMarchSettings::default() }
    }

    /// The scalar at grid cell `(ix, iy, iz)`, or 0 past the end of the data.
    pub fn sample_at(&self, ix: u32, iy: u32, iz: u32) -> (v: u64)
        requires
            iz * self.dims[1] <= u32::MAX,
            iz * self.dims[1] * self.dims[0] <= u32::MAX,
            iy * self.dims[0] <= u32::MAX,
            voxel_index(self.dims, ix, iy, iz) <= u32::MAX,
        ensures
            v == if voxel_index(self.dims, ix, iy, iz) < self.data@.len() {
                self.data@[voxel_index(self.dims, ix, iy, iz)]
            } else {
                REAL_ZERO
            },
    {
        let nx = self.dims[0];
        let ny = self.dims[1];
        let idx = iz * ny * nx + iy * nx + ix;
        if (idx as usize) < self.data.len() {
            self.data[idx as usize]
        } else {
            REAL_ZERO
        }
    }

    /// Total number of voxels `nx · ny · nz`.
    pub fn voxel_count(&self) -> (n: u64)
        requires
            self.dims[0] * self.dims[1] * self.dims[2] <= u64::MAX,
        ensures
            n == self.dims[0] * self.dims[1] * self.dims[2],
    {
        let a = self.dims[0] as u64;
        let b = self.dims[1] as u64;
        let c = self.dims[2] as u64;
        if c == 0 {
            assert(a * b * c == 0) by (nonlinear_arith)
                requires c == 0;
            return 0;
        }
        assert(a * b <= a * b * c) by (nonlinear_arith)
            requires c >= 1, a >= 0, b >= 0;
        a * b * c
    }
}

// ---------------------------------------------------------------------------
// Scene graph
// ---------------------------------------------------------------------------

/// A transform node in the scene hierarchy.
#[derive(Debug, Clone)]
pub struct PySceneNode {
    /// Node identifier.
    pub id: u32,
    /// Optional parent node id.
    pub parent: Option<u32>,
    /// Local translation `[tx, ty, tz]`.
    pub translation: [u64; 3],
    /// Local rotation as quaternion `[qx, qy, qz, qw]`.
    pub rotation: [u64; 4],
    /// Local scale `[sx, sy, sz]`.
    pub scale: [u64; 3],
    /// Human-readable label.
    pub label: String,
    /// Whether this node is visible.
    pub visible: bool,
}

/// An identity node: no parent, no translation, identity rotation, unit
/// scale, visible.
pub open spec fn is_identity_node(n: PySceneNode, id: u32, label: Seq<char>) -> bool {
    &&& n.id == id
    &&& n.parent is None
    &&& n.translation == [REAL_ZERO, REAL_ZERO, REAL_ZERO]
    &&& n.rotation == [REAL_ZERO, REAL_ZERO, REAL_ZERO, REAL_ONE]
    &&& n.scale == [REAL_ONE, REAL_ONE, REAL_ONE]
    &&& n.label@ == label
    &&& n.visible
}

impl PySceneNode {
    /// Create an identity transform node.
    pub fn identity(id: u32, label: &str) -> (n: Self)
        ensures
            is_identity_node(n, id, label@),
    {
        PySceneNode {
            id,
            parent: None,
            translation: [REAL_ZERO, REAL_ZERO, REAL_ZERO],
            rotation: [REAL_ZERO, REAL_ZERO, REAL_ZERO, REAL_ONE],
            scale: [REAL_ONE, REAL_ONE, REAL_ONE],
            label: label.to_owned(),
            visible: true,
        }
    }
}

/// A light source in the scene.
#[derive(Debug, Clone)]
pub struct PyLight {
    /// Light position `[x, y, z]`.
    pub position: [u64; 3],
    /// Light color RGB.
    pub color: [u64; 3],
    /// Intensity (candela / lm).
    pub intensity: u64,
    /// Light type: "point", "directional", "spot".
    pub light_type: String,
    /// Spot direction `[dx, dy, dz]` (used for spot lights).
    pub direction: [u64; 3],
    /// Spot cone angle in radians.
    pub cone_angle: u64,
}

impl PyLight {
    /// Create a point light (pointing down, cone angle π).
    pub fn point(position: [u64; 3], color: [u64; 3], intensity: u64) -> (l: Self)
        ensures
            l.position == position,
            l.color == color,
            l.intensity == intensity,
            l.light_type@ == "point"@,
            l.direction == [REAL_ZERO, REAL_MINUS_ONE, REAL_ZERO],
            l.cone_angle == REAL_PI,
    {
        PyLight {
            position,
            color,
            intensity,
            light_type: "point".to_owned(),
            direction: [REAL_ZERO, REAL_MINUS_ONE, REAL_ZERO],
            cone_angle: REAL_PI,
        }
    }

    /// Create a directional light (sun) at the origin, cone angle π.
    pub fn directional(direction: [u64; 3], color: [u64; 3], intensity: u64) -> (l: Self)
        ensures
            l.position == [REAL_ZERO, REAL_ZERO, REAL_ZERO],
            l.color == color,
            l.intensity == intensity,
            l.light_type@ == "directional"@,
            l.direction == direction,
            l.cone_angle == REAL_PI,
    {
        PyLight {
            position: [REAL_ZERO, REAL_ZERO, REAL_ZERO],
            color,
            intensity,
            light_type: "directional".to_owned(),
            direction,
            cone_angle: REAL_PI,
        }
    }
}

/// An exact copy of a node.
fn copy_node(n: &PySceneNode) -> (c: PySceneNode)
    ensures
        c == *n,
{
    PySceneNode {
        id: n.id,
        parent: n.parent,
        translation: n.translation,
        rotation: n.rotation,
        scale: n.scale,
        label: n.label.clone(),
        visible: n.visible,
    }
}

/// Node predicate: the node has id `id`.
pub open spec fn node_with_id(id: u32) -> spec_fn(PySceneNode) -> bool {
    |n: PySceneNode| n.id == id
}

/// The ids of the visible nodes, in order.
pub open spec fn visible_ids(nodes: Seq<PySceneNode>) -> Seq<u32>
    decreases nodes.len(),
{
    if nodes.len() == 0 {
        Seq::empty()
    } else if nodes.last().visible {
        visible_ids(nodes.drop_last()).push(nodes.last().id)
    } else {
        visible_ids(nodes.drop_last())
    }
}

/// Hierarchical scene graph managing nodes, meshes, particles and lights.
#[derive(Debug, Clone)]
pub struct PySceneGraph {
    /// All nodes in the scene.
    pub nodes: Vec<PySceneNode>,
    /// Mesh renderers attached to node ids.
    pub meshes: Vec<(u32, PyMeshRenderer)>,
    /// Particle renderers attached to node ids.
    pub particles: Vec<(u32, PyParticleRenderer)>,
    /// Lights in the scene.
    pub lights: Vec<PyLight>,
    /// The id that the next added node receives.
    pub next_id: u32,
}

impl PySceneGraph {
    /// The id that the next added node receives.
    pub open spec fn next_node_id(&self) -> u32 {
        self.next_id
    }

    /// Create an empty scene graph.
    pub fn new() -> (g: Self)
        ensures
            g.nodes@.len() == 0,
            g.meshes@.len() == 0,
            g.particles@.len() == 0,
            g.lights@.len() == 0,
            g.next_node_id() == 0,
    {
        PySceneGraph { nodes: Vec::new(), meshes: Vec::new(), particles: Vec::new(), lights: Vec::new(), next_id: 0 }
    }

    /// Add a new identity node with the given label; returns its id.
    pub fn add_node(&mut self, label: &str) -> (id: u32)
        requires
            old(self).next_node_id() < u32::MAX,
        ensures
            id == old(self).next_node_id(),
            final(self).next_node_id() == old(self).next_node_id() + 1,
            final(self).nodes@.len() == old(self).nodes@.len() + 1,
            final(self).nodes@.drop_last() == old(self).nodes@,
            is_identity_node(final(self).nodes@.last(), id, label@),
            final(self).meshes == old(self).meshes,
            final(self).particles == old(self).particles,
            final(self).lights == old(self).lights,
    {
        let id = self.next_id;
        self.next_id = self.next_id + 1;
        self.nodes.push(PySceneNode::identity(id, label));
        assert(self.nodes@.drop_last() =~= old(self).nodes@);
        id
    }

    /// Attach a mesh to a node.
    pub fn add_mesh(&mut self, node_id: u32, mesh: PyMeshRenderer)
        ensures
            final(self).meshes@ == old(self).meshes@.push((node_id, mesh)),
            final(self).nodes == old(self).nodes,
            final(self).next_node_id() == old(self).next_node_id(),
            final(self).particles == old(self).particles,
            final(self).lights == old(self).lights,
    {
        self.meshes.push((node_id, mesh));
    }

    /// Attach particles to a node.
    pub fn add_particles(&mut self, node_id: u32, particles: PyParticleRenderer)
        ensures
            final(self).particles@ == old(self).particles@.push((node_id, particles)),
            final(self).nodes == old(self).nodes,
            final(self).next_node_id() == old(self).next_node_id(),
            final(self).meshes == old(self).meshes,
            final(self).lights == old(self).lights,
    {
        self.particles.push((node_id, particles));
    }

    /// Add a light to the scene.
    pub fn add_light(&mut self, light: PyLight)
        ensures
            final(self).lights@ == old(self).lights@.push(light),
            final(self).nodes == old(self).nodes,
            final(self).next_node_id() == old(self).next_node_id(),
            final(self).meshes == old(self).meshes,
            final(self).particles == old(self).particles,
    {
        self.lights.push(light);
    }

    fn find_node(&self, node_id: u32) -> (k: usize)
        ensures
            k == first_index(self.nodes@, node_with_id(node_id)),
            k <= self.nodes@.len(),
    {
        let mut i: usize = 0;
        while i < self.nodes.len() && self.nodes[i].id != node_id
            invariant
                i <= self.nodes@.len(),
                forall|j: int| 0 <= j < i ==> !(node_with_id(node_id))(#[trigger] self.nodes@[j]),
            decreases self.nodes@.len() - i,
        {
            i = i + 1;
        }
        proof { lemma_first_index(self.nodes@, node_with_id(node_id), i as int); }
        i
    }

    /// Set the visibility of the first node with id `node_id`, if any.
    pub fn set_visible(&mut self, node_id: u32, visible: bool)
        ensures
            ({
                let k = first_index(old(self).nodes@, node_with_id(node_id));
                final(self).nodes@ == if k < old(self).nodes@.len() {
                    old(self).nodes@.update(k, PySceneNode { visible, ..old(self).nodes@[k] })
                } else {
                    old(self).nodes@
                }
            }),
            final(self).meshes == old(self).meshes,
            final(self).particles == old(self).particles,
            final(self).lights == old(self).lights,
            final(self).next_node_id() == old(self).next_node_id(),
    {
        let k = self.find_node(node_id);
        if k < self.nodes.len() {
            let n = copy_node(&self.nodes[k]);
            self.nodes.set(k, PySceneNode { visible, ..n });
        }
    }

    /// Set the local translation of the first node with id `node_id`, if any.
    pub fn set_translation(&mut self, node_id: u32, translation: [u64; 3])
        ensures
            ({
                let k = first_index(old(self).nodes@, node_with_id(node_id));
                final(self).nodes@ == if k < old(self).nodes@.len() {
                    old(self).nodes@.update(k, PySceneNode { translation, ..old(self).nodes@[k] })
                } else {
                    old(self).nodes@
                }
            }),
            final(self).meshes == old(self).meshes,
            final(self).particles == old(self).particles,
            final(self).lights == old(self).lights,
            final(self).next_node_id() == old(self).next_node_id(),
    {
        let k = self.find_node(node_id);
        if k < self.nodes.len() {
            let n = copy_node(&self.nodes[k]);
            self.nodes.set(k, PySceneNode { translation, ..n });
        }
    }

    /// The ids of all visible nodes, in order.
    pub fn traverse_visible(&self) -> (ids: Vec<u32>)
        ensures
            ids@ == visible_ids(self.nodes@),
    {
        let mut ids: Vec<u32> = Vec::new();
        let mut i: usize = 0;
        while i < self.nodes.len()
            invariant
                i <= self.nodes@.len(),
                ids@ == visible_ids(self.nodes@.take(i as int)),
            decreases self.nodes@.len() - i,
        {
            assert(self.nodes@.take(i + 1).drop_last() =~= self.nodes@.take(i as int));
            if self.nodes[i].visible {
                ids.push(self.nodes[i].id);
            }
            i = i + 1;
        }
        assert(self.nodes@.take(self.nodes@.len() as int) =~= self.nodes@);
        ids
    }

    /// Total number of nodes.
    pub fn node_count(&self) -> (n: usize)
        ensures
            n == self.nodes@.len(),
    {
        self.nodes.len()
    }
}

impl Default for PySceneGraph {
    fn default() -> (g: Self)
        ensures
            g.nodes@.len() == 0,
            g.meshes@.len() == 0,
            g.particles@.len() == 0,
            g.lights@.len() == 0,
            g.next_node_id() == 0,
    {
        Self::new()
    }
}

/// Hiding a node removes exactly its id from the visible traversal, when it
/// is the only node with that id.
pub proof fn law_hidden_node_not_traversed(nodes: Seq<PySceneNode>, k: int)
    requires
        0 <= k < nodes.len(),
        forall|j: int| 0 <= j < nodes.len() && j != k ==> (#[trigger] nodes[j]).id != nodes[k].id,
    ensures
        !visible_ids(nodes.update(k, PySceneNode { visible: false, ..nodes[k] })).contains(nodes[k].id),
    decreases nodes.len(),
{
    let t = nodes.update(k, PySceneNode { visible: false, ..nodes[k] });
    lemma_visible_ids_from(t, nodes[k].id);
}

proof fn lemma_visible_ids_from(nodes: Seq<PySceneNode>, id: u32)
    requires
        forall|j: int| 0 <= j < nodes.len() && (#[trigger] nodes[j]).id == id ==> !nodes[j].visible,
    ensures
        !visible_ids(nodes).contains(id),
    decreases nodes.len(),
{
    if nodes.len() > 0 {
        let d = nodes.drop_last();
        assert forall|j: int| 0 <= j < d.len() && (#[trigger] d[j]).id == id implies !d[j].visible by {
            assert(d[j] == nodes[j]);
        }
        lemma_visible_ids_from(d, id);
        if nodes.last().visible {
            assert(nodes.last().id != id);
            assert forall|j: int| 0 <= j < visible_ids(nodes).len() implies visible_ids(nodes)[j] != id by {
                if j < visible_ids(d).len() {
                    assert(!visible_ids(d).contains(id));
                    assert(visible_ids(nodes)[j] == visible_ids(d)[j]);
                }
            }
        }
    }
}

// ---------------------------------------------------------------------------
// Post-processing
// ---------------------------------------------------------------------------

/// Screen-space ambient occlusion parameters.
#[derive(Debug, Clone, Copy)]
pub struct SsaoParams {
    /// Sample hemisphere radius in view space.
    pub radius: u64,
    /// Bias to avoid self-occlusion.
    pub bias: u64,
    /// Number of sample points.
    pub num_samples: u32,
    /// Occlusion power exponent.
    pub power: u64,
}

/// The default ambient-occlusion parameters.
pub open spec fn default_ssao() -> SsaoParams {
    SsaoParams { radius: REAL_0_5, bias: REAL_0_025, num_samples: 16, power: REAL_TWO }
}

impl Default for SsaoParams {
    fn default() -> (p: Self)
        ensures
            p == default_ssao(),
    {
        SsaoParams { radius: REAL_0_5, bias: REAL_0_025, num_samples: 16, power: REAL_TWO }
    }
}

/// Bloom post-processing parameters.
#[derive(Debug, Clone, Copy)]
pub struct BloomParams {
    /// Luminance threshold above which bloom is applied.
    pub threshold: u64,
    /// Bloom blur radius in pixels.
    pub radius: u64,
    /// Bloom intensity multiplier.
    pub intensity: u64,
}

/// The default bloom parameters.
pub open spec fn default_bloom() -> BloomParams {
    BloomParams { threshold: REAL_ONE, radius: REAL_EIGHT, intensity: REAL_0_5 }
}

impl Default for BloomParams {
    fn default() -> (p: Self)
        ensures
            p == default_bloom(),
    {
        BloomParams { threshold: REAL_ONE, radius: REAL_EIGHT, intensity: REAL_0_5 }
    }
}

/// Tone mapping operator selection.
#[derive(Debug, Clone, Copy, PartialEq, Eq, Structural)]
pub enum ToneMapping {
    /// Reinhard global operator.
    Reinhard,
    /// ACES film curve.
    Aces,
    /// Filmic tone mapping.
    Filmic,
    /// No tone mapping (linear).
    Linear,
}

/// Post-processing pipeline configuration.
#[derive(Debug, Clone, Copy)]
pub struct PyPostProcessor {
    /// SSAO settings.
    pub ssao: Option<SsaoParams>,
    /// Bloom settings.
    pub bloom: Option<BloomParams>,
    /// FXAA edge threshold (0 = disabled).
    pub fxaa_edge_threshold: u64,
    /// Tone mapping operator.
    pub tone_mapping: ToneMapping,
    /// Gamma correction exponent (typically 2.2).
    pub gamma: u64,
    /// Exposure multiplier.
    pub exposure: u64,
}

/// The default pipeline: SSAO and bloom on, FXAA at 0.063, ACES, gamma 2.2.
pub open spec fn default_post_processor() -> PyPostProcessor {
    PyPostProcessor {
        ssao: Some(default_ssao()),
        bloom: Some(default_bloom()),
        fxaa_edge_threshold: REAL_0_063,
        tone_mapping: ToneMapping::Aces,
        gamma: REAL_2_2,
        exposure: REAL_ONE,
    }
}

impl PyPostProcessor {
    /// Create the default post-processing pipeline.
    pub fn new() -> (p: Self)
        ensures
            p == default_post_processor(),
    {
        PyPostProcessor {
            ssao: Some(SsaoParams::default()),
            bloom: Some(BloomParams::default()),
            fxaa_edge_threshold: REAL_0_063,
            tone_mapping: ToneMapping::Aces,
            gamma: REAL_2_2,
            exposure: REAL_ONE,
        }
    }

    /// A pipeline with every effect disabled (linear, gamma 1).
    pub fn passthrough() -> (p: Self)
        ensures
            p == (PyPostProcessor {
                ssao: None,
                bloom: None,
                fxaa_edge_threshold: REAL_ZERO,
                tone_mapping: ToneMapping::Linear,
                gamma: REAL_ONE,
                exposure: REAL_ONE,
            }),
    {
        PyPostProcessor {
            ssao: None,
            bloom: None,
            fxaa_edge_threshold: REAL_ZERO,
            tone_mapping: ToneMapping::Linear,
            gamma: REAL_ONE,
            exposure: REAL_ONE,
        }
    }
}

impl Default for PyPostProcessor {
    fn default() -> (p: Self)
        ensures
            p == default_post_processor(),
    {
        Self::new()
    }
}

// ---------------------------------------------------------------------------
// Debug overlay
// ---------------------------------------------------------------------------

/// A single debug primitive drawn as an overlay.
#[derive(Debug, Clone)]
pub enum DebugPrimitive {
    /// A wire-frame sphere.
    Sphere { center: [u64; 3], radius: u64, color: [u64; 4] },
    /// An axis-aligned box.
    Box { min: [u64; 3], max: [u64; 3], color: [u64; 4] },
    /// An arrow from start to end.
    Arrow { start: [u64; 3], end: [u64; 3], color: [u64; 4], shaft_radius: u64 },
    /// A 3D text label.
    Text3D { position: [u64; 3], text: String, color: [u64; 4], size: u64 },
    /// A contact point with normal.
    ContactPoint { position: [u64; 3], normal: [u64; 3], depth: u64, color: [u64; 4] },
}

/// Debug overlay manager for visualizing physics primitives.
#[derive(Debug, Clone)]
pub struct PyDebugOverlay {
    /// List of debug primitives to render.
    pub primitives: Vec<DebugPrimitive>,
    /// Whether to draw wireframe (true) or solid (false).
    pub wireframe: bool,
    /// Default color for new primitives.
    pub default_color: [u64; 4],
    /// Whether overlay persists across frames.
    pub persistent: bool,
}

/// The color a primitive is drawn with: the given one, else the default.
pub open spec fn color_or(color: Option<[u64; 4]>, default_color: [u64; 4]) -> [u64; 4] {
    match color {
        Some(c) => c,
        None => default_color,
    }
}

impl PyDebugOverlay {
    /// Create a new empty wireframe overlay with green as the default color.
    pub fn new() -> (o: Self)
        ensures
            o.primitives@.len() == 0,
            o.wireframe,
            o.default_color == [REAL_ZERO, REAL_ONE, REAL_ZERO, REAL_ONE],
            !o.persistent,
    {
        PyDebugOverlay {
            primitives: Vec::new(),
            wireframe: true,
            default_color: [REAL_ZERO, REAL_ONE, REAL_ZERO, REAL_ONE],
            persistent: false,
        }
    }

    /// Draw a sphere at the given center.
    pub fn draw_sphere(&mut self, center: [u64; 3], radius: u64, color: Option<[u64; 4]>)
        ensures
            final(self).primitives@ == old(self).primitives@.push(
                DebugPrimitive::Sphere { center, radius, color: color_or(color, old(self).default_color) },
            ),
            final(self).default_color == old(self).default_color,
            final(self).wireframe == old(self).wireframe,
            final(self).persistent == old(self).persistent,
    {
        let c = match color { Some(c) => c, None => self.default_color };
        self.primitives.push(DebugPrimitive::Sphere { center, radius, color: c });
    }

    /// Draw an axis-aligned box.
    pub fn draw_box(&mut self, min: [u64; 3], max: [u64; 3], color: Option<[u64; 4]>)
        ensures
            final(self).primitives@ == old(self).primitives@.push(
                DebugPrimitive::Box { min, max, color: color_or(color, old(self).default_color) },
            ),
            final(self).default_color == old(self).default_color,
            final(self).wireframe == old(self).wireframe,
            final(self).persistent == old(self).persistent,
    {
        let c = match color { Some(c) => c, None => self.default_color };
        self.primitives.push(DebugPrimitive::Box { min, max, color: c });
    }

    /// Draw an arrow from start to end.
    pub fn draw_arrow(&mut self, start: [u64; 3], end: [u64; 3], color: Option<[u64; 4]>, shaft_radius: u64)
        ensures
            final(self).primitives@ == old(self).primitives@.push(
                DebugPrimitive::Arrow { start, end, color: color_or(color, old(self).default_color), shaft_radius },
            ),
            final(self).default_color == old(self).default_color,
            final(self).wireframe == old(self).wireframe,
            final(self).persistent == old(self).persistent,
    {
        let c = match color { Some(c) => c, None => self.default_color };
        self.primitives.push(DebugPrimitive::Arrow { start, end, color: c, shaft_radius });
    }

    /// Draw a 3D text label.
    pub fn draw_text_3d(&mut self, position: [u64; 3], text: &str, color: Option<[u64; 4]>, size: u64)
        ensures
            final(self).primitives@.len() == old(self).primitives@.len() + 1,
            final(self).primitives@.drop_last() == old(self).primitives@,
            final(self).primitives@.last() matches DebugPrimitive::Text3D { position: p, text: t, color: c, size: s }
                && p == position && t@ == text@ && c == color_or(color, old(self).default_color) && s == size,
            final(self).default_color == old(self).default_color,
            final(self).wireframe == old(self).wireframe,
            final(self).persistent == old(self).persistent,
    {
        let c = match color { Some(c) => c, None => self.default_color };
        self.primitives.push(DebugPrimitive::Text3D { position, text: text.to_owned(), color: c, size });
        assert(self.primitives@.drop_last() =~= old(self).primitives@);
    }

    /// Draw a contact point with normal direction.
    pub fn draw_contact_point(&mut self, position: [u64; 3], normal: [u64; 3], depth: u64, color: Option<[u64; 4]>)
        ensures
            final(self).primitives@ == old(self).primitives@.push(
                DebugPrimitive::ContactPoint { position, normal, depth, color: color_or(color, old(self).default_color) },
            ),
            final(self).default_color == old(self).default_color,
            final(self).wireframe == old(self).wireframe,
            final(self).persistent == old(self).persistent,
    {
        let c = match color { Some(c) => c, None => self.default_color };
        self.primitives.push(DebugPrimitive::ContactPoint { position, normal, depth, color: c });
    }

    /// Clear all debug primitives.
    pub fn clear(&mut self)
        ensures
            final(self).primitives@.len() == 0,
            final(self).default_color == old(self).default_color,
            final(self).wireframe == old(self).wireframe,
            final(self).persistent == old(self).persistent,
    {
        self.primitives.clear();
    }

    /// Number of primitives.
    pub fn count(&self) -> (n: usize)
        ensures
            n == self.primitives@.len(),
    {
        self.primitives.len()
    }
}

impl Default for PyDebugOverlay {
    fn default() -> (o: Self)
        ensures
            o.primitives@.len() == 0,
            o.wireframe,
            o.default_color == [REAL_ZERO, REAL_ONE, REAL_ZERO, REAL_ONE],
            !o.persistent,
    {
        Self::new()
    }
}

} // verus!

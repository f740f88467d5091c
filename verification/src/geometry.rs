//! Triangle meshes and their combinatorics: index bookkeeping of mesh
//! combination and triangle selection, polygon triangulation, the OBJ text
//! layout, and heightfield storage.
//!
//! Real quantities are bit patterns (see `crate::scalars`). Normals, areas,
//! volumes, bounding boxes and the geometric tests that decide which
//! triangles to keep compute with reals and stand outside.

use vstd::prelude::*;
use vstd::string::StringExecFns;
use crate::scalars::REAL_ZERO;
use crate::text::{decimal, push_decimal_usize, push_string};

verus! {

// ─────────────────────────────────────────────────────────────────────────────
// Triangle meshes
// ─────────────────────────────────────────────────────────────────────────────

/// A triangle mesh with vertices, indices, and optional per-vertex normals.
#[derive(Debug, Clone)]
pub struct PyTriangleMesh {
    /// Vertex positions.
    pub vertices: Vec<[u64; 3]>,
    /// Triangle face indices (groups of 3 vertex indices).
    pub indices: Vec<usize>,
    /// Per-vertex normals (may be empty until they are computed).
    pub normals: Vec<[u64; 3]>,
}

impl PyTriangleMesh {
    /// Create a new empty triangle mesh.
    pub fn new() -> (m: Self)
        ensures
            m.vertices@.len() == 0,
            m.indices@.len() == 0,
            m.normals@.len() == 0,
    {
        PyTriangleMesh { vertices: Vec::new(), indices: Vec::new(), normals: Vec::new() }
    }

    /// Number of triangles: complete index triples.
    pub fn triangle_count(&self) -> (n: usize)
        ensures
            n == self.indices@.len() / 3,
    {
        self.indices.len() / 3
    }

    /// Vertices as a list of `[x, y, z]` lists.
    pub fn get_vertices(&self) -> (v: Vec<Vec<u64>>)
        ensures
            v@.len() == self.vertices@.len(),
            forall|i: int| 0 <= i < v@.len() ==> #[trigger] v@[i]@ == self.vertices@[i]@,
    {
        triple_lists(&self.vertices)
    }

    /// Face indices as a flat list.
    pub fn get_indices(&self) -> (v: Vec<usize>)
        ensures
            v@ == self.indices@,
    {
        self.indices.clone()
    }

    /// Normals as a list of `[nx, ny, nz]` lists.
    pub fn get_normals(&self) -> (v: Vec<Vec<u64>>)
        ensures
            v@.len() == self.normals@.len(),
            forall|i: int| 0 <= i < v@.len() ==> #[trigger] v@[i]@ == self.normals@[i]@,
    {
        triple_lists(&self.normals)
    }

    /// The corners of triangle `t`, or `None` when one of them names no
    /// vertex of the mesh.
    pub fn triangle_corners(&self, t: usize) -> (c: Option<(usize, usize, usize)>)
        requires
            t < self.indices@.len() / 3,
        ensures
            c == (if triangle_valid(self.indices@, self.vertices@.len(), t as int) {
                Some((self.indices@[3 * t], self.indices@[3 * t + 1], self.indices@[3 * t + 2]))
            } else {
                None
            }),
    {
        let n = self.vertices.len();
        let len = self.indices.len();
        assert(3 * t + 2 < len) by (nonlinear_arith)
            requires t < len / 3;
        let k: usize = 3 * t;
        let (ia, ib, ic) = (self.indices[k], self.indices[k + 1], self.indices[k + 2]);
        if ia >= n || ib >= n || ic >= n {
            None
        } else {
            Some((ia, ib, ic))
        }
    }
}

/// Each triple as a list of its three components.
fn triple_lists(ts: &Vec<[u64; 3]>) -> (v: Vec<Vec<u64>>)
    ensures
        v@.len() == ts@.len(),
        forall|i: int| 0 <= i < v@.len() ==> #[trigger] v@[i]@ == ts@[i]@,
{
    let mut v: Vec<Vec<u64>> = Vec::new();
    let mut i: usize = 0;
    while i < ts.len()
        invariant
            i <= ts@.len(),
            v@.len() == i,
            forall|k: int| 0 <= k < i ==> #[trigger] v@[k]@ == ts@[k]@,
        decreases ts.len() - i,
    {
        let t = ts[i];
        let row = vec![t[0], t[1], t[2]];
        assert(row@ =~= t@);
        v.push(row);
        i = i + 1;
    }
    v
}

/// Whether triangle `t` of `indices` has three distinct corners.
pub open spec fn triangle_distinct(indices: Seq<usize>, t: int) -> bool {
    indices[3 * t] != indices[3 * t + 1] && indices[3 * t + 1] != indices[3 * t + 2]
        && indices[3 * t] != indices[3 * t + 2]
}

/// The corner indices of the first `t` triangles that name vertices below
/// `n`, have three distinct corners and positive area.
pub open spec fn repaired_corners(indices: Seq<usize>, n: nat, positive_area: Seq<bool>, t: int) -> Seq<usize>
    decreases t,
{
    if t <= 0 {
        Seq::empty()
    } else {
        let prev = repaired_corners(indices, n, positive_area, t - 1);
        let u = t - 1;
        if triangle_valid(indices, n, u) && triangle_distinct(indices, u) && positive_area[u] {
            prev + seq![indices[3 * u], indices[3 * u + 1], indices[3 * u + 2]]
        } else {
            prev
        }
    }
}

impl PyTriangleMesh {
    /// Remove degenerate triangles: those naming a missing vertex, repeating
    /// a corner, or (as `positive_area` says, per triangle) of zero area.
    /// A trailing incomplete triple is dropped.
    pub fn repair(&mut self, positive_area: &[bool])
        requires
            positive_area@.len() >= old(self).indices@.len() / 3,
        ensures
            final(self).indices@ == repaired_corners(
                old(self).indices@,
                old(self).vertices@.len(),
                positive_area@,
                (old(self).indices@.len() / 3) as int,
            ),
            final(self).vertices == old(self).vertices,
            final(self).normals == old(self).normals,
    {
        let n = self.vertices.len();
        let tri_count = self.indices.len() / 3;
        let mut good: Vec<usize> = Vec::new();
        let mut t: usize = 0;
        while t < tri_count
            invariant
                n == self.vertices@.len(),
                tri_count == self.indices@.len() / 3,
                positive_area@.len() >= tri_count,
                t <= tri_count,
                good@ == repaired_corners(self.indices@, n as nat, positive_area@, t as int),
            decreases tri_count - t,
        {
            let len = self.indices.len();
            assert(t * 3 + 2 < len);
            let ia = self.indices[t * 3];
            let ib = self.indices[t * 3 + 1];
            let ic = self.indices[t * 3 + 2];
            if ia < n && ib < n && ic < n && ia != ib && ib != ic && ia != ic && positive_area[t] {
                good.push(ia);
                good.push(ib);
                good.push(ic);
            }
            assert(good@ =~= repaired_corners(self.indices@, n as nat, positive_area@, t as int + 1));
            t = t + 1;
        }
        self.indices = good;
    }
}

/// Whether triangle `u` survives a repair: its corners name vertices below
/// `n`, are pairwise distinct, and it has positive area.
pub open spec fn good_triangle(indices: Seq<usize>, n: nat, positive_area: Seq<bool>, u: int) -> bool {
    triangle_valid(indices, n, u) && triangle_distinct(indices, u) && positive_area[u]
}

/// The number of good triangles among the first `k`.
pub open spec fn good_count(indices: Seq<usize>, n: nat, positive_area: Seq<bool>, k: int) -> nat {
    Seq::new(k as nat, |v: int| v).filter(|v: int| good_triangle(indices, n, positive_area, v)).len()
}

proof fn lemma_good_count_step(indices: Seq<usize>, n: nat, positive_area: Seq<bool>, k: int)
    requires
        0 <= k,
    ensures
        good_count(indices, n, positive_area, k + 1) == good_count(indices, n, positive_area, k)
            + if good_triangle(indices, n, positive_area, k) { 1int } else { 0int },
{
    let f = |v: int| good_triangle(indices, n, positive_area, v);
    let head = Seq::new(k as nat, |v: int| v);
    assert(Seq::new((k + 1) as nat, |v: int| v) =~= head.push(k));
    head.lemma_filter_len_push(f, k);
}

/// A repair keeps exactly the good triangles, in their order: the result
/// holds three corners per good triangle among the first `t`, and good
/// triangle `u` stands, corners unchanged, after the good triangles before
/// it.
pub proof fn law_repair_keeps_good_triangles(indices: Seq<usize>, n: nat, positive_area: Seq<bool>, t: int, u: int)
    requires
        0 <= t,
        3 * t <= indices.len(),
        positive_area.len() >= t,
    ensures
        repaired_corners(indices, n, positive_area, t).len() == 3 * good_count(indices, n, positive_area, t),
        0 <= u < t && good_triangle(indices, n, positive_area, u) ==> ({
            let out = repaired_corners(indices, n, positive_area, t);
            let p = 3 * good_count(indices, n, positive_area, u) as int;
            &&& out[p] == indices[3 * u]
            &&& out[p + 1] == indices[3 * u + 1]
            &&& out[p + 2] == indices[3 * u + 2]
        }),
    decreases t,
{
    if t > 0 {
        law_repair_keeps_good_triangles(indices, n, positive_area, t - 1, u);
        lemma_good_count_step(indices, n, positive_area, t - 1);
        let prev = repaired_corners(indices, n, positive_area, t - 1);
        let v = t - 1;
        if 0 <= u < t && good_triangle(indices, n, positive_area, u) {
            let p = 3 * good_count(indices, n, positive_area, u) as int;
            if u == v {
                assert(p == prev.len());
            } else {
                lemma_good_count_monotone(indices, n, positive_area, u + 1, t - 1);
                lemma_good_count_step(indices, n, positive_area, u);
            }
        }
    }
}

proof fn lemma_good_count_monotone(indices: Seq<usize>, n: nat, positive_area: Seq<bool>, a: int, b: int)
    requires
        0 <= a <= b,
    ensures
        good_count(indices, n, positive_area, a) <= good_count(indices, n, positive_area, b),
    decreases b - a,
{
    if a < b {
        lemma_good_count_monotone(indices, n, positive_area, a, b - 1);
        lemma_good_count_step(indices, n, positive_area, b - 1);
    }
}

impl Default for PyTriangleMesh {
    fn default() -> (m: Self)
        ensures
            m.vertices@.len() == 0,
            m.indices@.len() == 0,
            m.normals@.len() == 0,
    {
        Self::new()
    }
}

// ─────────────────────────────────────────────────────────────────────────────
// Mesh combination
// ─────────────────────────────────────────────────────────────────────────────

/// Constructive solid geometry on triangle meshes (index bookkeeping).
#[derive(Debug, Clone, Copy)]
pub struct PyCsg;

/// `indices` with every entry raised by `offset`.
pub open spec fn shifted(indices: Seq<usize>, offset: nat) -> Seq<usize> {
    indices.map_values(|i: usize| (i + offset) as usize)
}

/// Whether triangle `t` of `indices` names three vertices below `n`.
pub open spec fn triangle_valid(indices: Seq<usize>, n: nat, t: int) -> bool {
    indices[3 * t] < n && indices[3 * t + 1] < n && indices[3 * t + 2] < n
}

/// The corner indices, in order, of the first `t` triangles that are valid
/// and selected by `keep`.
pub open spec fn kept_corners(indices: Seq<usize>, n: nat, keep: Seq<bool>, t: int) -> Seq<usize>
    decreases t,
{
    if t <= 0 {
        Seq::empty()
    } else {
        let prev = kept_corners(indices, n, keep, t - 1);
        let u = t - 1;
        if triangle_valid(indices, n, u) && keep[u] {
            prev + seq![indices[3 * u], indices[3 * u + 1], indices[3 * u + 2]]
        } else {
            prev
        }
    }
}

/// The distinct entries of `s` in order of first occurrence.
pub open spec fn first_occurrences(s: Seq<usize>) -> Seq<usize>
    decreases s.len(),
{
    if s.len() == 0 {
        Seq::empty()
    } else {
        let prev = first_occurrences(s.drop_last());
        if prev.contains(s.last()) { prev } else { prev.push(s.last()) }
    }
}

impl PyCsg {
    /// The vertices and indices of the union of two meshes: `a` followed by
    /// `b`, with `b`'s indices shifted past `a`'s vertices.
    pub fn union_geometry(a: &PyTriangleMesh, b: &PyTriangleMesh) -> (r: (Vec<[u64; 3]>, Vec<usize>))
        requires
            forall|k: int| 0 <= k < b.indices@.len() ==> #[trigger] b.indices@[k] + a.vertices@.len() <= usize::MAX,
        ensures
            r.0@ == a.vertices@ + b.vertices@,
            r.1@ == a.indices@ + shifted(b.indices@, a.vertices@.len()),
    {
        let offset = a.vertices.len();
        let mut verts: Vec<[u64; 3]> = Vec::new();
        let mut j: usize = 0;
        while j < a.vertices.len()
            invariant
                j <= a.vertices@.len(),
                verts@ == a.vertices@.take(j as int),
            decreases a.vertices@.len() - j,
        {
            verts.push(a.vertices[j]);
            assert(a.vertices@.take(j + 1) =~= a.vertices@.take(j as int).push(a.vertices@[j as int]));
            j = j + 1;
        }
        assert(a.vertices@.take(a.vertices@.len() as int) =~= a.vertices@);
        let mut k: usize = 0;
        while k < b.vertices.len()
            invariant
                k <= b.vertices@.len(),
                verts@ == a.vertices@ + b.vertices@.take(k as int),
            decreases b.vertices@.len() - k,
        {
            verts.push(b.vertices[k]);
            assert(b.vertices@.take(k + 1) =~= b.vertices@.take(k as int).push(b.vertices@[k as int]));
            k = k + 1;
        }
        assert(b.vertices@.take(b.vertices@.len() as int) =~= b.vertices@);
        let mut idx: Vec<usize> = Vec::new();
        let mut j: usize = 0;
        while j < a.indices.len()
            invariant
                j <= a.indices@.len(),
                idx@ == a.indices@.take(j as int),
            decreases a.indices@.len() - j,
        {
            idx.push(a.indices[j]);
            assert(a.indices@.take(j + 1) =~= a.indices@.take(j as int).push(a.indices@[j as int]));
            j = j + 1;
        }
        assert(a.indices@.take(a.indices@.len() as int) =~= a.indices@);
        assert(shifted(b.indices@.take(0), offset as nat) =~= Seq::<usize>::empty());
        let mut i: usize = 0;
        while i < b.indices.len()
            invariant
                offset == a.vertices@.len(),
                forall|k: int| 0 <= k < b.indices@.len() ==> #[trigger] b.indices@[k] + a.vertices@.len() <= usize::MAX,
                i <= b.indices@.len(),
                idx@ == a.indices@ + shifted(b.indices@.take(i as int), offset as nat),
            decreases b.indices@.len() - i,
        {
            idx.push(b.indices[i] + offset);
            assert(shifted(b.indices@.take(i + 1), offset as nat) =~= shifted(b.indices@.take(i as int), offset as nat).push((b.indices@[i as int] + offset) as usize));
            i = i + 1;
        }
        assert(b.indices@.take(b.indices@.len() as int) =~= b.indices@);
        (verts, idx)
    }
}

/// The state of a triangle selection after the corners `done` have been
/// taken in: the new vertex list holds the first occurrences of the corners,
/// each new index names its corner's vertex there, and `remap` records for
/// each old vertex its new position, if it has one.
pub open spec fn selection_state(
    done: Seq<usize>,
    vertices: Seq<[u64; 3]>,
    verts: Seq<[u64; 3]>,
    idx: Seq<usize>,
    remap: Seq<Option<usize>>,
) -> bool {
    let fo = first_occurrences(done);
    &&& remap.len() == vertices.len()
    &&& forall|k: int| 0 <= k < done.len() ==> #[trigger] done[k] < vertices.len()
    &&& verts.len() == fo.len()
    &&& forall|i: int| 0 <= i < fo.len() ==> #[trigger] verts[i] == vertices[fo[i] as int]
    &&& idx.len() == done.len()
    &&& forall|k: int| 0 <= k < done.len() ==> #[trigger] idx[k] < fo.len() && fo[idx[k] as int] == done[k]
    &&& forall|v: usize| v < vertices.len() ==> ((#[trigger] remap[v as int]) is None <==> !fo.contains(v))
    &&& forall|v: usize| v < vertices.len() && (#[trigger] remap[v as int]) is Some
        ==> remap[v as int]->0 < fo.len() && fo[remap[v as int]->0 as int] == v
}

/// Take in corner `v`: reuse its new position, or append its vertex.
fn take_corner(
    v: usize,
    vertices: &Vec<[u64; 3]>,
    verts: &mut Vec<[u64; 3]>,
    idx: &mut Vec<usize>,
    remap: &mut Vec<Option<usize>>,
    Ghost(done): Ghost<Seq<usize>>,
)
    requires
        v < vertices@.len(),
        selection_state(done, vertices@, old(verts)@, old(idx)@, old(remap)@),
    ensures
        selection_state(done.push(v), vertices@, final(verts)@, final(idx)@, final(remap)@),
{
    let ghost fo = first_occurrences(done);
    assert(done.push(v).drop_last() =~= done);
    match remap[v] {
        Some(r) => {
            assert(fo.contains(v));
            assert(first_occurrences(done.push(v)) == fo);
            idx.push(r);
            assert forall|k: int| 0 <= k < done.len() + 1 implies #[trigger] done.push(v)[k] < vertices@.len() by {
                if k < done.len() { assert(done.push(v)[k] == done[k]); }
            }
            assert forall|k: int| 0 <= k < done.len() + 1 implies #[trigger] idx@[k] < fo.len() && fo[idx@[k] as int] == done.push(v)[k] by {
                if k < done.len() { assert(idx@[k] == old(idx)@[k]); }
            }
        },
        None => {
            assert(!fo.contains(v));
            let ghost fo2 = fo.push(v);
            assert(first_occurrences(done.push(v)) == fo2);
            let r = verts.len();
            verts.push(vertices[v]);
            idx.push(r);
            remap.set(v, Some(r));
            assert forall|k: int| 0 <= k < done.len() + 1 implies #[trigger] done.push(v)[k] < vertices@.len() by {
                if k < done.len() { assert(done.push(v)[k] == done[k]); }
            }
            assert forall|i: int| 0 <= i < fo2.len() implies #[trigger] verts@[i] == vertices@[fo2[i] as int] by {
                if i < fo.len() { assert(verts@[i] == old(verts)@[i]); }
            }
            assert forall|k: int| 0 <= k < done.len() + 1 implies #[trigger] idx@[k] < fo2.len() && fo2[idx@[k] as int] == done.push(v)[k] by {
                if k < done.len() { assert(idx@[k] == old(idx)@[k]); }
            }
            assert forall|u: usize| u < vertices@.len() implies ((#[trigger] remap@[u as int]) is None <==> !fo2.contains(u)) by {
                if u != v {
                    assert(remap@[u as int] == old(remap)@[u as int]);
                    if fo2.contains(u) {
                        let j = choose|j: int| 0 <= j < fo2.len() && fo2[j] == u;
                        if j == fo.len() {
                            assert(fo2[j] == v);
                        }
                        assert(j < fo.len());
                        assert(fo[j] == u);
                        assert(fo.contains(u));
                    }
                    if fo.contains(u) {
                        let j = choose|j: int| 0 <= j < fo.len() && fo[j] == u;
                        assert(fo2[j] == u);
                    }
                } else {
                    assert(fo2[fo.len() as int] == v);
                }
            }
            assert forall|u: usize| u < vertices@.len() && (#[trigger] remap@[u as int]) is Some
                implies remap@[u as int]->0 < fo2.len() && fo2[remap@[u as int]->0 as int] == u by {
                if u != v {
                    assert(remap@[u as int] == old(remap)@[u as int]);
                }
            }
        },
    }
}

impl PyCsg {
    /// The vertices and indices of the triangles of `a` that are valid (all
    /// three corners name vertices of `a`) and selected by `keep`, indexed by
    /// triangle: the kept vertices are renumbered in order of first use.
    pub fn select_triangles(a: &PyTriangleMesh, keep: &[bool]) -> (r: (Vec<[u64; 3]>, Vec<usize>))
        requires
            keep@.len() >= a.indices@.len() / 3,
        ensures
            ({
                let kc = kept_corners(a.indices@, a.vertices@.len(), keep@, (a.indices@.len() / 3) as int);
                let fo = first_occurrences(kc);
                &&& r.0@.len() == fo.len()
                &&& forall|i: int| 0 <= i < fo.len() ==> #[trigger] r.0@[i] == a.vertices@[fo[i] as int]
                &&& r.1@.len() == kc.len()
                &&& forall|k: int| 0 <= k < kc.len() ==> #[trigger] r.1@[k] < fo.len() && fo[r.1@[k] as int] == kc[k]
            }),
    {
        let n = a.vertices.len();
        let tri_count = a.indices.len() / 3;
        let mut verts: Vec<[u64; 3]> = Vec::new();
        let mut idx: Vec<usize> = Vec::new();
        let mut remap: Vec<Option<usize>> = Vec::new();
        let mut v: usize = 0;
        while v < n
            invariant
                v <= n,
                n == a.vertices@.len(),
                remap@.len() == v,
                forall|u: int| 0 <= u < v ==> #[trigger] remap@[u] is None,
            decreases n - v,
        {
            remap.push(None);
            v = v + 1;
        }
        assert(forall|u: usize| u < n ==> #[trigger] remap@[u as int] is None);
        assert(first_occurrences(Seq::<usize>::empty()) =~= Seq::<usize>::empty());
        assert(kept_corners(a.indices@, n as nat, keep@, 0) =~= Seq::<usize>::empty());
        let mut t: usize = 0;
        while t < tri_count
            invariant
                n == a.vertices@.len(),
                tri_count == a.indices@.len() / 3,
                keep@.len() >= tri_count,
                t <= tri_count,
                selection_state(kept_corners(a.indices@, n as nat, keep@, t as int), a.vertices@, verts@, idx@, remap@),
            decreases tri_count - t,
        {
            let len = a.indices.len();
            assert(t * 3 + 2 < len);
            let ia = a.indices[t * 3];
            let ib = a.indices[t * 3 + 1];
            let ic = a.indices[t * 3 + 2];
            let ghost kc = kept_corners(a.indices@, n as nat, keep@, t as int);
            if ia < n && ib < n && ic < n && keep[t] {
                take_corner(ia, &a.vertices, &mut verts, &mut idx, &mut remap, Ghost(kc));
                take_corner(ib, &a.vertices, &mut verts, &mut idx, &mut remap, Ghost(kc.push(ia)));
                take_corner(ic, &a.vertices, &mut verts, &mut idx, &mut remap, Ghost(kc.push(ia).push(ib)));
                assert(kc.push(ia).push(ib).push(ic) =~= kept_corners(a.indices@, n as nat, keep@, t as int + 1));
            }
            t = t + 1;
        }
        (verts, idx)
    }
}

/// The first occurrences of a sequence hold each of its entries exactly once.
pub proof fn law_first_occurrences_distinct(s: Seq<usize>)
    ensures
        forall|i: int, j: int| 0 <= i < j < first_occurrences(s).len()
            ==> #[trigger] first_occurrences(s)[i] != #[trigger] first_occurrences(s)[j],
        forall|v: usize| #[trigger] first_occurrences(s).contains(v) <==> s.contains(v),
    decreases s.len(),
{
    if s.len() > 0 {
        let d = s.drop_last();
        law_first_occurrences_distinct(d);
        let prev = first_occurrences(d);
        let fo = first_occurrences(s);
        assert forall|v: usize| #[trigger] fo.contains(v) <==> s.contains(v) by {
            if s.contains(v) {
                let k = choose|k: int| 0 <= k < s.len() && s[k] == v;
                if k < d.len() {
                    assert(d[k] == v);
                    assert(d.contains(v));
                    assert(prev.contains(v));
                    let j = choose|j: int| 0 <= j < prev.len() && prev[j] == v;
                    assert(fo[j] == v);
                } else if !prev.contains(v) {
                    assert(fo[prev.len() as int] == v);
                }
            }
            if fo.contains(v) {
                let j = choose|j: int| 0 <= j < fo.len() && fo[j] == v;
                if j < prev.len() {
                    assert(prev[j] == v);
                    assert(prev.contains(v));
                    assert(d.contains(v));
                    let k = choose|k: int| 0 <= k < d.len() && d[k] == v;
                    assert(s[k] == v);
                } else {
                    assert(s[s.len() - 1] == v);
                }
            }
        }
    }
}

// ─────────────────────────────────────────────────────────────────────────────
// Polygons
// ─────────────────────────────────────────────────────────────────────────────

/// The fan triangulation of a polygon: triangles `(p0, p_i, p_{i+1})` for
/// `i` from 1 to `n - 2`; nothing for fewer than three corners.
pub open spec fn fan(polygon: Seq<usize>) -> Seq<usize>
    decreases polygon.len(),
{
    if polygon.len() < 3 {
        Seq::empty()
    } else {
        let n = polygon.len();
        fan(polygon.drop_last()) + seq![polygon[0], polygon[n - 2], polygon[n - 1]]
    }
}

/// Triangulate a polygon as a fan around its first corner.
pub fn fan_triangulate(polygon: &[usize]) -> (tris: Vec<usize>)
    ensures
        tris@ == fan(polygon@),
{
    let mut tris: Vec<usize> = Vec::new();
    let n = polygon.len();
    if n < 3 {
        return tris;
    }
    let mut i: usize = 1;
    while i + 1 < n
        invariant
            n == polygon@.len(),
            n >= 3,
            1 <= i < n,
            tris@ == fan(polygon@.take(i as int + 1)),
        decreases n - i,
    {
        tris.push(polygon[0]);
        tris.push(polygon[i]);
        tris.push(polygon[i + 1]);
        let ghost t = polygon@.take(i as int + 2);
        assert(t.drop_last() =~= polygon@.take(i as int + 1));
        assert(tris@ =~= fan(t));
        i = i + 1;
    }
    assert(polygon@.take(n as int) =~= polygon@);
    tris
}

/// A fan has one triangle per corner past the second.
pub proof fn law_fan_size(polygon: Seq<usize>)
    ensures
        polygon.len() < 3 ==> fan(polygon).len() == 0,
        polygon.len() >= 3 ==> fan(polygon).len() == 3 * (polygon.len() - 2),
    decreases polygon.len(),
{
    if polygon.len() >= 3 {
        law_fan_size(polygon.drop_last());
    }
}

// ─────────────────────────────────────────────────────────────────────────────
// OBJ text
// ─────────────────────────────────────────────────────────────────────────────

/// The line `<tag> <x> <y> <z>\n` of a rendered coordinate triple.
pub open spec fn obj_triple_line(tag: Seq<char>, c: [String; 3]) -> Seq<char> {
    tag + " "@ + c[0]@ + " "@ + c[1]@ + " "@ + c[2]@ + "\n"@
}

/// The lines of the first `k` coordinate triples.
pub open spec fn obj_triple_lines(tag: Seq<char>, cs: Seq<[String; 3]>, k: int) -> Seq<char>
    decreases k,
{
    if k <= 0 {
        Seq::empty()
    } else {
        obj_triple_lines(tag, cs, k - 1) + obj_triple_line(tag, cs[k - 1])
    }
}

/// The corners of triangle `t` as one-based vertex numbers, separated by spaces.
pub open spec fn obj_face_body(indices: Seq<usize>, t: int) -> Seq<char> {
    decimal((indices[3 * t] + 1) as nat) + " "@ + decimal((indices[3 * t + 1] + 1) as nat) + " "@
        + decimal((indices[3 * t + 2] + 1) as nat)
}

/// The face line of triangle `t`.
pub open spec fn obj_face_line(indices: Seq<usize>, t: int) -> Seq<char> {
    "f "@ + obj_face_body(indices, t) + "\n"@
}

/// The face lines of the first `k` triangles.
pub open spec fn obj_face_lines(indices: Seq<usize>, k: int) -> Seq<char>
    decreases k,
{
    if k <= 0 {
        Seq::empty()
    } else {
        obj_face_lines(indices, k - 1) + obj_face_line(indices, k - 1)
    }
}

/// A mesh in OBJ form: `v` lines, `vn` lines, then `f` lines.
pub open spec fn obj_text(vertex_text: Seq<[String; 3]>, normal_text: Seq<[String; 3]>, indices: Seq<usize>) -> Seq<char> {
    obj_triple_lines("v"@, vertex_text, vertex_text.len() as int)
        + obj_triple_lines("vn"@, normal_text, normal_text.len() as int)
        + obj_face_lines(indices, (indices.len() / 3) as int)
}

fn push_triple_lines(out: &mut String, tag: &str, cs: &[[String; 3]])
    ensures
        final(out)@ == old(out)@ + obj_triple_lines(tag@, cs@, cs@.len() as int),
{
    let ghost start = out@;
    let mut i: usize = 0;
    while i < cs.len()
        invariant
            i <= cs@.len(),
            out@ == start + obj_triple_lines(tag@, cs@, i as int),
        decreases cs@.len() - i,
    {
        out.append(tag);
        out.append(" ");
        push_string(out, &cs[i][0]);
        out.append(" ");
        push_string(out, &cs[i][1]);
        out.append(" ");
        push_string(out, &cs[i][2]);
        out.append("\n");
        assert(out@ =~= start + obj_triple_lines(tag@, cs@, i as int + 1));
        i = i + 1;
    }
}

/// Serialize a mesh to OBJ text, given its vertices and normals rendered as
/// text triples.
pub fn mesh_to_obj_string(vertex_text: &[[String; 3]], normal_text: &[[String; 3]], indices: &[usize]) -> (out: String)
    requires
        forall|k: int| 0 <= k < indices@.len() ==> #[trigger] indices@[k] < usize::MAX,
    ensures
        out@ == obj_text(vertex_text@, normal_text@, indices@),
{
    let mut out = String::new();
    push_triple_lines(&mut out, "v", vertex_text);
    push_triple_lines(&mut out, "vn", normal_text);
    let ghost head = out@;
    let tri_count = indices.len() / 3;
    let mut t: usize = 0;
    while t < tri_count
        invariant
            tri_count == indices@.len() / 3,
            forall|k: int| 0 <= k < indices@.len() ==> #[trigger] indices@[k] < usize::MAX,
            t <= tri_count,
            out@ == head + obj_face_lines(indices@, t as int),
        decreases tri_count - t,
    {
        let len = indices.len();
        assert(t * 3 + 2 < len);
        let ia = indices[t * 3] + 1;
        let ib = indices[t * 3 + 1] + 1;
        let ic = indices[t * 3 + 2] + 1;
        let ghost before = out@;
        out.append("f ");
        push_decimal_usize(&mut out, ia);
        out.append(" ");
        push_decimal_usize(&mut out, ib);
        out.append(" ");
        push_decimal_usize(&mut out, ic);
        out.append("\n");
        assert(out@ =~= before + obj_face_line(indices@, t as int));
        assert(obj_face_lines(indices@, t as int + 1) == obj_face_lines(indices@, t as int) + obj_face_line(indices@, t as int));
        t = t + 1;
    }
    out
}

// ─────────────────────────────────────────────────────────────────────────────
// Heightfields
// ─────────────────────────────────────────────────────────────────────────────

/// A heightfield terrain represented as a regular grid.
#[derive(Debug, Clone)]
pub struct PyHeightfield {
    /// Number of columns (X axis).
    pub cols: usize,
    /// Number of rows (Z axis).
    pub rows: usize,
    /// Height values in row-major order (rows × cols entries).
    pub data: Vec<u64>,
    /// World-space scale per cell in X.
    pub scale_x: u64,
    /// World-space scale per cell in Z.
    pub scale_z: u64,
    /// Vertical scale factor applied to raw height values.
    pub scale_y: u64,
}

impl PyHeightfield {
    /// Create a new flat heightfield.
    pub fn new(cols: usize, rows: usize, scale_x: u64, scale_z: u64, scale_y: u64) -> (h: Self)
        requires
            cols * rows <= usize::MAX,
        ensures
            h.cols == cols,
            h.rows == rows,
            h.data@ == Seq::new((cols * rows) as nat, |i: int| REAL_ZERO),
            h.scale_x == scale_x,
            h.scale_z == scale_z,
            h.scale_y == scale_y,
    {
        let data = vec![REAL_ZERO; cols * rows];
        assert(data@ =~= Seq::new((cols * rows) as nat, |i: int| REAL_ZERO));
        PyHeightfield { cols, rows, data, scale_x, scale_z, scale_y }
    }

    /// Set height at grid cell `(col, row)`; cells outside the grid are
    /// ignored.
    pub fn set_height(&mut self, col: usize, row: usize, h: u64)
        requires
            old(self).data@.len() == old(self).cols * old(self).rows,
        ensures
            (col < old(self).cols && row < old(self).rows) ==> final(self).data@ == old(self).data@.update(
                row * old(self).cols + col,
                h,
            ),
            !(col < old(self).cols && row < old(self).rows) ==> final(self).data@ == old(self).data@,
            final(self).cols == old(self).cols,
            final(self).rows == old(self).rows,
            final(self).scale_x == old(self).scale_x,
            final(self).scale_y == old(self).scale_y,
            final(self).scale_z == old(self).scale_z,
    {
        let len = self.data.len();
        if col < self.cols && row < self.rows {
            assert(row * self.cols + col < self.cols * self.rows) by (nonlinear_arith)
                requires col < self.cols, row < self.rows;
            assert(row * self.cols + col < len);
            let k = row * self.cols + col;
            self.data.set(k, h);
        }
    }

    /// The raw height of grid cell `(col, row)`, or `None` outside the grid.
    pub fn height_of_cell(&self, col: usize, row: usize) -> (v: Option<u64>)
        requires
            self.data@.len() == self.cols * self.rows,
        ensures
            (col < self.cols && row < self.rows) ==> v == Some(self.data@[row * self.cols + col]),
            !(col < self.cols && row < self.rows) ==> v is None,
    {
        let len = self.data.len();
        if col < self.cols && row < self.rows {
            assert(row * self.cols + col < self.cols * self.rows) by (nonlinear_arith)
                requires col < self.cols, row < self.rows;
            assert(row * self.cols + col < len);
            Some(self.data[row * self.cols + col])
        } else {
            None
        }
    }
}

/// Distinct cells of a grid sit at distinct row-major positions.
proof fn lemma_cell_positions_distinct(cols: nat, col: nat, row: nat, c: nat, r: nat)
    requires
        col < cols,
        c < cols,
        c != col || r != row,
    ensures
        r * cols + c != row * cols + col,
{
    if r < row {
        assert(r * cols + c < row * cols) by (nonlinear_arith)
            requires r < row, c < cols;
    } else if r > row {
        assert(row * cols + col < r * cols) by (nonlinear_arith)
            requires row < r, col < cols;
    }
}

/// Writing one cell of a heightfield changes that cell alone: read back
/// with `height_of_cell`, the written cell gives the new height and every
/// other cell of the grid gives what it held before.
pub proof fn law_set_height_then_read(data: Seq<u64>, cols: nat, rows: nat, col: nat, row: nat, h: u64, c: nat, r: nat)
    requires
        data.len() == cols * rows,
        col < cols,
        row < rows,
        c < cols,
        r < rows,
    ensures
        data.update((row * cols + col) as int, h)[(r * cols + c) as int] == (if c == col && r == row {
            h
        } else {
            data[(r * cols + c) as int]
        }),
{
    assert(row * cols + col < cols * rows) by (nonlinear_arith)
        requires col < cols, row < rows;
    assert(r * cols + c < cols * rows) by (nonlinear_arith)
        requires c < cols, r < rows;
    if c != col || r != row {
        lemma_cell_positions_distinct(cols, col, row, c, r);
    }
}

// ─────────────────────────────────────────────────────────────────────────────
// Ranking elements by a quality key
// ─────────────────────────────────────────────────────────────────────────────

/// Element `i` has a key (its quality measure was finite).
pub open spec fn ranked(keys: Seq<Option<u64>>, i: int) -> bool {
    0 <= i < keys.len() && keys[i] is Some
}

/// Element `i` comes before element `j` when the worst come first: a larger
/// key first, and of equal keys the lower index first.
pub open spec fn worse_first(keys: Seq<Option<u64>>, i: int, j: int) -> bool {
    keys[i]->0 > keys[j]->0 || (keys[i]->0 == keys[j]->0 && i < j)
}

fn is_worse_first(keys: &[Option<u64>], i: usize, j: usize) -> (b: bool)
    requires
        ranked(keys@, i as int),
        ranked(keys@, j as int),
    ensures
        b == worse_first(keys@, i as int, j as int),
{
    let ki = keys[i].unwrap();
    let kj = keys[j].unwrap();
    ki > kj || (ki == kj && i < j)
}

fn contains_index(v: &Vec<usize>, x: usize) -> (b: bool)
    ensures
        b == v@.contains(x),
{
    let mut k: usize = 0;
    while k < v.len()
        invariant
            k <= v.len(),
            forall|p: int| 0 <= p < k ==> v@[p] != x,
        decreases v.len() - k,
    {
        if v[k] == x {
            assert(v@[k as int] == x);
            return true;
        }
        k = k + 1;
    }
    false
}

/// The indices of the (at most) `n` worst elements, worst first: elements
/// with a key, ordered by larger key first and, among equal keys, by lower
/// index. The result is a prefix of that order: every element with a key
/// that it leaves out comes after everything it holds, and it is shorter
/// than `n` only when it holds every element with a key.
pub fn rank_worst(keys: &[Option<u64>], n: usize) -> (r: Vec<usize>)
    ensures
        r@.len() <= n,
        forall|p: int| 0 <= p < r@.len() ==> ranked(keys@, #[trigger] r@[p] as int),
        forall|p: int, q: int| 0 <= p < q < r@.len() ==> worse_first(keys@, #[trigger] r@[p] as int, #[trigger] r@[q] as int),
        forall|p: int, i: int|
            #![trigger r@[p], ranked(keys@, i)]
            0 <= p < r@.len() && ranked(keys@, i) && !r@.contains(i as usize) ==> worse_first(keys@, r@[p] as int, i),
        r@.len() < n ==> forall|i: int| #[trigger] ranked(keys@, i) ==> r@.contains(i as usize),
{
    let mut r: Vec<usize> = Vec::new();
    while r.len() < n
        invariant_except_break
            r@.len() <= n,
            forall|p: int| 0 <= p < r@.len() ==> ranked(keys@, #[trigger] r@[p] as int),
            forall|p: int, q: int| 0 <= p < q < r@.len() ==> worse_first(keys@, #[trigger] r@[p] as int, #[trigger] r@[q] as int),
            forall|p: int, i: int|
                #![trigger r@[p], ranked(keys@, i)]
                0 <= p < r@.len() && ranked(keys@, i) && !r@.contains(i as usize) ==> worse_first(keys@, r@[p] as int, i),
        ensures
            r@.len() <= n,
            forall|p: int| 0 <= p < r@.len() ==> ranked(keys@, #[trigger] r@[p] as int),
            forall|p: int, q: int| 0 <= p < q < r@.len() ==> worse_first(keys@, #[trigger] r@[p] as int, #[trigger] r@[q] as int),
            forall|p: int, i: int|
                #![trigger r@[p], ranked(keys@, i)]
                0 <= p < r@.len() && ranked(keys@, i) && !r@.contains(i as usize) ==> worse_first(keys@, r@[p] as int, i),
            r@.len() < n ==> forall|i: int| #[trigger] ranked(keys@, i) ==> r@.contains(i as usize),
        decreases n - r@.len(),
    {
        let mut best: Option<usize> = None;
        let mut i: usize = 0;
        while i < keys.len()
            invariant
                i <= keys@.len(),
                best is None ==> forall|j: int| 0 <= j < i && #[trigger] ranked(keys@, j) ==> r@.contains(j as usize),
                best matches Some(b) ==> {
                    &&& b < i
                    &&& ranked(keys@, b as int)
                    &&& !r@.contains(b)
                    &&& forall|j: int|
                        0 <= j < i && #[trigger] ranked(keys@, j) && !r@.contains(j as usize) && j != b ==> worse_first(keys@, b as int, j)
                },
            decreases keys.len() - i,
        {
            if keys[i].is_some() && !contains_index(&r, i) {
                match best {
                    None => {
                        best = Some(i);
                    },
                    Some(b) => {
                        if is_worse_first(keys, i, b) {
                            best = Some(i);
                        }
                    },
                }
            }
            i = i + 1;
        }
        match best {
            None => {
                break;
            },
            Some(b) => {
                let ghost old_r = r@;
                r.push(b);
                assert forall|p: int, i: int|
                    #![trigger r@[p], ranked(keys@, i)]
                    0 <= p < r@.len() && ranked(keys@, i) && !r@.contains(i as usize) implies worse_first(keys@, r@[p] as int, i) by {
                    if p < old_r.len() {
                        assert(r@[p] == old_r[p]);
                        assert(!old_r.contains(i as usize)) by {
                            if old_r.contains(i as usize) {
                                let w = choose|w: int| 0 <= w < old_r.len() && old_r[w] == i as usize;
                                assert(r@[w] == i as usize);
                            }
                        }
                    } else {
                        assert(r@[old_r.len() as int] == b);
                        assert(i != b) by {
                            assert(r@[old_r.len() as int] == b);
                        }
                        assert(!old_r.contains(i as usize)) by {
                            if old_r.contains(i as usize) {
                                let w = choose|w: int| 0 <= w < old_r.len() && old_r[w] == i as usize;
                                assert(r@[w] == i as usize);
                            }
                        }
                    }
                }
                assert forall|p: int, q: int| 0 <= p < q < r@.len() implies worse_first(keys@, #[trigger] r@[p] as int, #[trigger] r@[q] as int) by {
                    if q == old_r.len() {
                        assert(r@[q] == b);
                        assert(r@[p] == old_r[p]);
                    } else {
                        assert(r@[p] == old_r[p]);
                        assert(r@[q] == old_r[q]);
                    }
                }
            },
        }
    }
    r
}

// ─────────────────────────────────────────────────────────────────────────────
// Bounding-box hulls
// ─────────────────────────────────────────────────────────────────────────────

/// The triangles of a box hull over its eight corners, numbered with bit 0
/// along x, bit 1 along y, bit 2 along z, in the order `min`, `(x)`,
/// `(x, y)`, `(y)` on the lower face and likewise on the upper face.
pub open spec fn box_hull_face_table() -> Seq<usize> {
    seq![
        0, 1, 2, 0, 2, 3, 4, 6, 5, 4, 7, 6, 0, 5, 1, 0, 4, 5, 2, 7, 3, 2, 6, 7, 0, 3, 7, 0, 7, 4, 1, 5, 6, 1, 6, 2,
    ]
}

/// The face indices of a box hull: twelve triangles over the eight corners.
pub fn box_hull_faces() -> (f: Vec<usize>)
    ensures
        f@ == box_hull_face_table(),
{
    let f: Vec<usize> = vec![
        0, 1, 2, 0, 2, 3, 4, 6, 5, 4, 7, 6, 0, 5, 1, 0, 4, 5, 2, 7, 3, 2, 6, 7, 0, 3, 7, 0, 7, 4, 1, 5, 6, 1, 6, 2,
    ];
    assert(f@ =~= box_hull_face_table());
    f
}

/// The box hull's table is a mesh over the eight corners: twelve complete
/// triangles, each naming three distinct corners.
pub proof fn law_box_hull_faces_valid()
    ensures
        box_hull_face_table().len() == 36,
        forall|t: int| 0 <= t < 12 ==> #[trigger] triangle_valid(box_hull_face_table(), 8, t) && triangle_distinct(
            box_hull_face_table(),
            t,
        ),
{
    let f = box_hull_face_table();
    assert forall|t: int| 0 <= t < 12 implies #[trigger] triangle_valid(f, 8, t) && triangle_distinct(f, t) by {
        assert(0 <= t < 12);
    }
}

} // verus!

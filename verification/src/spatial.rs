//! A uniform-grid spatial hash: points are stored in order and filed by the
//! integer cell that contains them.
//!
//! Which cell a point falls in (its coordinates divided by the cell size and
//! rounded down), how far a sphere query must reach, and the distance test
//! that decides what a sphere contains are computed with reals and stand
//! outside; the filing, removal, lookup and the enumeration of the cells
//! around a query are here.

use vstd::prelude::*;
use crate::seqs::{first_index, lemma_first_index, lemma_first_index_bounds};

verus! {

/// Integer grid cell coordinates.
pub type CellKey = (i64, i64, i64);

/// The test for key `k`.
pub open spec fn is_key(k: CellKey) -> spec_fn(CellKey) -> bool {
    |c: CellKey| c == k
}

/// The slot of key `k` in a list of keys, or the list's length if absent.
pub open spec fn slot_of(cells: Seq<CellKey>, k: CellKey) -> int {
    first_index(cells, is_key(k))
}

/// Spatial hash over a uniform grid.
#[derive(Debug, Clone)]
pub struct PySpatialHash {
    /// Grid cell size.
    pub cell_size: u64,
    /// All inserted points, by id.
    pub points: Vec<[u64; 3]>,
    /// The cells that have been filed into, each once.
    pub cells: Vec<CellKey>,
    /// The ids filed in each cell, in filing order (parallel to `cells`).
    pub buckets: Vec<Vec<usize>>,
}

/// The test for an id below `n`.
pub open spec fn below(n: nat) -> spec_fn(usize) -> bool {
    |id: usize| id < n
}

/// The test for an id other than `x`.
pub open spec fn other_than(x: usize) -> spec_fn(usize) -> bool {
    |id: usize| id != x
}

/// Ids below `n`.
pub open spec fn ids_below(ids: Seq<usize>, n: nat) -> Seq<usize> {
    ids.filter(below(n))
}

/// `ids` without `x`.
pub open spec fn ids_without(ids: Seq<usize>, x: usize) -> Seq<usize> {
    ids.filter(other_than(x))
}

impl PySpatialHash {
    /// Cells and buckets correspond one to one.
    pub open spec fn wf(&self) -> bool {
        self.cells@.len() == self.buckets@.len()
    }

    /// The ids filed in cell `k`, in filing order.
    pub open spec fn bucket(&self, k: CellKey) -> Seq<usize> {
        let s = slot_of(self.cells@, k);
        if s < self.cells@.len() {
            self.buckets@[s]@
        } else {
            Seq::empty()
        }
    }

    /// The ids in cell `k` that name stored points.
    pub open spec fn candidates_in(&self, k: CellKey) -> Seq<usize> {
        ids_below(self.bucket(k), self.points@.len())
    }

    /// Create an empty spatial hash.
    pub fn new(cell_size: u64) -> (h: Self)
        ensures
            h.wf(),
            h.cell_size == cell_size,
            h.points@.len() == 0,
            forall|k: CellKey| #[trigger] h.bucket(k) == Seq::<usize>::empty(),
    {
        PySpatialHash { cell_size, points: Vec::new(), cells: Vec::new(), buckets: Vec::new() }
    }

    fn find_slot(&self, k: CellKey) -> (s: usize)
        ensures
            s == slot_of(self.cells@, k),
            s <= self.cells@.len(),
    {
        let mut i: usize = 0;
        while i < self.cells.len()
            invariant
                i <= self.cells@.len(),
                forall|j: int| 0 <= j < i ==> !is_key(k)(#[trigger] self.cells@[j]),
            decreases self.cells.len() - i,
        {
            let c = self.cells[i];
            if c.0 == k.0 && c.1 == k.1 && c.2 == k.2 {
                proof {
                    lemma_first_index(self.cells@, is_key(k), i as int);
                }
                return i;
            }
            i = i + 1;
        }
        proof {
            lemma_first_index(self.cells@, is_key(k), i as int);
        }
        i
    }

    /// Store point `p`, which lies in grid cell `cell`, and file its id
    /// there. Returns the new id.
    pub fn insert(&mut self, p: [u64; 3], cell: CellKey) -> (id: usize)
        requires
            old(self).wf(),
        ensures
            final(self).wf(),
            id == old(self).points@.len(),
            final(self).points@ == old(self).points@.push(p),
            final(self).cell_size == old(self).cell_size,
            final(self).bucket(cell) == old(self).bucket(cell).push(id),
            forall|k: CellKey| k != cell ==> #[trigger] final(self).bucket(k) == old(self).bucket(k),
    {
        let id = self.points.len();
        self.points.push(p);
        let s = self.find_slot(cell);
        let ghost old_cells = self.cells@;
        if s < self.cells.len() {
            let mut b = self.buckets[s].clone();
            b.push(id);
            self.buckets.set(s, b);
            assert forall|k: CellKey| k != cell implies #[trigger] self.bucket(k) == old(self).bucket(k) by {
                proof_slot_distinct(old_cells, k, cell);
            }
        } else {
            self.cells.push(cell);
            self.buckets.push(vec![id]);
            proof {
                lemma_slot_after_push(old_cells, cell, cell);
            }
            assert(self.bucket(cell) =~= old(self).bucket(cell).push(id));
            assert forall|k: CellKey| k != cell implies #[trigger] self.bucket(k) == old(self).bucket(k) by {
                lemma_slot_after_push(old_cells, cell, k);
                lemma_first_index_bounds(old_cells, is_key(k));
            }
        }
        id
    }

    /// Unfile id `id` from grid cell `cell` (the cell its point lies in).
    /// Ids that name no stored point are ignored.
    pub fn remove(&mut self, id: usize, cell: CellKey)
        requires
            old(self).wf(),
        ensures
            final(self).wf(),
            final(self).points@ == old(self).points@,
            final(self).cell_size == old(self).cell_size,
            id < old(self).points@.len() ==> final(self).bucket(cell) == ids_without(old(self).bucket(cell), id),
            id >= old(self).points@.len() ==> final(self).bucket(cell) == old(self).bucket(cell),
            forall|k: CellKey| k != cell ==> #[trigger] final(self).bucket(k) == old(self).bucket(k),
    {
        if id >= self.points.len() {
            return;
        }
        let s = self.find_slot(cell);
        if s < self.cells.len() {
            let kept = without_id(&self.buckets[s], id);
            self.buckets.set(s, kept);
            assert forall|k: CellKey| k != cell implies #[trigger] self.bucket(k) == old(self).bucket(k) by {
                proof_slot_distinct(self.cells@, k, cell);
            }
        } else {
            proof {
                reveal(Seq::filter);
            }
            assert(ids_without(Seq::<usize>::empty(), id) =~= Seq::<usize>::empty());
        }
    }

    /// The candidate ids of the cells `(x, y, z)` for `n` values of `z`
    /// from `z_lo`, in order of `z`.
    pub open spec fn column_ids(&self, x: int, y: int, z_lo: int, n: nat) -> Seq<usize>
        decreases n,
    {
        if n == 0 {
            Seq::empty()
        } else {
            self.column_ids(x, y, z_lo, (n - 1) as nat) + self.candidates_in((x as i64, y as i64, (z_lo + n - 1) as i64))
        }
    }

    /// The candidate ids of `m` columns of `side` cells at `x`, for `y` from `y_lo`.
    pub open spec fn plane_ids(&self, x: int, y_lo: int, z_lo: int, side: nat, m: nat) -> Seq<usize>
        decreases m,
    {
        if m == 0 {
            Seq::empty()
        } else {
            self.plane_ids(x, y_lo, z_lo, side, (m - 1) as nat) + self.column_ids(x, y_lo + m - 1, z_lo, side)
        }
    }

    /// The candidate ids of `l` planes of `side` × `side` cells, for `x` from `x_lo`.
    pub open spec fn cube_ids(&self, x_lo: int, y_lo: int, z_lo: int, side: nat, l: nat) -> Seq<usize>
        decreases l,
    {
        if l == 0 {
            Seq::empty()
        } else {
            self.cube_ids(x_lo, y_lo, z_lo, side, (l - 1) as nat) + self.plane_ids(x_lo + l - 1, y_lo, z_lo, side, side)
        }
    }

    /// The ids filed in the cells within `reach` cells of `base` along every
    /// axis that name stored points: cells in order of `x`, then `y`, then
    /// `z`, and ids in filing order within a cell.
    pub open spec fn ids_around(&self, base: CellKey, reach: int) -> Seq<usize> {
        if reach < 0 {
            Seq::empty()
        } else {
            let side = (2 * reach + 1) as nat;
            self.cube_ids(base.0 - reach, base.1 - reach, base.2 - reach, side, side)
        }
    }

    /// The candidates of a sphere query around cell `base`: the ids filed
    /// within `reach` cells of it along every axis that name stored points.
    /// Which of them lie inside the sphere is a distance test on the points.
    pub fn sphere_candidates(&self, base: CellKey, reach: i64) -> (ids: Vec<usize>)
        requires
            self.wf(),
            reach >= 0 ==> {
                &&& i64::MIN <= base.0 - reach && base.0 + reach <= i64::MAX
                &&& i64::MIN <= base.1 - reach && base.1 + reach <= i64::MAX
                &&& i64::MIN <= base.2 - reach && base.2 + reach <= i64::MAX
            },
        ensures
            ids@ == self.ids_around(base, reach as int),
    {
        let mut out: Vec<usize> = Vec::new();
        if reach < 0 {
            return out;
        }
        let r = reach as i128;
        let (bx, by, bz) = (base.0 as i128, base.1 as i128, base.2 as i128);
        let ghost side = (2 * reach + 1) as nat;
        let mut x: i128 = bx - r;
        while x <= bx + r
            invariant
                self.wf(),
                r == reach as int,
                reach >= 0,
                side == 2 * reach + 1,
                bx == base.0 && by == base.1 && bz == base.2,
                i64::MIN <= bx - r && bx + r <= i64::MAX,
                i64::MIN <= by - r && by + r <= i64::MAX,
                i64::MIN <= bz - r && bz + r <= i64::MAX,
                bx - r <= x <= bx + r + 1,
                out@ == self.cube_ids(bx - r, by - r, bz - r, side, (x - (bx - r)) as nat),
            decreases bx + r + 1 - x,
        {
            let mut y: i128 = by - r;
            while y <= by + r
                invariant
                    self.wf(),
                    r == reach as int,
                    reach >= 0,
                    side == 2 * reach + 1,
                    i64::MIN <= bx - r && bx + r <= i64::MAX,
                    i64::MIN <= by - r && by + r <= i64::MAX,
                    i64::MIN <= bz - r && bz + r <= i64::MAX,
                    bx - r <= x <= bx + r,
                    by - r <= y <= by + r + 1,
                    out@ == self.cube_ids(bx - r, by - r, bz - r, side, (x - (bx - r)) as nat) + self.plane_ids(
                        x as int,
                        by - r,
                        bz - r,
                        side,
                        (y - (by - r)) as nat,
                    ),
                decreases by + r + 1 - y,
            {
                let mut z: i128 = bz - r;
                while z <= bz + r
                    invariant
                        self.wf(),
                        r == reach as int,
                        i64::MIN <= bx - r && bx + r <= i64::MAX,
                        i64::MIN <= by - r && by + r <= i64::MAX,
                        i64::MIN <= bz - r && bz + r <= i64::MAX,
                        bx - r <= x <= bx + r,
                        by - r <= y <= by + r,
                        bz - r <= z <= bz + r + 1,
                        out@ == self.cube_ids(bx - r, by - r, bz - r, side, (x - (bx - r)) as nat) + self.plane_ids(
                            x as int,
                            by - r,
                            bz - r,
                            side,
                            (y - (by - r)) as nat,
                        ) + self.column_ids(x as int, y as int, bz - r, (z - (bz - r)) as nat),
                    decreases bz + r + 1 - z,
                {
                    let key: CellKey = (x as i64, y as i64, z as i64);
                    let filed = self.query(key);
                    let ghost before = out@;
                    push_ids_below(&mut out, &filed, self.points.len());
                    proof {
                        let n = (z - (bz - r)) as nat;
                        assert(self.column_ids(x as int, y as int, bz - r, n + 1) == self.column_ids(
                            x as int,
                            y as int,
                            bz - r,
                            n,
                        ) + self.candidates_in(key));
                    }
                    z = z + 1;
                }
                proof {
                    assert((z - (bz - r)) as nat == side);
                }
                y = y + 1;
            }
            x = x + 1;
        }
        out
    }

    /// The ids filed in grid cell `cell`.
    pub fn query(&self, cell: CellKey) -> (ids: Vec<usize>)
        requires
            self.wf(),
        ensures
            ids@ == self.bucket(cell),
    {
        let s = self.find_slot(cell);
        if s < self.cells.len() {
            self.buckets[s].clone()
        } else {
            Vec::new()
        }
    }
}

/// Distinct keys have distinct slots, or are both absent.
proof fn proof_slot_distinct(cells: Seq<CellKey>, a: CellKey, b: CellKey)
    requires
        a != b,
    ensures
        0 <= slot_of(cells, a) <= cells.len(),
        slot_of(cells, a) != slot_of(cells, b) || slot_of(cells, a) == cells.len(),
{
    lemma_first_index_bounds(cells, is_key(a));
    lemma_first_index_bounds(cells, is_key(b));
}

/// Slots after appending a key that was absent.
proof fn lemma_slot_after_push(cells: Seq<CellKey>, added: CellKey, k: CellKey)
    requires
        slot_of(cells, added) == cells.len(),
    ensures
        k == added ==> slot_of(cells.push(added), k) == cells.len(),
        k != added ==> slot_of(cells.push(added), k) == (if slot_of(cells, k) < cells.len() {
            slot_of(cells, k)
        } else {
            cells.len() + 1int
        }),
{
    let p = is_key(k);
    let ext = cells.push(added);
    lemma_first_index_bounds(cells, p);
    lemma_first_index_bounds(cells, is_key(added));
    let s = slot_of(cells, k);
    if s < cells.len() {
        assert forall|j: int| 0 <= j < s implies !p(#[trigger] ext[j]) by {
            assert(ext[j] == cells[j]);
        }
        assert(ext[s] == cells[s]);
        lemma_first_index(ext, p, s);
    } else if k == added {
        assert forall|j: int| 0 <= j < cells.len() implies !p(#[trigger] ext[j]) by {
            assert(ext[j] == cells[j]);
        }
        lemma_first_index(ext, p, cells.len() as int);
    } else {
        assert forall|j: int| 0 <= j < ext.len() implies !p(#[trigger] ext[j]) by {
            if j < cells.len() {
                assert(ext[j] == cells[j]);
            }
        }
        lemma_first_index(ext, p, ext.len() as int);
    }
}

/// Append the ids of `ids` below `n` to `out`, in order.
fn push_ids_below(out: &mut Vec<usize>, ids: &Vec<usize>, n: usize)
    ensures
        final(out)@ == old(out)@ + ids_below(ids@, n as nat),
{
    let mut i: usize = 0;
    while i < ids.len()
        invariant
            i <= ids@.len(),
            out@ == old(out)@ + ids_below(ids@.take(i as int), n as nat),
        decreases ids.len() - i,
    {
        assert(ids@.take(i as int + 1).drop_last() =~= ids@.take(i as int));
        proof {
            reveal(Seq::filter);
        }
        if ids[i] < n {
            out.push(ids[i]);
        }
        i = i + 1;
    }
    assert(ids@.take(i as int) =~= ids@);
}

/// `ids` without `x`, in order.
fn without_id(ids: &Vec<usize>, x: usize) -> (r: Vec<usize>)
    ensures
        r@ == ids_without(ids@, x),
{
    let mut r: Vec<usize> = Vec::new();
    let mut i: usize = 0;
    while i < ids.len()
        invariant
            i <= ids@.len(),
            r@ == ids_without(ids@.take(i as int), x),
        decreases ids.len() - i,
    {
        assert(ids@.take(i as int + 1).drop_last() =~= ids@.take(i as int));
        proof {
            reveal(Seq::filter);
        }
        if ids[i] != x {
            r.push(ids[i]);
        }
        i = i + 1;
    }
    assert(ids@.take(i as int) =~= ids@);
    r
}

// ─────────────────────────────────────────────────────────────────────────────
// Voxel representatives
// ─────────────────────────────────────────────────────────────────────────────

/// The positions among the first `n` keys whose key does not occur earlier:
/// one representative per voxel, the first point that fell in it.
pub open spec fn first_key_positions(keys: Seq<CellKey>, n: int) -> Seq<usize>
    decreases n,
{
    if n <= 0 {
        Seq::empty()
    } else {
        let prev = first_key_positions(keys, n - 1);
        if keys.take(n - 1).contains(keys[n - 1]) {
            prev
        } else {
            prev.push((n - 1) as usize)
        }
    }
}

/// One representative per voxel: the positions of the points (given by
/// their voxel keys) whose voxel holds no earlier point, in order.
pub fn voxel_representatives(keys: &[CellKey]) -> (r: Vec<usize>)
    ensures
        r@ == first_key_positions(keys@, keys@.len() as int),
{
    let mut r: Vec<usize> = Vec::new();
    let mut i: usize = 0;
    while i < keys.len()
        invariant
            i <= keys@.len(),
            r@ == first_key_positions(keys@, i as int),
        decreases keys.len() - i,
    {
        let k = keys[i];
        let mut j: usize = 0;
        let mut seen = false;
        while j < i
            invariant
                j <= i < keys@.len(),
                k == keys@[i as int],
                seen <==> keys@.take(j as int).contains(k),
            decreases i - j,
        {
            let c = keys[j];
            let ghost before = keys@.take(j as int);
            assert(keys@.take(j as int + 1) =~= before.push(c));
            if c.0 == k.0 && c.1 == k.1 && c.2 == k.2 {
                seen = true;
                assert(before.push(c)[j as int] == k);
            }
            proof {
                if before.push(c).contains(k) && !before.contains(k) {
                    let w = choose|w: int| 0 <= w < before.push(c).len() && before.push(c)[w] == k;
                    if w < before.len() {
                        assert(before[w] == k);
                    }
                    assert(c == k);
                }
                if before.contains(k) {
                    let w = choose|w: int| 0 <= w < before.len() && before[w] == k;
                    assert(before.push(c)[w] == k);
                }
            }
            j = j + 1;
        }
        if !seen {
            r.push(i);
        }
        i = i + 1;
    }
    r
}

/// Every voxel that holds a point has exactly one representative, the
/// first of its points, and no two representatives share a voxel.
pub proof fn law_one_representative_per_voxel(keys: Seq<CellKey>, n: int)
    requires
        0 <= n <= keys.len(),
        keys.len() <= usize::MAX,
    ensures
        forall|i: int, j: int|
            0 <= i < j < first_key_positions(keys, n).len() ==> keys[#[trigger] first_key_positions(keys, n)[i] as int]
                != keys[#[trigger] first_key_positions(keys, n)[j] as int],
        forall|p: int| 0 <= p < n ==> #[trigger] first_key_positions(keys, n).contains(p as usize) == !keys.take(p).contains(keys[p]),
        forall|i: int| 0 <= i < first_key_positions(keys, n).len() ==> #[trigger] first_key_positions(keys, n)[i] < n,
    decreases n,
{
    if n > 0 {
        law_one_representative_per_voxel(keys, n - 1);
        let prev = first_key_positions(keys, n - 1);
        let cur = first_key_positions(keys, n);
        let last = n - 1;
        if !keys.take(last).contains(keys[last]) {
            assert forall|i: int, j: int| 0 <= i < j < cur.len() implies keys[#[trigger] cur[i] as int] != keys[#[trigger] cur[j] as int] by {
                if j == prev.len() {
                    assert(cur[i] == prev[i]);
                    assert(prev[i] < last);
                    assert(cur[j] == last as usize);
                    assert(keys.take(last)[prev[i] as int] == keys[prev[i] as int]);
                    if keys[prev[i] as int] == keys[last] {
                        assert(keys.take(last).contains(keys[last]));
                    }
                } else {
                    assert(cur[i] == prev[i]);
                    assert(cur[j] == prev[j]);
                }
            }
            assert forall|p: int| 0 <= p < n implies #[trigger] cur.contains(p as usize) == !keys.take(p).contains(keys[p]) by {
                if p < last {
                    if cur.contains(p as usize) {
                        let w = choose|w: int| 0 <= w < cur.len() && cur[w] == p as usize;
                        if w < prev.len() {
                            assert(prev[w] == p as usize);
                        }
                    }
                    if prev.contains(p as usize) {
                        let w = choose|w: int| 0 <= w < prev.len() && prev[w] == p as usize;
                        assert(cur[w] == p as usize);
                    }
                } else {
                    assert(cur[prev.len() as int] == p as usize);
                }
            }
        } else {
            assert forall|p: int| 0 <= p < n implies #[trigger] cur.contains(p as usize) == !keys.take(p).contains(keys[p]) by {
                if p == last {
                    if cur.contains(p as usize) {
                        let w = choose|w: int| 0 <= w < cur.len() && cur[w] == p as usize;
                        assert(prev[w] < last);
                    }
                }
            }
        }
    }
}

// ─────────────────────────────────────────────────────────────────────────────
// Laws
// ─────────────────────────────────────────────────────────────────────────────

/// Filing then looking up: once `insert` has filed a point's id in its
/// cell, a lookup of that cell lists the id (as its newest entry), and
/// lookups of other cells give what they gave before.
pub proof fn law_insert_then_query(before: PySpatialHash, after: PySpatialHash, cell: CellKey, id: usize, k: CellKey)
    requires
        after.bucket(cell) == before.bucket(cell).push(id),
        forall|c: CellKey| c != cell ==> #[trigger] after.bucket(c) == before.bucket(c),
    ensures
        after.bucket(cell).contains(id),
        after.bucket(cell).last() == id,
        k != cell ==> after.bucket(k) == before.bucket(k),
{
    assert(after.bucket(cell)[before.bucket(cell).len() as int] == id);
}

/// Unfiling then looking up: once `remove` has unfiled an id from a cell,
/// a lookup of that cell no longer lists it, and lists every other id it
/// listed before.
pub proof fn law_remove_then_query(bucket: Seq<usize>, id: usize, other: usize)
    requires
        other != id,
    ensures
        !ids_without(bucket, id).contains(id),
        ids_without(bucket, id).contains(other) == bucket.contains(other),
{
    if ids_without(bucket, id).contains(id) {
        let i = choose|i: int| 0 <= i < ids_without(bucket, id).len() && ids_without(bucket, id)[i] == id;
        bucket.lemma_filter_pred(other_than(id), i);
    }
    if ids_without(bucket, id).contains(other) {
        bucket.lemma_filter_contains_rev(other_than(id), other);
    }
    if bucket.contains(other) {
        let i = choose|i: int| 0 <= i < bucket.len() && bucket[i] == other;
        bucket.lemma_filter_contains(other_than(id), i);
    }
}

proof fn lemma_column_from_cells(h: PySpatialHash, x: int, y: int, z_lo: int, n: nat, e: usize)
    requires
        h.column_ids(x, y, z_lo, n).contains(e),
    ensures
        exists|k: CellKey| #[trigger] h.candidates_in(k).contains(e),
    decreases n,
{
    if n > 0 {
        let prev = h.column_ids(x, y, z_lo, (n - 1) as nat);
        let key = (x as i64, y as i64, (z_lo + n - 1) as i64);
        let last = h.candidates_in(key);
        if prev.contains(e) {
            lemma_column_from_cells(h, x, y, z_lo, (n - 1) as nat, e);
        } else {
            let i = choose|i: int| 0 <= i < (prev + last).len() && (prev + last)[i] == e;
            assert(last[i - prev.len()] == e);
            assert(last.contains(e));
        }
    }
}

proof fn lemma_plane_from_cells(h: PySpatialHash, x: int, y_lo: int, z_lo: int, side: nat, m: nat, e: usize)
    requires
        h.plane_ids(x, y_lo, z_lo, side, m).contains(e),
    ensures
        exists|k: CellKey| #[trigger] h.candidates_in(k).contains(e),
    decreases m,
{
    if m > 0 {
        let prev = h.plane_ids(x, y_lo, z_lo, side, (m - 1) as nat);
        let last = h.column_ids(x, y_lo + m - 1, z_lo, side);
        if prev.contains(e) {
            lemma_plane_from_cells(h, x, y_lo, z_lo, side, (m - 1) as nat, e);
        } else {
            let i = choose|i: int| 0 <= i < (prev + last).len() && (prev + last)[i] == e;
            assert(last[i - prev.len()] == e);
            lemma_column_from_cells(h, x, y_lo + m - 1, z_lo, side, e);
        }
    }
}

proof fn lemma_cube_from_cells(h: PySpatialHash, x_lo: int, y_lo: int, z_lo: int, side: nat, l: nat, e: usize)
    requires
        h.cube_ids(x_lo, y_lo, z_lo, side, l).contains(e),
    ensures
        exists|k: CellKey| #[trigger] h.candidates_in(k).contains(e),
    decreases l,
{
    if l > 0 {
        let prev = h.cube_ids(x_lo, y_lo, z_lo, side, (l - 1) as nat);
        let last = h.plane_ids(x_lo + l - 1, y_lo, z_lo, side, side);
        if prev.contains(e) {
            lemma_cube_from_cells(h, x_lo, y_lo, z_lo, side, (l - 1) as nat, e);
        } else {
            let i = choose|i: int| 0 <= i < (prev + last).len() && (prev + last)[i] == e;
            assert(last[i - prev.len()] == e);
            lemma_plane_from_cells(h, x_lo + l - 1, y_lo, z_lo, side, side, e);
        }
    }
}

proof fn lemma_column_complete(h: PySpatialHash, x: int, y: int, z_lo: int, n: nat, k: CellKey, e: usize)
    requires
        k.0 as int == x,
        k.1 as int == y,
        z_lo <= k.2 < z_lo + n,
        h.candidates_in(k).contains(e),
    ensures
        h.column_ids(x, y, z_lo, n).contains(e),
    decreases n,
{
    let prev = h.column_ids(x, y, z_lo, (n - 1) as nat);
    let key = (x as i64, y as i64, (z_lo + n - 1) as i64);
    let last = h.candidates_in(key);
    assert(h.column_ids(x, y, z_lo, n) == prev + last);
    if k.2 == z_lo + n - 1 {
        assert(key == k);
        let i = choose|i: int| 0 <= i < last.len() && last[i] == e;
        assert((prev + last)[prev.len() + i] == e);
    } else {
        lemma_column_complete(h, x, y, z_lo, (n - 1) as nat, k, e);
        let i = choose|i: int| 0 <= i < prev.len() && prev[i] == e;
        assert((prev + last)[i] == e);
    }
}

proof fn lemma_plane_complete(h: PySpatialHash, x: int, y_lo: int, z_lo: int, side: nat, m: nat, k: CellKey, e: usize)
    requires
        k.0 as int == x,
        y_lo <= k.1 < y_lo + m,
        z_lo <= k.2 < z_lo + side,
        h.candidates_in(k).contains(e),
    ensures
        h.plane_ids(x, y_lo, z_lo, side, m).contains(e),
    decreases m,
{
    let prev = h.plane_ids(x, y_lo, z_lo, side, (m - 1) as nat);
    let last = h.column_ids(x, y_lo + m - 1, z_lo, side);
    assert(h.plane_ids(x, y_lo, z_lo, side, m) == prev + last);
    if k.1 == y_lo + m - 1 {
        lemma_column_complete(h, x, y_lo + m - 1, z_lo, side, k, e);
        let i = choose|i: int| 0 <= i < last.len() && last[i] == e;
        assert((prev + last)[prev.len() + i] == e);
    } else {
        lemma_plane_complete(h, x, y_lo, z_lo, side, (m - 1) as nat, k, e);
        let i = choose|i: int| 0 <= i < prev.len() && prev[i] == e;
        assert((prev + last)[i] == e);
    }
}

proof fn lemma_cube_complete(h: PySpatialHash, x_lo: int, y_lo: int, z_lo: int, side: nat, l: nat, k: CellKey, e: usize)
    requires
        x_lo <= k.0 < x_lo + l,
        y_lo <= k.1 < y_lo + side,
        z_lo <= k.2 < z_lo + side,
        h.candidates_in(k).contains(e),
    ensures
        h.cube_ids(x_lo, y_lo, z_lo, side, l).contains(e),
    decreases l,
{
    let prev = h.cube_ids(x_lo, y_lo, z_lo, side, (l - 1) as nat);
    let last = h.plane_ids(x_lo + l - 1, y_lo, z_lo, side, side);
    assert(h.cube_ids(x_lo, y_lo, z_lo, side, l) == prev + last);
    if k.0 == x_lo + l - 1 {
        lemma_plane_complete(h, x_lo + l - 1, y_lo, z_lo, side, side, k, e);
        let i = choose|i: int| 0 <= i < last.len() && last[i] == e;
        assert((prev + last)[prev.len() + i] == e);
    } else {
        lemma_cube_complete(h, x_lo, y_lo, z_lo, side, (l - 1) as nat, k, e);
        let i = choose|i: int| 0 <= i < prev.len() && prev[i] == e;
        assert((prev + last)[i] == e);
    }
}

/// A sphere query misses nothing in reach: every id filed in a cell whose
/// coordinates differ from `base` by at most `reach` along each axis, on
/// either side, and that names a stored point, is a candidate.
pub proof fn law_sphere_candidates_complete(h: PySpatialHash, base: CellKey, reach: int, k: CellKey, e: usize)
    requires
        reach >= 0,
        base.0 - reach <= k.0 <= base.0 + reach,
        base.1 - reach <= k.1 <= base.1 + reach,
        base.2 - reach <= k.2 <= base.2 + reach,
        h.bucket(k).contains(e),
        e < h.points@.len(),
    ensures
        h.ids_around(base, reach).contains(e),
{
    let n = h.points@.len();
    let i = choose|i: int| 0 <= i < h.bucket(k).len() && h.bucket(k)[i] == e;
    h.bucket(k).lemma_filter_contains(below(n), i);
    let side = (2 * reach + 1) as nat;
    lemma_cube_complete(h, base.0 - reach, base.1 - reach, base.2 - reach, side, side, k, e);
}

/// A cell key with coordinates in the given ranges.
pub open spec fn key_in(k: CellKey, x_lo: int, x_hi: int, y_lo: int, y_hi: int, z_lo: int, z_hi: int) -> bool {
    x_lo <= k.0 <= x_hi && y_lo <= k.1 <= y_hi && z_lo <= k.2 <= z_hi
}

proof fn lemma_column_in_range(h: PySpatialHash, x: int, y: int, z_lo: int, n: nat, e: usize)
    requires
        i64::MIN <= x <= i64::MAX,
        i64::MIN <= y <= i64::MAX,
        i64::MIN <= z_lo,
        z_lo + n - 1 <= i64::MAX,
        h.column_ids(x, y, z_lo, n).contains(e),
    ensures
        exists|k: CellKey| key_in(k, x, x, y, y, z_lo, z_lo + n - 1) && #[trigger] h.candidates_in(k).contains(e),
    decreases n,
{
    if n > 0 {
        let prev = h.column_ids(x, y, z_lo, (n - 1) as nat);
        let key = (x as i64, y as i64, (z_lo + n - 1) as i64);
        let last = h.candidates_in(key);
        if prev.contains(e) {
            lemma_column_in_range(h, x, y, z_lo, (n - 1) as nat, e);
        } else {
            let i = choose|i: int| 0 <= i < (prev + last).len() && (prev + last)[i] == e;
            assert(last[i - prev.len()] == e);
            assert(key_in(key, x, x, y, y, z_lo, z_lo + n - 1));
            assert(last.contains(e));
        }
    }
}

proof fn lemma_plane_in_range(h: PySpatialHash, x: int, y_lo: int, z_lo: int, side: nat, m: nat, e: usize)
    requires
        i64::MIN <= x <= i64::MAX,
        i64::MIN <= y_lo,
        y_lo + m - 1 <= i64::MAX,
        i64::MIN <= z_lo,
        z_lo + side - 1 <= i64::MAX,
        h.plane_ids(x, y_lo, z_lo, side, m).contains(e),
    ensures
        exists|k: CellKey| key_in(k, x, x, y_lo, y_lo + m - 1, z_lo, z_lo + side - 1) && #[trigger] h.candidates_in(k).contains(e),
    decreases m,
{
    if m > 0 {
        let prev = h.plane_ids(x, y_lo, z_lo, side, (m - 1) as nat);
        let last = h.column_ids(x, y_lo + m - 1, z_lo, side);
        if prev.contains(e) {
            lemma_plane_in_range(h, x, y_lo, z_lo, side, (m - 1) as nat, e);
        } else {
            let i = choose|i: int| 0 <= i < (prev + last).len() && (prev + last)[i] == e;
            assert(last[i - prev.len()] == e);
            lemma_column_in_range(h, x, y_lo + m - 1, z_lo, side, e);
        }
    }
}

proof fn lemma_cube_in_range(h: PySpatialHash, x_lo: int, y_lo: int, z_lo: int, side: nat, l: nat, e: usize)
    requires
        i64::MIN <= x_lo,
        x_lo + l - 1 <= i64::MAX,
        i64::MIN <= y_lo,
        y_lo + side - 1 <= i64::MAX,
        i64::MIN <= z_lo,
        z_lo + side - 1 <= i64::MAX,
        h.cube_ids(x_lo, y_lo, z_lo, side, l).contains(e),
    ensures
        exists|k: CellKey|
            key_in(k, x_lo, x_lo + l - 1, y_lo, y_lo + side - 1, z_lo, z_lo + side - 1) && #[trigger] h.candidates_in(k).contains(e),
    decreases l,
{
    if l > 0 {
        let prev = h.cube_ids(x_lo, y_lo, z_lo, side, (l - 1) as nat);
        let last = h.plane_ids(x_lo + l - 1, y_lo, z_lo, side, side);
        if prev.contains(e) {
            lemma_cube_in_range(h, x_lo, y_lo, z_lo, side, (l - 1) as nat, e);
        } else {
            let i = choose|i: int| 0 <= i < (prev + last).len() && (prev + last)[i] == e;
            assert(last[i - prev.len()] == e);
            lemma_plane_in_range(h, x_lo + l - 1, y_lo, z_lo, side, side, e);
        }
    }
}

/// A sphere query reaches no further than asked: every candidate names a
/// stored point filed in a cell whose coordinates differ from `base` by at
/// most `reach` along each axis.
pub proof fn law_sphere_candidates_in_reach(h: PySpatialHash, base: CellKey, reach: int, e: usize)
    requires
        i64::MIN <= base.0 - reach && base.0 + reach <= i64::MAX,
        i64::MIN <= base.1 - reach && base.1 + reach <= i64::MAX,
        i64::MIN <= base.2 - reach && base.2 + reach <= i64::MAX,
        h.ids_around(base, reach).contains(e),
    ensures
        e < h.points@.len(),
        exists|k: CellKey|
            key_in(k, base.0 - reach, base.0 + reach, base.1 - reach, base.1 + reach, base.2 - reach, base.2 + reach)
                && #[trigger] h.bucket(k).contains(e),
{
    let side = (2 * reach + 1) as nat;
    lemma_cube_in_range(h, base.0 - reach, base.1 - reach, base.2 - reach, side, side, e);
    let k = choose|k: CellKey|
        key_in(k, base.0 - reach, base.0 + reach, base.1 - reach, base.1 + reach, base.2 - reach, base.2 + reach)
            && #[trigger] h.candidates_in(k).contains(e);
    let n = h.points@.len();
    let c = h.candidates_in(k);
    h.bucket(k).lemma_filter_contains_rev(below(n), e);
    let i = choose|i: int| 0 <= i < c.len() && c[i] == e;
    h.bucket(k).lemma_filter_pred(below(n), i);
}

/// What a sphere query can return: every candidate names a stored point and
/// is filed in some cell, so an id that no cell lists (such as one that
/// `remove` has unfiled from the only cell it was filed in) is never
/// returned.
pub proof fn law_candidates_are_filed_points(h: PySpatialHash, base: CellKey, reach: int, e: usize)
    requires
        h.ids_around(base, reach).contains(e),
    ensures
        e < h.points@.len(),
        exists|k: CellKey| #[trigger] h.bucket(k).contains(e),
{
    let side = (2 * reach + 1) as nat;
    lemma_cube_from_cells(h, base.0 - reach, base.1 - reach, base.2 - reach, side, side, e);
    let k = choose|k: CellKey| #[trigger] h.candidates_in(k).contains(e);
    let n = h.points@.len();
    let c = h.candidates_in(k);
    h.bucket(k).lemma_filter_contains_rev(below(n), e);
    let i = choose|i: int| 0 <= i < c.len() && c[i] == e;
    h.bucket(k).lemma_filter_pred(below(n), i);
}

} // verus!

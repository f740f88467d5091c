use oxiphysics::spatial::{voxel_representatives, PySpatialHash};

fn cell_of(p: [f64; 3], cs: f64) -> (i64, i64, i64) {
    ((p[0] / cs).floor() as i64, (p[1] / cs).floor() as i64, (p[2] / cs).floor() as i64)
}

fn bits(p: [f64; 3]) -> [u64; 3] {
    [p[0].to_bits(), p[1].to_bits(), p[2].to_bits()]
}

fn insert(sh: &mut PySpatialHash, p: [f64; 3]) -> usize {
    let cs = f64::from_bits(sh.cell_size);
    sh.insert(bits(p), cell_of(p, cs))
}

fn remove(sh: &mut PySpatialHash, id: usize) {
    let cs = f64::from_bits(sh.cell_size);
    let p = sh.points[id].map(f64::from_bits);
    sh.remove(id, cell_of(p, cs));
}

fn sphere_query(sh: &PySpatialHash, center: [f64; 3], radius: f64) -> Vec<usize> {
    let cs = f64::from_bits(sh.cell_size);
    let reach = (radius / cs).ceil() as i64 + 1;
    sh.sphere_candidates(cell_of(center, cs), reach)
        .into_iter()
        .filter(|&id| {
            let p = sh.points[id].map(f64::from_bits);
            let d = [p[0] - center[0], p[1] - center[1], p[2] - center[2]];
            d[0] * d[0] + d[1] * d[1] + d[2] * d[2] <= radius * radius
        })
        .collect()
}

#[test]
fn test_spatial_hash_insert_query() {
    let mut sh = PySpatialHash::new(1.0f64.to_bits());
    let id = insert(&mut sh, [0.5, 0.5, 0.5]);
    let res = sh.query(cell_of([0.5, 0.5, 0.5], 1.0));
    assert!(res.contains(&id));
}

#[test]
fn test_spatial_hash_sphere_query() {
    let mut sh = PySpatialHash::new(1.0f64.to_bits());
    insert(&mut sh, [0.0, 0.0, 0.0]);
    insert(&mut sh, [5.0, 5.0, 5.0]);
    let res = sphere_query(&sh, [0.0, 0.0, 0.0], 1.0);
    assert_eq!(res.len(), 1);
}

#[test]
fn test_spatial_hash_remove() {
    let mut sh = PySpatialHash::new(1.0f64.to_bits());
    let id = insert(&mut sh, [0.0, 0.0, 0.0]);
    remove(&mut sh, id);
    let res = sphere_query(&sh, [0.0, 0.0, 0.0], 0.5);
    assert!(!res.contains(&id));
}

#[test]
fn spatial_hash_filing_by_cell() {
    let mut sh = PySpatialHash::new(1.0f64.to_bits());
    assert_eq!(sh.insert([0; 3], (0, 0, 0)), 0);
    assert_eq!(sh.insert([0; 3], (1, 0, 0)), 1);
    assert_eq!(sh.insert([0; 3], (0, 0, 0)), 2);
    assert_eq!(sh.query((0, 0, 0)), vec![0, 2]);
    assert_eq!(sh.query((1, 0, 0)), vec![1]);
    assert!(sh.query((5, 5, 5)).is_empty());
    sh.remove(0, (0, 0, 0));
    assert_eq!(sh.query((0, 0, 0)), vec![2]);
    sh.remove(9, (1, 0, 0));
    assert_eq!(sh.query((1, 0, 0)), vec![1]);
}

#[test]
fn spatial_hash_candidates_in_cube_order() {
    let mut sh = PySpatialHash::new(1.0f64.to_bits());
    sh.insert([0; 3], (1, 0, 0));
    sh.insert([0; 3], (0, 0, 1));
    sh.insert([0; 3], (0, 0, 0));
    sh.insert([0; 3], (3, 0, 0));
    assert_eq!(sh.sphere_candidates((0, 0, 0), 1), vec![2, 1, 0]);
    assert_eq!(sh.sphere_candidates((0, 0, 0), 0), vec![2]);
    assert!(sh.sphere_candidates((0, 0, 0), -1).is_empty());
}

#[test]
fn voxel_representatives_first_per_voxel() {
    let keys = vec![(0, 0, 0), (1, 0, 0), (0, 0, 0), (2, 0, 0), (1, 0, 0)];
    assert_eq!(voxel_representatives(&keys), vec![0, 1, 3]);
    assert!(voxel_representatives(&[]).is_empty());
}

#[test]
fn simplify_keeps_fewer_points() {
    let keys: Vec<(i64, i64, i64)> =
        (0..100).map(|i| (((i as f64 * 0.01) / 0.1).floor() as i64, 0, 0)).collect();
    let kept = voxel_representatives(&keys);
    assert!(kept.len() < 100);
    assert_eq!(kept.len(), 10);
}

use oxiphysics::geometry::{box_hull_faces, fan_triangulate, mesh_to_obj_string, rank_worst, PyCsg, PyHeightfield, PyTriangleMesh};

fn b(x: f64) -> u64 {
    x.to_bits()
}

fn v3(v: [f64; 3]) -> [u64; 3] {
    [b(v[0]), b(v[1]), b(v[2])]
}

fn unit_box_mesh() -> PyTriangleMesh {
    let verts = vec![
        [0.0, 0.0, 0.0],
        [1.0, 0.0, 0.0],
        [1.0, 1.0, 0.0],
        [0.0, 1.0, 0.0],
        [0.0, 0.0, 1.0],
        [1.0, 0.0, 1.0],
        [1.0, 1.0, 1.0],
        [0.0, 1.0, 1.0],
    ];
    let idx = vec![
        0, 1, 2, 0, 2, 3, 4, 6, 5, 4, 7, 6, 0, 5, 1, 0, 4, 5, 2, 7, 3, 2, 6, 7, 0, 3, 7, 0, 7, 4, 1, 5, 6,
        1, 6, 2,
    ];
    PyTriangleMesh { vertices: verts.into_iter().map(v3).collect(), indices: idx, normals: vec![] }
}

#[test]
fn test_mesh_triangle_count() {
    let mesh = unit_box_mesh();
    assert_eq!(mesh.triangle_count(), 12);
}

#[test]
fn test_mesh_repair_removes_degenerate() {
    let mut mesh = PyTriangleMesh {
        vertices: vec![v3([0.0, 0.0, 0.0]), v3([1.0, 0.0, 0.0]), v3([0.0, 1.0, 0.0])],
        indices: vec![0, 0, 0, 0, 1, 2],
        normals: vec![],
    };
    // The area test is made outside; the first triangle has zero area.
    mesh.repair(&[false, true]);
    assert_eq!(mesh.triangle_count(), 1);
    assert_eq!(mesh.indices, vec![0, 1, 2]);
}

#[test]
fn mesh_repair_drops_missing_vertices_and_repeats() {
    let mut mesh = PyTriangleMesh {
        vertices: vec![v3([0.0; 3]); 4],
        indices: vec![0, 1, 9, 1, 2, 1, 1, 2, 3, 0, 1],
        normals: vec![],
    };
    mesh.repair(&[true, true, true]);
    assert_eq!(mesh.indices, vec![1, 2, 3]);
    assert_eq!(PyTriangleMesh::default().triangle_count(), 0);
}

#[test]
fn test_csg_union_vertex_count() {
    let a = unit_box_mesh();
    let bm = unit_box_mesh();
    let (verts, idx) = PyCsg::union_geometry(&a, &bm);
    assert_eq!(verts.len(), a.vertices.len() + bm.vertices.len());
    assert_eq!(idx.len(), 72);
    assert_eq!(idx[36], 8);
    assert_eq!(idx[71], 2 + 8);
}

#[test]
fn csg_select_triangles_renumbers_in_first_use_order() {
    let mesh = PyTriangleMesh {
        vertices: vec![v3([0.0; 3]), v3([1.0, 0.0, 0.0]), v3([2.0, 0.0, 0.0]), v3([3.0, 0.0, 0.0])],
        indices: vec![3, 1, 2, 0, 1, 7, 2, 1, 0],
        normals: vec![],
    };
    let (verts, idx) = PyCsg::select_triangles(&mesh, &[true, true, true]);
    assert_eq!(verts, vec![v3([3.0, 0.0, 0.0]), v3([1.0, 0.0, 0.0]), v3([2.0, 0.0, 0.0]), v3([0.0; 3])]);
    assert_eq!(idx, vec![0, 1, 2, 2, 1, 3]);
    let (verts, idx) = PyCsg::select_triangles(&mesh, &[false, true, true]);
    assert_eq!(verts, vec![v3([2.0, 0.0, 0.0]), v3([1.0, 0.0, 0.0]), v3([0.0; 3])]);
    assert_eq!(idx, vec![0, 1, 2]);
    let (verts, idx) = PyCsg::select_triangles(&mesh, &[false, false, false]);
    assert!(verts.is_empty() && idx.is_empty());
}

#[test]
fn fan_triangulation() {
    assert_eq!(fan_triangulate(&[4, 5, 6, 7, 8]), vec![4, 5, 6, 4, 6, 7, 4, 7, 8]);
    assert_eq!(fan_triangulate(&[1, 2, 3]), vec![1, 2, 3]);
    assert!(fan_triangulate(&[1, 2]).is_empty());
}

#[test]
fn obj_text_layout() {
    let vt = vec![
        ["0".to_string(), "0".to_string(), "0".to_string()],
        ["1".to_string(), "0".to_string(), "0".to_string()],
        ["0".to_string(), "1.5".to_string(), "0".to_string()],
    ];
    let nt = vec![["0".to_string(), "0".to_string(), "1".to_string()]];
    let s = mesh_to_obj_string(&vt, &nt, &[0, 1, 2, 9]);
    assert_eq!(s, "v 0 0 0\nv 1 0 0\nv 0 1.5 0\nvn 0 0 1\nf 1 2 3\n");
}

#[test]
fn heightfield_cells() {
    let mut hf = PyHeightfield::new(10, 10, b(1.0), b(1.0), b(1.0));
    assert_eq!(hf.data.len(), 100);
    assert_eq!(hf.height_of_cell(5, 5), Some(b(0.0)));
    hf.set_height(3, 4, b(5.0));
    assert_eq!(hf.height_of_cell(3, 4), Some(b(5.0)));
    assert_eq!(hf.data[4 * 10 + 3], b(5.0));
    hf.set_height(10, 0, b(7.0));
    assert_eq!(hf.height_of_cell(10, 0), None);
    assert!(hf.data.iter().all(|&h| h == b(0.0) || h == b(5.0)));
}

#[test]
fn heightfield_write_touches_one_cell() {
    let mut hf = PyHeightfield::new(4, 3, b(1.0), b(1.0), b(1.0));
    hf.set_height(1, 2, b(2.5));
    for row in 0..3 {
        for col in 0..4 {
            let expected = if (col, row) == (1, 2) { b(2.5) } else { b(0.0) };
            assert_eq!(hf.height_of_cell(col, row), Some(expected));
        }
    }
    assert_eq!(hf.height_of_cell(4, 0), None);
    assert_eq!(hf.height_of_cell(0, 3), None);
}

#[test]
fn triangle_corners_checks_vertex_range() {
    let mut m = PyTriangleMesh::new();
    m.vertices = vec![[0, 0, 0]; 3];
    m.indices = vec![0, 1, 2, 2, 1, 3];
    assert_eq!(m.triangle_corners(0), Some((0, 1, 2)));
    assert_eq!(m.triangle_corners(1), None);
}

#[test]
fn rank_worst_orders_by_key_then_index() {
    let keys = vec![Some(5), None, Some(7), Some(5), Some(1)];
    assert_eq!(rank_worst(&keys, 2), vec![2, 0]);
    assert_eq!(rank_worst(&keys, 3), vec![2, 0, 3]);
    assert_eq!(rank_worst(&keys, 10), vec![2, 0, 3, 4]);
    assert!(rank_worst(&keys, 0).is_empty());
    assert!(rank_worst(&[None, None], 3).is_empty());
}

#[test]
fn mesh_getters_copy_storage() {
    let mut m = PyTriangleMesh::new();
    m.vertices = vec![[1, 2, 3], [4, 5, 6]];
    m.indices = vec![0, 1, 1];
    m.normals = vec![[7, 8, 9]];
    assert_eq!(m.get_vertices(), vec![vec![1, 2, 3], vec![4, 5, 6]]);
    assert_eq!(m.get_indices(), vec![0, 1, 1]);
    assert_eq!(m.get_normals(), vec![vec![7, 8, 9]]);
}

#[test]
fn box_hull_faces_cover_the_box() {
    let f = box_hull_faces();
    assert_eq!(f.len(), 36);
    assert!(f.iter().all(|&i| i < 8));
    // Every edge of a closed triangle mesh is shared by exactly two triangles.
    let mut edges = std::collections::HashMap::new();
    for t in f.chunks(3) {
        for k in 0..3 {
            let (a, c) = (t[k], t[(k + 1) % 3]);
            *edges.entry((a.min(c), a.max(c))).or_insert(0) += 1;
        }
    }
    assert!(edges.values().all(|&n| n == 2));
}

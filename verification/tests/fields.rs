use oxiphysics::fields::{
    cell_corner_indices, contour_case, contour_segments, coupling_indices, smoothing_window, CellEdge,
};

fn crossing(above: [bool; 4], e: CellEdge) -> bool {
    let (a, c) = match e {
        CellEdge::Bottom => (0, 1),
        CellEdge::Right => (1, 2),
        CellEdge::Top => (2, 3),
        CellEdge::Left => (3, 0),
    };
    above[a] != above[c]
}

#[test]
fn contour_case_bits() {
    assert_eq!(contour_case([false; 4]), 0);
    assert_eq!(contour_case([true, false, false, false]), 1);
    assert_eq!(contour_case([false, true, false, true]), 10);
    assert_eq!(contour_case([true; 4]), 15);
}

#[test]
fn contour_segments_table() {
    assert!(contour_segments(0).is_empty());
    assert!(contour_segments(15).is_empty());
    assert_eq!(contour_segments(1), vec![(CellEdge::Bottom, CellEdge::Left)]);
    assert_eq!(contour_segments(6), vec![(CellEdge::Bottom, CellEdge::Top)]);
    assert_eq!(
        contour_segments(5),
        vec![(CellEdge::Bottom, CellEdge::Right), (CellEdge::Left, CellEdge::Top)]
    );
}

#[test]
fn every_crossing_edge_is_joined_once() {
    let edges = [CellEdge::Bottom, CellEdge::Right, CellEdge::Top, CellEdge::Left];
    for bits in 0..16u8 {
        let above = [bits & 1 != 0, bits & 2 != 0, bits & 4 != 0, bits & 8 != 0];
        let segs = contour_segments(contour_case(above));
        for e in edges {
            let uses = segs.iter().filter(|s| s.0 == e).count() + segs.iter().filter(|s| s.1 == e).count();
            assert_eq!(uses, if crossing(above, e) { 1 } else { 0 });
        }
    }
}

#[test]
fn cell_corners_row_major() {
    assert_eq!(cell_corner_indices(4, 3, 1, 1), [5, 6, 10, 9]);
    assert_eq!(cell_corner_indices(2, 2, 0, 0), [0, 1, 3, 2]);
}

#[test]
fn smoothing_windows_cut_at_ends() {
    assert_eq!(smoothing_window(0, 2, 10), (0, 3));
    assert_eq!(smoothing_window(5, 2, 10), (3, 8));
    assert_eq!(smoothing_window(9, 2, 10), (7, 10));
    assert_eq!(smoothing_window(3, 0, 10), (3, 4));
}

#[test]
fn coupling_indices_need_both_sides() {
    assert_eq!(coupling_indices(&[0, 4, 2, 7, 1], 5, 3), vec![0, 2, 1]);
    assert!(coupling_indices(&[], 5, 5).is_empty());
}

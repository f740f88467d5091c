use oxiphysics::lbm::{PyLbmConfig, PyLbmGrid};

fn b(x: f64) -> u64 {
    x.to_bits()
}

#[test]
fn lbm_config_viscosity_floor() {
    let c = PyLbmConfig::new(8, 4, b(0.1));
    assert_eq!((c.width, c.height), (8, 4));
    assert_eq!(c.viscosity, b(0.1));
    assert_eq!(PyLbmConfig::new(1, 1, b(0.0)).viscosity, b(1e-6));
    assert_eq!(PyLbmConfig::new(1, 1, b(-2.0)).viscosity, b(1e-6));
    assert_eq!(PyLbmConfig::new(1, 1, b(1e-9)).viscosity, b(1e-6));
    assert_eq!(PyLbmConfig::new(1, 1, b(f64::NAN)).viscosity, b(1e-6));
    assert_eq!(PyLbmConfig::new(1, 1, b(5e-7)).viscosity, b((5e-7f64).max(1e-6)));
    let cav = PyLbmConfig::lid_driven_cavity();
    assert_eq!((cav.width, cav.height, cav.viscosity), (64, 64, b(0.01)));
}

#[test]
fn lbm_grid_equilibrium_layout() {
    let c = PyLbmConfig::new(3, 2, b(0.1));
    let mut g = PyLbmGrid::new(&c, b(1.0));
    assert_eq!(g.width(), 3);
    assert_eq!(g.height(), 2);
    assert_eq!(g.f.len(), 54);
    let w = [4.0 / 9.0, 1.0 / 9.0, 1.0 / 9.0, 1.0 / 9.0, 1.0 / 9.0, 1.0 / 36.0, 1.0 / 36.0, 1.0 / 36.0, 1.0 / 36.0];
    let cell = g.cell(2, 1).unwrap();
    for q in 0..9 {
        assert_eq!(cell[q], b(w[q]));
    }
    assert!(g.cell(3, 0).is_none());
    assert!(g.cell(0, 2).is_none());
    let post = g.f.clone();
    g.step(post.clone());
    g.step(post);
    assert_eq!(g.step_count(), 2);
}

#[test]
fn lbm_streaming_moves_values_one_cell() {
    let c = PyLbmConfig::new(3, 2, b(0.1));
    let mut g = PyLbmGrid::new(&c, b(1.0));
    // Distinct tags: cell index * 9 + direction.
    let post: Vec<u64> = (0..54u64).collect();
    g.step(post.clone());
    let ex = [0i64, 1, 0, -1, 0, 1, -1, -1, 1];
    let ey = [0i64, 0, 1, 0, -1, 1, 1, -1, -1];
    for y in 0..2i64 {
        for x in 0..3i64 {
            for q in 0..9usize {
                let sx = (x - ex[q]).rem_euclid(3);
                let sy = (y - ey[q]).rem_euclid(2);
                let dst = ((y * 3 + x) * 9) as usize + q;
                assert_eq!(g.f[dst], ((sy * 3 + sx) * 9) as u64 + q as u64);
            }
        }
    }
    assert_eq!(g.f_tmp, post);
    // The rest direction stays put.
    assert_eq!(g.f[0], 0);
    // East-moving value of cell (0, 0) came from the last column.
    assert_eq!(g.f[1], 2 * 9 + 1);
}

#[test]
fn lbm_streaming_permutes_values() {
    let c = PyLbmConfig::new(4, 3, b(0.1));
    let mut g = PyLbmGrid::new(&c, b(1.0));
    let post: Vec<u64> = (0..108u64).map(|v| v * 7 % 109).collect();
    g.step(post.clone());
    let mut before = post.clone();
    let mut after = g.f.clone();
    before.sort();
    after.sort();
    assert_eq!(before, after);
}

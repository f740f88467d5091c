use oxiphysics::sph::{neighbour_lists, DfsphFactorTable, DfsphState};

fn b(x: f64) -> u64 {
    x.to_bits()
}

#[test]
fn dfsph_state_add_particles() {
    let mut st = DfsphState::new(b(0.1), b(1000.0), b(0.001));
    assert_eq!(st.n_particles(), 0);
    st.add_particle([b(0.0), b(0.0), b(0.0)], b(1.0));
    st.add_particle([b(0.1), b(0.0), b(0.0)], b(2.0));
    assert_eq!(st.n_particles(), 2);
    assert_eq!(st.velocities[1], [b(0.0); 3]);
    assert_eq!(st.masses, vec![b(1.0), b(2.0)]);
    assert_eq!(st.densities.len(), 2);
    assert_eq!(st.alphas, vec![b(0.0); 2]);
}

#[test]
fn factor_table_lookup() {
    let t = DfsphFactorTable { alphas: vec![b(0.5), b(0.25)], rho0: b(1000.0), h: b(0.1) };
    assert_eq!(t.len(), 2);
    assert!(!t.is_empty());
    assert_eq!(t.get(1), b(0.25));
    assert_eq!(t.get(5), b(0.0));
    let e = DfsphFactorTable { alphas: vec![], rho0: b(1.0), h: b(1.0) };
    assert!(e.is_empty());
}

#[test]
fn neighbour_lists_exclude_self_and_keep_order() {
    let within = vec![
        vec![true, true, false, true],
        vec![true, true, true, false],
        vec![false, false, true, false],
        vec![true, true, true, true],
    ];
    let lists = neighbour_lists(&within);
    assert_eq!(lists, vec![vec![1, 3], vec![0, 2], vec![], vec![0, 1, 2]]);
    assert!(neighbour_lists(&vec![]).is_empty());
}

#[test]
fn test_n_particles_count() {
    let mut state = DfsphState::new(b(0.1), b(1000.0), b(0.001));
    assert_eq!(state.n_particles(), 0);
    state.add_particle([b(0.0); 3], b(1.0));
    state.add_particle([b(0.1), b(0.0), b(0.0)], b(1.0));
    assert_eq!(state.n_particles(), 2);
}

/// Gradient magnitude of the cubic spline kernel at distance `dist`.
fn cubic_grad_w(dist: f64, h: f64) -> f64 {
    let sigma = 1.0 / (std::f64::consts::PI * h * h * h);
    let q = dist / h;
    if !(1e-14..2.0).contains(&q) {
        0.0
    } else if q >= 1.0 {
        sigma * (-0.75 * (2.0 - q) * (2.0 - q)) / h
    } else {
        sigma * (-3.0 * q + 2.25 * q * q) / h
    }
}

/// The factor table of a particle configuration: neighbours within `2h`
/// (listed by the library), then `alpha_i = rho_i^2 / (|sum g|^2 + sum |g|^2)`
/// over the neighbours' mass-weighted kernel gradients `g`.
fn factor_table(pos: &[[f64; 3]], mass: &[f64], den: &[f64], h: f64, rho0: f64) -> DfsphFactorTable {
    let dist = |a: [f64; 3], c: [f64; 3]| ((a[0] - c[0]).powi(2) + (a[1] - c[1]).powi(2) + (a[2] - c[2]).powi(2)).sqrt();
    let within: Vec<Vec<bool>> = pos.iter().map(|p| pos.iter().map(|q| dist(*p, *q) < 2.0 * h).collect()).collect();
    let lists = neighbour_lists(&within);
    let mut alphas = Vec::new();
    for i in 0..pos.len() {
        let (mut sum, mut sum_sq) = ([0.0_f64; 3], 0.0_f64);
        for &j in &lists[i] {
            let d = dist(pos[i], pos[j]);
            if d < 1e-14 {
                continue;
            }
            let s = mass[j] * cubic_grad_w(d, h) / d;
            let g = [(pos[i][0] - pos[j][0]) * s, (pos[i][1] - pos[j][1]) * s, (pos[i][2] - pos[j][2]) * s];
            for k in 0..3 {
                sum[k] += g[k];
            }
            sum_sq += g[0] * g[0] + g[1] * g[1] + g[2] * g[2];
        }
        let denom = sum[0] * sum[0] + sum[1] * sum[1] + sum[2] * sum[2] + sum_sq;
        let a = if denom > 1e-28 { den[i] * den[i] / denom } else { 0.0 };
        alphas.push(b(a));
    }
    DfsphFactorTable { alphas, rho0: b(rho0), h: b(h) }
}

#[test]
fn test_factor_table_get_in_bounds() {
    let h = 0.1;
    let pos = vec![[0.0_f64; 3], [0.05, 0.0, 0.0]];
    let mass = vec![0.001_f64; 2];
    let den = vec![1000.0_f64; 2];
    let table = factor_table(&pos, &mass, &den, h, 1000.0);
    let a = f64::from_bits(table.get(0));
    assert!(a.is_finite());
    // Out-of-bounds returns 0
    assert_eq!(f64::from_bits(table.get(100)), 0.0);
}

use oxiphysics::md::{
    AtomSet, AtomTypeDesc, NoseHooverThermostat, PyMdAtom, PyMdConfig, PyMdSimulation, PyNvtSimulation,
};

fn b(x: f64) -> u64 {
    x.to_bits()
}

fn v3(v: [f64; 3]) -> [u64; 3] {
    [b(v[0]), b(v[1]), b(v[2])]
}

fn default_sim() -> PyMdSimulation {
    PyMdSimulation::new(PyMdConfig::default())
}

#[test]
fn test_md_creation_empty() {
    let sim = default_sim();
    assert_eq!(sim.atom_count(), 0);
    assert!(f64::from_bits(sim.time()).abs() < 1e-15);
    assert_eq!(sim.step_count(), 0);
}

#[test]
fn test_md_add_atom() {
    let mut sim = default_sim();
    let idx = sim.add_atom(v3([1.0, 2.0, 3.0]), 0);
    assert_eq!(idx, 0);
    assert_eq!(sim.atom_count(), 1);
    let pos = sim.position(0).unwrap();
    assert!((f64::from_bits(pos[0]) - 1.0).abs() < 1e-12);
    assert!((f64::from_bits(pos[1]) - 2.0).abs() < 1e-12);
    assert!((f64::from_bits(pos[2]) - 3.0).abs() < 1e-12);
}

#[test]
fn test_md_add_multiple_atoms() {
    let mut sim = default_sim();
    sim.add_atom(v3([0.0, 0.0, 0.0]), 0);
    sim.add_atom(v3([1.0, 0.0, 0.0]), 1);
    sim.add_atom(v3([2.0, 0.0, 0.0]), 0);
    assert_eq!(sim.atom_count(), 3);
}

#[test]
fn test_md_set_velocity() {
    let mut sim = default_sim();
    sim.add_atom(v3([0.0; 3]), 0);
    sim.set_velocity(0, v3([1.0, 2.0, 3.0]));
    let vel = sim.velocity(0).unwrap();
    assert!((f64::from_bits(vel[0]) - 1.0).abs() < 1e-12);
    assert!((f64::from_bits(vel[1]) - 2.0).abs() < 1e-12);
}

#[test]
fn test_md_thermostat_toggle() {
    let mut sim = default_sim();
    sim.set_thermostat(false);
    assert!(!sim.thermostat_active());
    sim.set_thermostat(true);
    assert!(sim.thermostat_active());
}

#[test]
fn test_md_all_positions_length() {
    let mut sim = default_sim();
    sim.add_atom(v3([1.0, 0.0, 0.0]), 0);
    sim.add_atom(v3([2.0, 0.0, 0.0]), 0);
    assert_eq!(sim.all_positions().len(), 6);
}

#[test]
fn test_md_all_velocities_length() {
    let mut sim = default_sim();
    sim.add_atom(v3([0.0; 3]), 0);
    sim.add_atom(v3([1.0, 0.0, 0.0]), 0);
    assert_eq!(sim.all_velocities().len(), 6);
}

#[test]
fn test_md_config_argon_defaults() {
    let cfg = PyMdConfig::argon_reduced();
    assert!((f64::from_bits(cfg.lj_sigma) - 1.0).abs() < 1e-12);
    assert!((f64::from_bits(cfg.lj_epsilon) - 1.0).abs() < 1e-12);
    assert!((f64::from_bits(cfg.cutoff) - 2.5).abs() < 1e-12);
}

#[test]
fn test_md_set_target_temperature() {
    let mut sim = default_sim();
    sim.set_target_temperature(b(2.0));
    assert!(sim.config.target_temperature.is_some());
    assert!((f64::from_bits(sim.config.target_temperature.unwrap()) - 2.0).abs() < 1e-12);
}

#[test]
fn md_target_temperature_clamped_at_zero() {
    let mut sim = default_sim();
    sim.set_target_temperature(b(-3.0));
    assert_eq!(sim.config.target_temperature, Some(b(0.0)));
    sim.set_target_temperature(b(f64::NAN));
    assert_eq!(sim.config.target_temperature, Some(b(0.0)));
    sim.set_target_temperature(b(f64::INFINITY));
    assert_eq!(sim.config.target_temperature, Some(b(f64::INFINITY)));
    assert_eq!(sim.config.target_temperature.map(|t| f64::from_bits(t)), Some((f64::INFINITY).max(0.0)));
}

#[test]
fn md_out_of_range_atoms() {
    let mut sim = default_sim();
    sim.add_atom(v3([1.0, 1.0, 1.0]), 2);
    sim.set_velocity(5, v3([9.0; 3]));
    assert_eq!(sim.velocity(0), Some(v3([0.0; 3])));
    assert_eq!(sim.position(1), None);
    assert_eq!(sim.velocity(1), None);
}

#[test]
fn md_flat_positions_and_velocities_order() {
    let mut sim = default_sim();
    sim.add_atom(v3([1.0, 2.0, 3.0]), 0);
    sim.add_atom(v3([4.0, 5.0, 6.0]), 0);
    sim.set_velocity(1, v3([7.0, 8.0, 9.0]));
    let p: Vec<f64> = sim.all_positions().into_iter().map(f64::from_bits).collect();
    assert_eq!(p, vec![1.0, 2.0, 3.0, 4.0, 5.0, 6.0]);
    let v: Vec<f64> = sim.all_velocities().into_iter().map(f64::from_bits).collect();
    assert_eq!(v, vec![0.0, 0.0, 0.0, 7.0, 8.0, 9.0]);
}

#[test]
fn md_finish_step_counts() {
    let mut sim = default_sim();
    sim.finish_step(b(0.01));
    sim.finish_step(b(0.02));
    assert_eq!(sim.step_count(), 2);
    assert_eq!(sim.time(), b(0.02));
    let a = PyMdAtom::new(v3([1.0, 0.0, 0.0]), 4);
    assert_eq!(a.force, v3([0.0; 3]));
    assert_eq!(a.atom_type, 4);
}

#[test]
fn test_atom_type_desc_argon() {
    let at = AtomTypeDesc::argon();
    assert_eq!(at.name, "Ar");
    assert!((f64::from_bits(at.mass) - 1.0).abs() < 1e-12);
    assert!(f64::from_bits(at.charge).abs() < 1e-12);
}

#[test]
fn test_atom_type_desc_ions() {
    let na = AtomTypeDesc::sodium_ion();
    let cl = AtomTypeDesc::chloride_ion();
    assert!((f64::from_bits(na.charge) - 1.0).abs() < 1e-12);
    assert!((f64::from_bits(cl.charge) + 1.0).abs() < 1e-12);
    assert_eq!(f64::from_bits(na.mass), 22.99);
    assert_eq!(f64::from_bits(cl.lj_sigma), 4.40);
}

#[test]
fn test_atom_set_creation() {
    let mut set = AtomSet::new(b(10.0));
    let ti = set.register_type(AtomTypeDesc::argon());
    set.add_atom(v3([1.0, 2.0, 3.0]), ti);
    set.add_atom(v3([4.0, 5.0, 6.0]), ti);
    assert_eq!(set.len(), 2);
    assert!(!set.is_empty());
}

#[test]
fn test_atom_set_mass() {
    let mut set = AtomSet::new(b(10.0));
    let ti = set.register_type(AtomTypeDesc::argon());
    set.add_atom(v3([0.0; 3]), ti);
    assert!((f64::from_bits(set.mass(0)) - 1.0).abs() < 1e-12);
}

#[test]
fn test_atom_set_charge() {
    let mut set = AtomSet::new(b(10.0));
    let ti_na = set.register_type(AtomTypeDesc::sodium_ion());
    let ti_cl = set.register_type(AtomTypeDesc::chloride_ion());
    set.add_atom(v3([0.0; 3]), ti_na);
    set.add_atom(v3([5.0, 0.0, 0.0]), ti_cl);
    assert!((f64::from_bits(set.charge(0)) - 1.0).abs() < 1e-12);
    assert!((f64::from_bits(set.charge(1)) + 1.0).abs() < 1e-12);
}

#[test]
fn test_atom_set_positions_of_type() {
    let mut set = AtomSet::new(b(10.0));
    let ti_a = set.register_type(AtomTypeDesc::argon());
    let ti_b = set.register_type(AtomTypeDesc::sodium_ion());
    set.add_atom(v3([1.0, 0.0, 0.0]), ti_a);
    set.add_atom(v3([2.0, 0.0, 0.0]), ti_a);
    set.add_atom(v3([3.0, 0.0, 0.0]), ti_b);
    let pos_a = set.positions_of_type(ti_a);
    assert_eq!(pos_a.len(), 2);
    let pos_b = set.positions_of_type(ti_b);
    assert_eq!(pos_b.len(), 1);
}

#[test]
fn atom_set_unknown_atoms_and_types() {
    let mut set = AtomSet::new(b(10.0));
    assert!(set.is_empty());
    set.add_atom(v3([1.0, 0.0, 0.0]), 3);
    assert_eq!(set.mass(0), b(1.0));
    assert_eq!(set.charge(0), b(0.0));
    assert_eq!(set.mass(9), b(1.0));
    assert_eq!(set.velocities[0], v3([0.0; 3]));
    assert_eq!(set.positions_of_type(3), vec![v3([1.0, 0.0, 0.0])]);
    assert!(set.positions_of_type(0).is_empty());
}

#[test]
fn nvt_add_atom_counts_degrees_of_freedom() {
    let thermostat = NoseHooverThermostat {
        target_temperature: b(1.2),
        thermostat_mass: b(1.0),
        xi: b(0.0),
        eta: b(0.0),
        n_dof: 0,
    };
    let mut sim = PyNvtSimulation { md: PyMdSimulation::new(PyMdConfig::argon_reduced()), thermostat };
    sim.add_atom(v3([5.0, 5.0, 5.0]), 0);
    assert_eq!(sim.md.atom_count(), 1);
    assert_eq!(sim.thermostat.n_dof, 3);
    sim.add_atom(v3([6.0, 5.0, 5.0]), 0);
    assert_eq!(sim.thermostat.n_dof, 6);
    assert_eq!(sim.step_count(), 0);
}

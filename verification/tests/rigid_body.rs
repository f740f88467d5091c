use oxiphysics::body::{BodyType, RigidBody, SolverConfig};

fn b(x: f64) -> u64 {
    x.to_bits()
}

#[test]
fn rigid_body_is_static() {
    assert!(RigidBody::new(BodyType::Static, b(0.0)).is_static());
    assert!(!RigidBody::new(BodyType::Dynamic, b(1.0)).is_static());
    assert!(!RigidBody::new(BodyType::Kinematic, b(1.0)).is_static());
}

#[test]
fn rigid_body_kinematic_target_cleared() {
    let mut body = RigidBody::new(BodyType::Kinematic, b(2.0));
    body.set_kinematic_target([b(1.0), b(2.0), b(3.0)]);
    assert_eq!(body.kinematic_target, Some([b(1.0), b(2.0), b(3.0)]));
    body.clear_kinematic_target();
    assert_eq!(body.kinematic_target, None);
    assert_eq!(body.mass, b(2.0));
}

#[test]
fn rigid_body_accumulated_force() {
    let mut body = RigidBody::new(BodyType::Dynamic, b(1.0));
    assert_eq!(body.accumulated_force(), [b(0.0); 3]);
    body.force_accumulator = [b(1.0), b(0.0), b(-1.0)];
    assert_eq!(body.accumulated_force(), [b(1.0), b(0.0), b(-1.0)]);
}

#[test]
fn solver_config_default() {
    let c = SolverConfig::default();
    assert_eq!(c.velocity_iterations, 8);
    assert_eq!(c.position_iterations, 3);
    assert_eq!(c.baumgarte_factor, b(0.2));
    assert_eq!(c.restitution_threshold, b(1.0));
}

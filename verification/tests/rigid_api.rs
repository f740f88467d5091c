use oxiphysics::rigid::{
    PyBatchForce, PyBodyFilter, PyCollider, PyJointSet, PyJointType, PyPhysicsPipeline, PyRigidBody,
    PyRigidBodySet, PySleepManager, PyWorld, WakeReason, PyIslandStats,
};

fn b(x: f64) -> u64 {
    x.to_bits()
}

fn v3(v: [f64; 3]) -> [u64; 3] {
    [b(v[0]), b(v[1]), b(v[2])]
}

/// A dynamic body with the default inertia: one
/// tenth of the mass on every axis.
fn body(id: u32, mass: f64, pos: [f64; 3]) -> PyRigidBody {
    PyRigidBody::new(id, b(mass), b(mass * 0.1), v3(pos))
}

// --- PyRigidBody ---

#[test]
fn test_rigid_body_new() {
    let bd = body(1, 5.0, [0.0, 10.0, 0.0]);
    assert_eq!(bd.mass, b(5.0));
    assert_eq!(bd.position, v3([0.0, 10.0, 0.0]));
    assert!(!bd.sleeping);
    assert!(!bd.is_static);
}

#[test]
fn test_rigid_body_kinematic() {
    let bd = PyRigidBody::new_kinematic(3, b(2.0), b(0.2), v3([0.0; 3]));
    assert!(bd.is_kinematic);
    assert!(!bd.is_static);
}

#[test]
fn rigid_body_fresh_state() {
    let bd = body(7, 2.0, [1.0, 2.0, 3.0]);
    assert_eq!(bd.id, 7);
    assert_eq!(bd.inertia, [b(0.2); 3]);
    assert_eq!(bd.orientation, [b(0.0), b(0.0), b(0.0), b(1.0)]);
    assert_eq!(bd.velocity, v3([0.0; 3]));
    assert_eq!(bd.linear_damping, b(0.01));
    let st = PyRigidBody::new_static(2, v3([1.0, 0.0, 0.0]));
    assert!(st.is_static);
    assert_eq!(st.mass, b(0.0));
    assert!(!st.accepts_force());
    assert!(!st.is_integrated());
    assert!(bd.accepts_force());
    assert!(bd.is_integrated());
}

#[test]
fn rigid_body_clear_forces() {
    let mut bd = body(1, 1.0, [0.0; 3]);
    bd.accumulated_force = v3([1.0, 2.0, 3.0]);
    bd.accumulated_torque = v3([4.0, 5.0, 6.0]);
    bd.clear_forces();
    assert_eq!(bd.accumulated_force, v3([0.0; 3]));
    assert_eq!(bd.accumulated_torque, v3([0.0; 3]));
}

// --- PyRigidBodySet ---

#[test]
fn test_body_set_add_remove() {
    let mut set = PyRigidBodySet::new();
    let id = set.add(body(0, 1.0, [0.0; 3]));
    assert_eq!(set.len(), 1);
    assert!(set.remove(id));
    assert_eq!(set.len(), 0);
}

#[test]
fn test_body_set_get() {
    let mut set = PyRigidBodySet::new();
    let id = set.add(body(0, 5.0, [1.0, 2.0, 3.0]));
    let bd = set.get(id).unwrap();
    assert_eq!(bd.mass, b(5.0));
}

#[test]
fn test_body_set_is_empty() {
    let set = PyRigidBodySet::new();
    assert!(set.is_empty());
}

#[test]
fn body_set_handles_and_slot_reuse() {
    let mut set = PyRigidBodySet::new();
    let a = set.add(body(0, 1.0, [0.0; 3]));
    let c = set.add(body(0, 2.0, [1.0, 0.0, 0.0]));
    assert_eq!((a, c), (0, 1));
    assert_eq!(set.get(c).unwrap().id, 1);
    assert!(set.remove(a));
    assert!(!set.remove(a));
    assert!(set.get(a).is_none());
    let d = set.add(body(0, 3.0, [0.0; 3]));
    assert_eq!(d, 2);
    assert_eq!(set.get(d).unwrap().mass, b(3.0));
    assert_eq!(set.len(), 2);
    assert_eq!(set.get_position(c), Some(v3([1.0, 0.0, 0.0])));
    assert_eq!(set.get_velocity(99), None);
    assert_eq!(set.iter().len(), 2);
}

#[test]
fn body_set_sleeping_and_awake_partition() {
    let mut set = PyRigidBodySet::new();
    let a = set.add(body(0, 1.0, [0.0; 3]));
    set.add(body(0, 1.0, [0.0; 3]));
    set.add(body(0, 1.0, [0.0; 3]));
    set.get_mut(a).unwrap().sleeping = true;
    assert_eq!(set.sleeping_count(), 1);
    assert_eq!(set.awake_count(), 2);
    assert_eq!(set.sleeping_count() + set.awake_count(), set.len());
}

// --- PyCollider ---

#[test]
fn test_collider_sensor() {
    let c = PyCollider::sphere(0, 1, b(0.3)).as_sensor();
    assert!(c.is_sensor);
}

#[test]
fn collider_constructors_defaults() {
    let c = PyCollider::capsule(4, 2, b(1.0), b(0.5));
    assert_eq!(c.id, 4);
    assert_eq!(c.body_id, 2);
    assert!(!c.is_sensor);
    assert_eq!(c.friction, b(0.5));
}

// --- PyWorld ---

#[test]
fn world_creates_bodies_and_colliders() {
    let mut w = PyWorld::earth_gravity();
    assert_eq!(w.gravity, v3([0.0, -9.81, 0.0]));
    let id = w.create_body(b(1.0), b(0.1), v3([0.0, 10.0, 0.0]));
    let st = w.create_static_body(v3([0.0; 3]));
    assert!(w.bodies.get(st).unwrap().is_static);
    assert_eq!(w.bodies.get_position(id), Some(v3([0.0, 10.0, 0.0])));
    let cid = w.create_collider(PyCollider::sphere(0, id, b(1.0)));
    assert_eq!(cid, 0);
    assert_eq!(w.colliders.len(), 1);
    assert_eq!(w.colliders[0].id, 0);
    assert!(w.get_contacts().is_empty());
}

// --- PyJointSet ---

#[test]
fn test_joint_set_create_remove() {
    let mut js = PyJointSet::new();
    let id = js.create_joint(PyJointType::Hinge, 0, 1, v3([0.0; 3]), v3([0.0; 3]), None);
    assert_eq!(js.len(), 1);
    assert!(js.remove(id));
    assert_eq!(js.len(), 0);
}

#[test]
fn test_joint_set_motor() {
    let mut js = PyJointSet::new();
    let id = js.create_joint(PyJointType::Hinge, 0, 1, v3([0.0; 3]), v3([0.0; 3]), None);
    assert!(js.set_motor(id, b(5.0), b(100.0)));
    let j = js.get(id).unwrap();
    assert!(j.motor_enabled);
    assert_eq!(j.motor_speed, b(5.0));
}

#[test]
fn joint_set_unknown_handles() {
    let mut js = PyJointSet::new();
    assert!(js.is_empty());
    assert!(!js.set_motor(3, b(1.0), b(1.0)));
    assert!(!js.remove(3));
    assert!(js.get_forces(3).is_none());
    let id = js.create_joint(PyJointType::Ball, 2, 5, v3([1.0, 0.0, 0.0]), v3([0.0; 3]), None);
    let (f, t) = js.get_forces(id).unwrap();
    assert_eq!(f, v3([0.0; 3]));
    assert_eq!(t, v3([0.0; 3]));
    js.get_mut(id).unwrap().disable_motor();
    assert!(!js.get(id).unwrap().motor_enabled);
}

// --- PyPhysicsPipeline ---

#[test]
fn test_pipeline_max_iterations() {
    let mut pipe = PyPhysicsPipeline::new();
    pipe.set_max_iterations(5);
    assert_eq!(pipe.config.max_iterations, 5);
}

#[test]
fn pipeline_counts_steps() {
    let mut pipe = PyPhysicsPipeline::new();
    assert_eq!(pipe.step_count, 0);
    pipe.finish_step();
    pipe.finish_step();
    assert_eq!(pipe.step_count, 2);
    assert_eq!(pipe.world().bodies.len(), 0);
}

// --- PyBodyFilter ---

#[test]
fn test_body_filter_all() {
    let f = PyBodyFilter::all();
    let static_b = PyRigidBody::new_static(1, v3([0.0; 3]));
    assert!(f.matches(&static_b));
    let dyn_b = body(2, 1.0, [0.0; 3]);
    assert!(f.matches(&dyn_b));
}

#[test]
fn test_body_filter_active_only() {
    let f = PyBodyFilter::active_dynamic();
    let mut bd = body(1, 1.0, [0.0; 3]);
    bd.sleeping = false;
    assert!(f.matches(&bd));
    bd.sleeping = true;
    assert!(!f.matches(&bd));
}

#[test]
fn body_filter_by_type_keeps_order() {
    let mut set = PyRigidBodySet::new();
    set.add(body(0, 1.0, [0.0; 3]));
    set.add(PyRigidBody::new_static(0, v3([0.0; 3])));
    set.add(body(0, 2.0, [0.0; 3]));
    let f = PyBodyFilter::active_dynamic();
    let picked = f.filter_by_type(&set);
    assert_eq!(picked.len(), 2);
    assert_eq!(picked[0].id, 0);
    assert_eq!(picked[1].id, 2);
    assert_eq!(PyBodyFilter::all().filter_by_type(&set).len(), 3);
}

// --- PyBatchForce ---

#[test]
fn test_batch_force_invalid() {
    let batch = PyBatchForce::new(vec![0, 1], vec![v3([1.0, 0.0, 0.0])]);
    assert!(!batch.is_valid());
}

#[test]
fn batch_force_valid_with_torques() {
    let batch = PyBatchForce::new(vec![0, 1], vec![v3([1.0, 0.0, 0.0]), v3([0.0; 3])])
        .with_torques(vec![v3([0.0; 3])]);
    assert!(batch.is_valid());
    assert_eq!(batch.torques.map(|t| t.len()), Some(1));
}

// --- PySleepManager ---

#[test]
fn test_sleep_manager_wake() {
    let mut mgr = PySleepManager::new();
    let mut set = PyRigidBodySet::new();
    let id = set.add(body(0, 1.0, [0.0; 3]));
    let bd = set.get_mut(id).unwrap();
    bd.sleeping = true;
    mgr.wake_body(bd, WakeReason::Script, b(0.0));
    assert!(!bd.sleeping);
    assert_eq!(mgr.events.len(), 1);
}

#[test]
fn test_sleep_manager_sleep() {
    let mut mgr = PySleepManager::new();
    let mut set = PyRigidBodySet::new();
    let id = set.add(body(0, 1.0, [0.0; 3]));
    let bd = set.get_mut(id).unwrap();
    bd.velocity = v3([10.0, 0.0, 0.0]);
    mgr.sleep_body(bd);
    assert!(bd.sleeping);
    assert_eq!(bd.velocity, v3([0.0; 3]));
}

#[test]
fn sleep_manager_awake_body_no_event_and_drain() {
    let mut mgr = PySleepManager::new();
    let mut bd = body(4, 1.0, [0.0; 3]);
    mgr.wake_body(&mut bd, WakeReason::Contact, b(1.0));
    assert!(mgr.events.is_empty());
    bd.sleeping = true;
    mgr.wake_body(&mut bd, WakeReason::Contact, b(2.0));
    let ev = mgr.drain_events();
    assert_eq!(ev.len(), 1);
    assert_eq!(ev[0].body_id, 4);
    assert_eq!(ev[0].time, b(2.0));
    assert!(mgr.events.is_empty());
}

#[test]
fn collider_pairs_skip_same_body() {
    let mut w = PyWorld::earth_gravity();
    let a = w.create_body(b(1.0), b(0.1), v3([0.0; 3]));
    let c = w.create_body(b(1.0), b(0.1), v3([1.0, 0.0, 0.0]));
    w.create_collider(PyCollider::sphere(0, a, b(1.0)));
    w.create_collider(PyCollider::sphere(0, a, b(0.5)));
    w.create_collider(PyCollider::sphere(0, c, b(1.0)));
    assert_eq!(w.collider_pairs(), vec![(0, 2), (1, 2)]);
}

#[test]
fn sleep_timers_set_read_clear() {
    let mut m = PySleepManager::new();
    assert_eq!(m.timer_of(3), None);
    m.set_timer(3, b(0.5));
    m.set_timer(4, b(0.25));
    assert_eq!(m.timer_of(3), Some(b(0.5)));
    m.set_timer(3, b(1.0));
    assert_eq!(m.timer_of(3), Some(b(1.0)));
    assert_eq!(m.sleep_timers.len(), 2);
    m.clear_timer(3);
    assert_eq!(m.timer_of(3), None);
    assert_eq!(m.timer_of(4), Some(b(0.25)));
}

#[test]
fn test_island_stats_new() {
    let s = PyIslandStats::new(0, 5, 4);
    assert_eq!(s.body_count, 5);
    // A fresh island has no energy and no sleep time yet, so it cannot
    // sleep at energy threshold 0.1 after 1.0 s.
    let (energy, timer) = (f64::from_bits(s.energy), f64::from_bits(s.sleep_timer));
    assert!(!(energy < 0.1 && timer >= 1.0));
}

#[test]
fn sleep_manager_update_body_branches() {
    let mut mgr = PySleepManager::new();
    let mut a = body(7, 1.0, [0.0; 3]);
    // Slow without a timer: the timer starts at the step, no sleep yet.
    assert!(!mgr.update_body(&mut a, true, b(0.1), true));
    assert_eq!(mgr.timer_of(7), Some(b(0.1)));
    assert!(!a.sleeping);
    // Slow with a timer that has not reached the sleep time.
    assert!(!mgr.update_body(&mut a, true, b(0.2), false));
    assert_eq!(mgr.timer_of(7), Some(b(0.2)));
    assert!(!a.sleeping);
    // Slow with a timer that reached it: the body falls asleep.
    assert!(mgr.update_body(&mut a, true, b(0.3), true));
    assert!(a.sleeping);
    assert_eq!(mgr.timer_of(7), Some(b(0.3)));
    // Already asleep: not put to sleep again.
    assert!(!mgr.update_body(&mut a, true, b(0.4), true));
    // Fast: the timer is cleared.
    assert!(!mgr.update_body(&mut a, false, b(0.5), true));
    assert_eq!(mgr.timer_of(7), None);
    // A static body is left alone.
    let mut s = body(8, 1.0, [0.0; 3]);
    s.is_static = true;
    mgr.set_timer(8, b(1.0));
    assert!(!mgr.update_body(&mut s, false, b(0.0), true));
    assert_eq!(mgr.timer_of(8), Some(b(1.0)));
    assert!(mgr.events.is_empty());
}

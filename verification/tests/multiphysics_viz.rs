use oxiphysics::multiphysics::{
    DomainConvergence, FieldLineMethod, MultiphysicsConvergenceDashboard, MultiphysicsTimeline,
    PhysicsTimeSeries, SyncPolicy,
};

fn b(x: f64) -> u64 {
    x.to_bits()
}

#[test]
fn test_dashboard_iteration_limit() {
    let mut dash = MultiphysicsConvergenceDashboard::new(10);
    for _ in 0..10 {
        dash.next_iteration();
    }
    assert!(dash.iteration_limit_reached());
}

#[test]
fn dashboard_all_converged_needs_every_domain() {
    let mut dash = MultiphysicsConvergenceDashboard::new(100);
    assert!(!dash.all_converged(&[]));
    dash.add_domain(DomainConvergence::new("thermal", b(1e-6)));
    dash.add_domain(DomainConvergence::new("mechanical", b(1e-6)));
    assert!(dash.all_converged(&[true, true]));
    assert!(!dash.all_converged(&[true, false]));
    assert!(!dash.should_stop(&[false, true]));
    assert!(dash.should_stop(&[true, true]));
}

#[test]
fn dashboard_stops_at_limit_even_unconverged() {
    let mut dash = MultiphysicsConvergenceDashboard::new(2);
    dash.add_domain(DomainConvergence::new("fluid", b(1e-6)));
    dash.next_iteration();
    assert!(!dash.should_stop(&[false]));
    dash.next_iteration();
    assert!(dash.should_stop(&[false]));
    dash.next_iteration();
    assert!(dash.should_stop(&[false]));
    assert_eq!(dash.iteration, 3);
}

#[test]
fn domain_convergence_residual_history() {
    let mut d = DomainConvergence::new("x", b(1e-8));
    assert_eq!(d.last_residual(), None);
    assert_eq!(d.last_two_residuals(), None);
    d.push(b(1.0));
    assert_eq!(d.last_two_residuals(), None);
    d.push(b(0.1));
    assert_eq!(d.last_residual(), Some(b(0.1)));
    assert_eq!(d.last_two_residuals(), Some((b(1.0), b(0.1))));
    assert_eq!(d.name, "x");
}

#[test]
fn timeline_domains_and_series() {
    let mut tl = MultiphysicsTimeline::new(SyncPolicy::Fixed(b(0.1)));
    let mut s1 = PhysicsTimeSeries::new("thermal");
    s1.push(b(0.0), b(0.0));
    s1.push(b(1.0), b(1.0));
    assert_eq!(s1.len(), 2);
    tl.add_domain(s1);
    tl.add_domain(PhysicsTimeSeries::new("fluid"));
    assert_eq!(tl.domains.len(), 2);
    assert_eq!(tl.domains[0].times, vec![b(0.0), b(1.0)]);
    assert!(matches!(tl.policy, SyncPolicy::Fixed(dt) if dt == b(0.1)));
    assert_ne!(FieldLineMethod::Euler, FieldLineMethod::Rk4);
}

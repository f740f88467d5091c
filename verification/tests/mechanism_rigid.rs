use oxiphysics::mechanism::{
    advance_sample_index, build_6dof_arm, build_planar_rr, build_planar_rrr, build_rpr, build_scara,
    gruebler_planar, kutzbach_spatial, DHParam, Joint, JointType, ParallelChain, SerialChain,
};

fn b(x: f64) -> u64 {
    x.to_bits()
}

fn bits(v: &[f64]) -> Vec<u64> {
    v.iter().map(|x| x.to_bits()).collect()
}

#[test]
fn test_serial_chain_dof() {
    let chain = build_planar_rrr(b(1.0), b(1.0), b(1.0));
    assert_eq!(chain.dof(), 3);
}

#[test]
fn test_serial_chain_set_get_q() {
    let mut chain = build_planar_rr(b(1.0), b(1.0));
    chain.set_q(&bits(&[0.5, 1.0]));
    let q = chain.get_q();
    assert_eq!(q.len(), 2);
    assert_eq!(q[0], b(0.5));
    assert_eq!(q[1], b(1.0));
}

#[test]
fn test_gruebler_four_bar() {
    // 4-bar: 4 links, 4 full joints → F = 3*(4-1) - 2*4 = 9 - 8 = 1
    let f = gruebler_planar(4, 4, 0);
    assert_eq!(f, 1);
}

#[test]
fn test_kutzbach_spatial_6dof() {
    // 7 links, 6 revolute joints (each 1 DOF)
    // F = 6*(7-1) - 6*5 = 36 - 30 = 6
    let f = kutzbach_spatial(7, &[1, 1, 1, 1, 1, 1]);
    assert_eq!(f, 6);
}

#[test]
fn test_build_scara() {
    let scara = build_scara(b(1.0), b(1.0), (b(0.0), b(0.5)));
    assert_eq!(scara.dof(), 4);
}

#[test]
fn build_6dof_arm_dof() {
    let arm = build_6dof_arm(b(0.5), b(1.0), b(0.5), b(0.5), b(0.0), b(0.1));
    assert_eq!(arm.dof(), 6);
    assert_eq!(arm.joints[0].dh.d, b(0.5));
    assert_eq!(arm.joints[0].dh.alpha, b(std::f64::consts::PI / 2.0));
    assert_eq!(arm.joints[3].dh.alpha, b(-std::f64::consts::PI / 2.0));
    assert_eq!(arm.joints[5].q_min, b(-std::f64::consts::PI));
}

#[test]
fn build_rpr_has_prismatic_middle() {
    let c = build_rpr((b(0.1), b(0.9)));
    assert_eq!(c.num_joints(), 3);
    assert_eq!(c.joints[1].joint_type, JointType::Prismatic);
    assert_eq!(c.joints[1].q_max, b(0.9));
}

#[test]
fn gruebler_and_kutzbach_edges() {
    // A single link with nothing attached is immobile; a locked triangle of
    // three links and three pins has mobility zero; negative mobility is
    // reported for over-constrained structures.
    assert_eq!(gruebler_planar(1, 0, 0), 0);
    assert_eq!(gruebler_planar(3, 3, 0), 0);
    assert_eq!(gruebler_planar(2, 3, 1), -4);
    assert_eq!(gruebler_planar(0, 0, 0), -3);
    assert_eq!(kutzbach_spatial(2, &[6]), 6);
    assert_eq!(kutzbach_spatial(1, &[]), 0);
    assert_eq!(kutzbach_spatial(3, &[3, 3, 3]), 3);
}

#[test]
fn joint_constructors_and_dof() {
    let j = Joint::revolute(DHParam::new(b(0.0), b(0.0), b(1.0), b(0.0)), b(-1.0), b(1.0));
    assert_eq!(j.num_dof(), 1);
    assert_eq!(j.lower_limit, b(-1.0));
    assert_eq!(j.q, b(0.0));
    let f = Joint::new_fixed(2, 3);
    assert_eq!(f.num_dof(), 0);
    assert_eq!((f.parent_body, f.child_body), (2, 3));
    assert_eq!(Joint::new_prismatic(0, 1, b(0.0), b(2.0)).joint_type, JointType::Prismatic);
}

#[test]
fn joint_variables_skip_fixed_joints() {
    let dh = DHParam::new(b(0.0), b(0.0), b(1.0), b(0.0));
    let mut chain = SerialChain::new(vec![
        Joint::revolute(dh, b(-1.0), b(1.0)),
        Joint::fixed(dh),
        Joint::prismatic(dh, b(0.0), b(1.0)),
    ]);
    assert_eq!(chain.dof(), 2);
    chain.set_q(&bits(&[0.25, 0.75, 9.0]));
    assert_eq!(chain.get_q(), bits(&[0.25, 0.75]));
    assert_eq!(chain.joints[1].q, b(0.0));
    chain.set_dq(&bits(&[2.0]));
    assert_eq!(chain.get_dq(), bits(&[2.0, 0.0]));
    chain.set_ddq(&bits(&[3.0, 4.0]));
    assert_eq!(chain.joints[2].ddq, b(4.0));
}

#[test]
fn parallel_chain_counts() {
    let leg1 = build_planar_rr(b(1.0), b(1.0));
    let leg2 = build_planar_rrr(b(1.0), b(1.0), b(1.0));
    let pc = ParallelChain::new(vec![leg1, leg2], vec![[b(0.0); 3], [b(0.5), b(0.0), b(0.0)]]);
    assert_eq!(pc.num_legs(), 2);
    assert_eq!(pc.total_dof(), 5);
}

#[test]
fn workspace_odometer_visits_all_samples() {
    let mut idx = vec![0usize, 0];
    let mut seen = vec![idx.clone()];
    loop {
        if advance_sample_index(&mut idx, 3) {
            break;
        }
        seen.push(idx.clone());
    }
    assert_eq!(seen.len(), 9);
    assert_eq!(seen[1], vec![0, 1]);
    assert_eq!(seen[3], vec![1, 0]);
    assert_eq!(idx, vec![0, 0]);
    let mut empty: Vec<usize> = vec![];
    assert!(advance_sample_index(&mut empty, 4));
}

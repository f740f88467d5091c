use oxiphysics::viz::{
    ColormapKind, DebugPrimitive, PyColormap, PyDebugOverlay, PyLight, PyMaterial, PyParticleRenderer,
    PyPostProcessor, PySceneGraph, PyTransferFunction, PyVolumeRenderer, RayMarchSettings, ToneMapping,
};

fn b(x: f64) -> u64 {
    x.to_bits()
}

fn bits(v: &[f64]) -> Vec<u64> {
    v.iter().map(|x| x.to_bits()).collect()
}

#[test]
fn test_particle_renderer_count() {
    let pos = bits(&[0.0, 0.0, 0.0, 1.0, 0.0, 0.0]);
    let pr = PyParticleRenderer::new(pos);
    assert_eq!(pr.particle_count(), 2);
}

#[test]
fn particle_renderer_defaults_and_radius() {
    let mut pr = PyParticleRenderer::new(bits(&[0.0, 0.0, 0.0, 1.0, 0.0, 0.0, 2.0]));
    assert_eq!(pr.particle_count(), 2);
    assert_eq!(pr.radii, vec![b(0.05); 2]);
    assert_eq!(pr.colors, bits(&[0.8, 0.4, 0.1, 1.0, 0.8, 0.4, 0.1, 1.0]));
    assert!(pr.billboard && pr.use_instancing);
    pr.set_uniform_radius(b(0.2));
    assert_eq!(pr.radii, vec![b(0.2); 2]);
}

#[test]
fn test_volume_renderer_sample() {
    let data = bits(&[1.0, 2.0, 3.0, 4.0, 5.0, 6.0, 7.0, 8.0]);
    let tf = PyTransferFunction::simple([b(0.0); 4], [b(1.0); 4]);
    let vr = PyVolumeRenderer::new(data, [2, 2, 2], [b(0.0), b(0.0), b(0.0), b(1.0), b(1.0), b(1.0)], tf);
    assert_eq!(vr.sample_at(0, 0, 0), b(1.0));
    assert_eq!(vr.sample_at(1, 1, 1), b(8.0));
    assert_eq!(vr.voxel_count(), 8);
}

#[test]
fn volume_renderer_out_of_data_is_zero() {
    let tf = PyTransferFunction::simple([b(0.0); 4], [b(1.0); 4]);
    let vr = PyVolumeRenderer::new(bits(&[1.0, 2.0]), [2, 2, 2], [b(0.0); 6], tf);
    assert_eq!(vr.sample_at(1, 0, 0), b(2.0));
    assert_eq!(vr.sample_at(0, 1, 0), b(0.0));
    assert_eq!(vr.ray_march.max_steps, RayMarchSettings::default().max_steps);
}

#[test]
fn transfer_function_simple_points() {
    let tf = PyTransferFunction::simple([b(0.0), b(0.0), b(1.0), b(1.0)], [b(1.0), b(0.0), b(0.0), b(1.0)]);
    assert_eq!(tf.control_points.len(), 2);
    assert_eq!(tf.control_points[0].scalar, b(0.0));
    assert_eq!(tf.control_points[1].scalar, b(1.0));
    assert_eq!(tf.control_points[1].color, [b(1.0), b(0.0), b(0.0), b(1.0)]);
}

#[test]
fn colormap_constructors() {
    let cm = PyColormap::new(ColormapKind::Hot, b(-1.0), b(1.0));
    assert_eq!(cm.kind, ColormapKind::Hot);
    assert_eq!(cm.vmin, b(-1.0));
    assert_eq!(PyColormap::viridis().kind, ColormapKind::Viridis);
    assert_eq!(PyColormap::jet().vmax, b(1.0));
}

#[test]
fn material_presets() {
    assert_eq!(PyMaterial::red().base_color, [b(1.0), b(0.0), b(0.0), b(1.0)]);
    assert_eq!(PyMaterial::new([b(0.5); 4]).base_color, [b(0.5); 4]);
}

#[test]
fn test_scene_graph_add_node() {
    let mut sg = PySceneGraph::new();
    let id = sg.add_node("root");
    assert_eq!(id, 0);
    assert_eq!(sg.node_count(), 1);
}

#[test]
fn test_scene_graph_visibility() {
    let mut sg = PySceneGraph::new();
    let id = sg.add_node("node");
    sg.set_visible(id, false);
    assert_eq!(sg.traverse_visible().len(), 0);
    sg.set_visible(id, true);
    assert_eq!(sg.traverse_visible().len(), 1);
}

#[test]
fn scene_graph_traversal_order_and_lights() {
    let mut sg = PySceneGraph::new();
    let a = sg.add_node("a");
    let c = sg.add_node("b");
    let d = sg.add_node("c");
    sg.set_visible(c, false);
    assert_eq!(sg.traverse_visible(), vec![a, d]);
    sg.set_translation(d, [b(1.0), b(2.0), b(3.0)]);
    sg.set_visible(99, false);
    assert_eq!(sg.node_count(), 3);
    sg.add_light(PyLight::point([b(0.0); 3], [b(1.0); 3], b(2.0)));
    assert_eq!(sg.lights.len(), 1);
}

#[test]
fn test_post_processor_passthrough() {
    let pp = PyPostProcessor::passthrough();
    assert_eq!(pp.tone_mapping, ToneMapping::Linear);
    assert!(pp.ssao.is_none());
}

#[test]
fn post_processor_default_aces() {
    let pp = PyPostProcessor::new();
    assert_eq!(pp.tone_mapping, ToneMapping::Aces);
    assert_eq!(pp.gamma, b(2.2));
    assert!(pp.ssao.is_some() && pp.bloom.is_some());
}

#[test]
fn test_debug_overlay_draw() {
    let mut ov = PyDebugOverlay::new();
    ov.draw_sphere([b(0.0); 3], b(1.0), None);
    ov.draw_box([b(0.0); 3], [b(1.0); 3], None);
    ov.draw_arrow([b(0.0); 3], [b(1.0), b(0.0), b(0.0)], None, b(0.05));
    ov.draw_text_3d([b(0.0); 3], "hello", None, b(0.1));
    ov.draw_contact_point([b(0.0); 3], [b(0.0), b(1.0), b(0.0)], b(0.01), None);
    assert_eq!(ov.count(), 5);
    ov.clear();
    assert_eq!(ov.count(), 0);
}

#[test]
fn debug_overlay_default_colors() {
    let mut ov = PyDebugOverlay::new();
    ov.draw_sphere([b(0.0); 3], b(1.0), Some([b(0.5); 4]));
    ov.draw_text_3d([b(0.0); 3], "x", None, b(0.1));
    match &ov.primitives[0] {
        DebugPrimitive::Sphere { color, .. } => assert_eq!(*color, [b(0.5); 4]),
        _ => panic!("expected a sphere"),
    }
    match &ov.primitives[1] {
        DebugPrimitive::Text3D { text, .. } => assert_eq!(text, "x"),
        _ => panic!("expected a text label"),
    }
}

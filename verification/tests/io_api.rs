use oxiphysics::io::{
    register_io_module, PyCsvReader, PyCsvWriter, PyHdf5Writer, PyLammpsReader, PyTrajectoryWriter,
    PyVtkWriter, PyXyzReader, PyXyzWriter,
};

fn b(x: f64) -> u64 {
    x.to_bits()
}

fn bits(v: &[f64]) -> Vec<u64> {
    v.iter().map(|x| x.to_bits()).collect()
}

fn text(v: &[f64]) -> Vec<String> {
    v.iter().map(|x| format!("{}", x)).collect()
}

// --- PyVtkWriter ---

#[test]
fn test_vtk_new() {
    let w = PyVtkWriter::new("out.vtk");
    assert_eq!(w.filename, "out.vtk");
    assert_eq!(w.n_point_arrays(), 0);
}

#[test]
fn test_vtk_add_point_data() {
    let mut w = PyVtkWriter::default();
    w.add_point_data("pressure", bits(&[1.0, 2.0, 3.0]));
    assert_eq!(w.n_point_arrays(), 1);
}

#[test]
fn test_vtk_add_cell_data() {
    let mut w = PyVtkWriter::default();
    w.add_cell_data("stress", bits(&[10.0, 20.0]));
    assert_eq!(w.n_cell_arrays(), 1);
}

#[test]
fn test_vtk_write_ascii_contains_header() {
    let w = PyVtkWriter::new("test.vtk");
    let s = w.write_ascii();
    assert!(s.contains("vtk DataFile"));
}

#[test]
fn test_vtk_write_ascii_contains_point_data_name() {
    let mut w = PyVtkWriter::new("test.vtk");
    w.add_point_data("velocity", bits(&[1.0, 2.0]));
    let s = w.write_ascii();
    assert!(s.contains("velocity"));
}

#[test]
fn test_vtk_write_binary_size_grows() {
    let mut w = PyVtkWriter::new("test.vtk");
    let s0 = w.write_binary();
    w.add_point_data("p", bits(&[1.0; 100]));
    let s1 = w.write_binary();
    assert!(s1 > s0);
}

#[test]
fn test_vtk_default() {
    let w = PyVtkWriter::default();
    assert!(w.filename.ends_with(".vtk"));
}

#[test]
fn vtk_binary_size_exact() {
    let mut w = PyVtkWriter::new("a.vtk");
    assert_eq!(w.write_binary(), 5 + 64);
    w.add_point_data("p", bits(&[1.0, 2.0]));
    w.add_cell_data("c", bits(&[3.0]));
    assert_eq!(w.write_binary(), 5 + 64 + 16 + 8);
}

// --- PyCsvReader ---

#[test]
fn test_csv_reader_new() {
    let r = PyCsvReader::new("data.csv");
    assert_eq!(r.filename, "data.csv");
    assert_eq!(r.n_rows(), 0);
}

#[test]
fn test_csv_reader_load_and_read_column() {
    let mut r = PyCsvReader::default();
    r.load_data(
        vec!["x".to_string(), "y".to_string()],
        vec![bits(&[1.0, 2.0]), bits(&[3.0, 4.0])],
    );
    let col0 = r.read_column(0);
    assert_eq!(col0, bits(&[1.0, 3.0]));
}

#[test]
fn test_csv_reader_read_all_f64() {
    let mut r = PyCsvReader::default();
    r.load_data(vec![], vec![bits(&[1.0, 2.0]), bits(&[3.0, 4.0])]);
    let all = r.read_all_f64();
    assert_eq!(all.len(), 4);
}

#[test]
fn test_csv_reader_header_names() {
    let mut r = PyCsvReader::default();
    r.load_data(vec!["a".to_string(), "b".to_string()], vec![]);
    assert_eq!(r.header_names().len(), 2);
}

#[test]
fn test_csv_reader_n_cols() {
    let mut r = PyCsvReader::default();
    r.load_data(vec![], vec![bits(&[1.0, 2.0, 3.0])]);
    assert_eq!(r.n_cols(), 3);
}

#[test]
fn test_csv_reader_empty_n_cols_zero() {
    let r = PyCsvReader::default();
    assert_eq!(r.n_cols(), 0);
}

#[test]
fn csv_reader_ragged_column_skips_short_rows() {
    let mut r = PyCsvReader::default();
    r.load_data(vec![], vec![bits(&[1.0, 2.0]), bits(&[3.0]), bits(&[5.0, 6.0])]);
    assert_eq!(r.read_column(1), bits(&[2.0, 6.0]));
    assert_eq!(r.read_all_f64(), bits(&[1.0, 2.0, 3.0, 5.0, 6.0]));
}

// --- PyCsvWriter ---

#[test]
fn test_csv_writer_new() {
    let w = PyCsvWriter::new("out.csv");
    assert_eq!(w.filename, "out.csv");
    assert_eq!(w.buffered_rows(), 0);
}

#[test]
fn test_csv_writer_write_row() {
    let mut w = PyCsvWriter::default();
    w.write_row(text(&[1.0, 2.0, 3.0]));
    assert_eq!(w.buffered_rows(), 1);
}

#[test]
fn test_csv_writer_flush_clears_buffer() {
    let mut w = PyCsvWriter::default();
    w.write_row(text(&[1.0]));
    w.flush();
    assert_eq!(w.buffered_rows(), 0);
}

#[test]
fn test_csv_writer_flush_returns_csv() {
    let mut w = PyCsvWriter::default();
    w.write_row(text(&[1.0, 2.0]));
    let s = w.flush();
    assert!(s.contains("1") && s.contains("2"));
}

#[test]
fn test_csv_writer_default() {
    let w = PyCsvWriter::default();
    assert!(w.filename.ends_with(".csv"));
}

#[test]
fn csv_writer_flush_exact_layout() {
    let mut w = PyCsvWriter::default();
    w.write_row(text(&[1.0, 2.5]));
    w.write_row(text(&[-3.0]));
    assert_eq!(w.flush(), "1,2.5\n-3");
    assert_eq!(w.flush(), "");
}

// --- PyXyzReader ---

#[test]
fn test_xyz_reader_new() {
    let r = PyXyzReader::new("mol.xyz");
    assert_eq!(r.filename, "mol.xyz");
    assert_eq!(r.n_atoms(), 0);
}

#[test]
fn test_xyz_reader_load_and_n_atoms() {
    let mut r = PyXyzReader::default();
    r.load_data(
        vec!["C".to_string(), "H".to_string()],
        bits(&[0.0, 0.0, 0.0, 1.0, 0.0, 0.0]),
    );
    assert_eq!(r.n_atoms(), 2);
}

#[test]
fn test_xyz_reader_positions() {
    let mut r = PyXyzReader::default();
    r.load_data(vec!["O".to_string()], bits(&[1.0, 2.0, 3.0]));
    assert_eq!(r.positions(), &bits(&[1.0, 2.0, 3.0])[..]);
}

#[test]
fn test_xyz_reader_species() {
    let mut r = PyXyzReader::default();
    r.load_data(vec!["N".to_string()], bits(&[0.0, 0.0, 0.0]));
    assert_eq!(r.species()[0], "N");
}

#[test]
fn test_xyz_reader_position_of() {
    let mut r = PyXyzReader::default();
    r.load_data(
        vec!["C".to_string(), "H".to_string()],
        bits(&[1.0, 2.0, 3.0, 4.0, 5.0, 6.0]),
    );
    let p = r.position_of(0).unwrap();
    assert_eq!(p, [b(1.0), b(2.0), b(3.0)]);
}

#[test]
fn test_xyz_reader_default() {
    let r = PyXyzReader::default();
    assert!(r.filename.ends_with(".xyz"));
}

#[test]
fn xyz_reader_position_of_out_of_range() {
    let mut r = PyXyzReader::default();
    r.load_data(vec!["C".to_string(), "H".to_string()], bits(&[1.0, 2.0, 3.0, 4.0]));
    assert_eq!(r.position_of(1), None);
    assert_eq!(r.position_of(7), None);
}

// --- PyXyzWriter ---

#[test]
fn test_xyz_writer_new() {
    let w = PyXyzWriter::new("out.xyz");
    assert_eq!(w.filename, "out.xyz");
    assert_eq!(w.n_frames(), 0);
}

#[test]
fn test_xyz_writer_write_frame_increments_count() {
    let mut w = PyXyzWriter::default();
    w.write_frame(&text(&[0.0, 0.0, 0.0]), &["C".to_string()], "frame 0");
    assert_eq!(w.n_frames(), 1);
}

#[test]
fn test_xyz_writer_as_string_contains_n_atoms() {
    let mut w = PyXyzWriter::default();
    w.write_frame(&text(&[0.0, 0.0, 0.0]), &["C".to_string()], "test");
    assert!(w.as_string().contains('1'));
}

#[test]
fn test_xyz_writer_multiple_frames() {
    let mut w = PyXyzWriter::default();
    for _ in 0..5 {
        w.write_frame(&text(&[0.0, 0.0, 0.0]), &["H".to_string()], "");
    }
    assert_eq!(w.n_frames(), 5);
}

#[test]
fn test_xyz_writer_default() {
    let w = PyXyzWriter::default();
    assert!(w.filename.ends_with(".xyz"));
}

#[test]
fn xyz_writer_exact_frame_and_missing_coordinates() {
    let mut w = PyXyzWriter::default();
    w.write_frame(&text(&[1.5, 2.0, -3.0]), &["O".to_string(), "H".to_string()], "water");
    assert_eq!(w.as_string(), "2\nwater\nO 1.5 2 -3\nH 0 0 0\n");
    w.write_frame(&text(&[]), &[], "empty");
    assert_eq!(w.as_string(), "2\nwater\nO 1.5 2 -3\nH 0 0 0\n0\nempty\n");
}

// --- PyLammpsReader ---

#[test]
fn test_lammps_reader_new() {
    let r = PyLammpsReader::new("dump.lammps");
    assert_eq!(r.n_atoms(), 0);
}

#[test]
fn test_lammps_reader_load_and_n_atoms() {
    let mut r = PyLammpsReader::default();
    r.load_data(vec![bits(&[1.0, 1.0, 0.0, 0.5, 0.5])], [[b(0.0), b(1.0)]; 3]);
    assert_eq!(r.n_atoms(), 1);
}

#[test]
fn test_lammps_reader_box_bounds() {
    let mut r = PyLammpsReader::default();
    r.load_data(vec![], [[b(-5.0), b(5.0)], [b(-5.0), b(5.0)], [b(-5.0), b(5.0)]]);
    let bb = r.box_bounds();
    assert_eq!(bb[0], [b(-5.0), b(5.0)]);
}

#[test]
fn test_lammps_reader_read_atoms() {
    let mut r = PyLammpsReader::default();
    let atom = bits(&[1.0, 1.0, 0.1, 0.2, 0.3]);
    r.load_data(vec![atom.clone()], [[b(0.0), b(1.0)]; 3]);
    assert_eq!(r.read_atoms()[0], atom);
}

#[test]
fn test_lammps_reader_default() {
    let r = PyLammpsReader::default();
    assert!(!r.filename.is_empty());
}

// --- PyHdf5Writer ---

#[test]
fn test_hdf5_writer_new() {
    let w = PyHdf5Writer::new("out.h5");
    assert_eq!(w.filename, "out.h5");
    assert_eq!(w.n_datasets(), 0);
}

#[test]
fn test_hdf5_writer_write_dataset() {
    let mut w = PyHdf5Writer::default();
    w.write_dataset("pressure", bits(&[1.0, 2.0, 3.0]));
    assert_eq!(w.n_datasets(), 1);
}

#[test]
fn test_hdf5_writer_write_attribute() {
    let mut w = PyHdf5Writer::default();
    w.write_attribute("timestep", b(0.001));
    assert_eq!(w.n_attributes(), 1);
}

#[test]
fn test_hdf5_writer_get_dataset() {
    let mut w = PyHdf5Writer::default();
    w.write_dataset("vel", bits(&[1.0, 2.0]));
    let d = w.get_dataset("vel").unwrap();
    assert_eq!(d.len(), 2);
}

#[test]
fn test_hdf5_writer_get_attribute() {
    let mut w = PyHdf5Writer::default();
    w.write_attribute("dt", b(1e-4));
    let v = f64::from_bits(w.get_attribute("dt").unwrap());
    assert!((v - 1e-4).abs() < 1e-12);
}

#[test]
fn test_hdf5_writer_missing_dataset_none() {
    let w = PyHdf5Writer::default();
    assert!(w.get_dataset("missing").is_none());
}

#[test]
fn test_hdf5_writer_default() {
    let w = PyHdf5Writer::default();
    assert!(w.filename.ends_with(".h5"));
}

#[test]
fn hdf5_read_after_write_and_first_write_wins() {
    let mut w = PyHdf5Writer::default();
    w.write_dataset("a", bits(&[1.0]));
    w.write_dataset("a", bits(&[2.0, 3.0]));
    w.write_attribute("t", b(1.0));
    w.write_attribute("t", b(2.0));
    assert_eq!(w.n_datasets(), 2);
    assert_eq!(w.get_dataset("a").unwrap(), &bits(&[1.0]));
    assert_eq!(w.get_attribute("t"), Some(b(1.0)));
    assert_eq!(w.get_attribute("missing"), None);
}

// --- PyTrajectoryWriter ---

#[test]
fn test_trajectory_writer_new() {
    let w = PyTrajectoryWriter::new("traj.xyz", "xyz");
    assert_eq!(w.format, "xyz");
    assert_eq!(w.n_frames(), 0);
}

#[test]
fn test_trajectory_writer_write_frame() {
    let mut w = PyTrajectoryWriter::default();
    w.write_frame(&[0.0, 0.0, 0.0], &[0.0, 0.0, 0.0], 0);
    assert_eq!(w.n_frames(), 1);
}

#[test]
fn test_trajectory_writer_close() {
    let mut w = PyTrajectoryWriter::default();
    w.close();
    assert!(w.is_closed());
}

#[test]
fn test_trajectory_writer_no_write_after_close() {
    let mut w = PyTrajectoryWriter::default();
    w.close();
    w.write_frame(&[0.0], &[], 1);
    assert_eq!(w.n_frames(), 0);
}

#[test]
fn test_trajectory_writer_as_string_contains_step() {
    let mut w = PyTrajectoryWriter::default();
    w.write_frame(&[1.0, 2.0, 3.0], &[0.1, 0.2, 0.3], 42);
    assert!(w.as_string().contains("42"));
}

#[test]
fn test_trajectory_writer_multiple_frames() {
    let mut w = PyTrajectoryWriter::new("t.lammps", "lammps");
    for i in 0..10_u64 {
        w.write_frame(&[0.0], &[0.0], i);
    }
    assert_eq!(w.n_frames(), 10);
}

#[test]
fn test_trajectory_writer_default() {
    let w = PyTrajectoryWriter::default();
    assert!(!w.format.is_empty());
}

#[test]
fn trajectory_writer_exact_frame_text() {
    let mut w = PyTrajectoryWriter::new("t.dump", "lammps");
    w.write_frame(&[1.0, 2.0, 3.0, 4.0], &[0.5, 0.5], 1207);
    assert_eq!(w.as_string(), "FRAME step=1207 n_pos=4 n_vel=2 fmt=lammps\n");
}

#[test]
fn trajectory_writer_stays_closed_through_calls() {
    let mut w = PyTrajectoryWriter::new("t.xyz", "xyz");
    assert!(!w.is_closed());
    w.write_frame(&[0.0, 0.0, 0.0], &[], 1);
    assert!(!w.is_closed());
    let _ = w.as_string();
    assert!(!w.is_closed());
    w.close();
    assert!(w.is_closed());
    w.write_frame(&[1.0, 1.0, 1.0], &[], 2);
    assert!(w.is_closed());
    assert_eq!(w.n_frames(), 1);
    w.close();
    assert!(w.is_closed());
    assert_eq!(w.as_string(), "FRAME step=1 n_pos=3 n_vel=0 fmt=xyz\n");
}

// --- register_io_module ---

#[test]
fn test_register_io_module_no_panic() {
    register_io_module("io");
}

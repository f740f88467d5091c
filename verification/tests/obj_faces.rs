use oxiphysics::geometry::mesh_to_obj_string;
use oxiphysics::obj::{face_indices_of, face_line_numbers, face_triangles, read_obj_records, RecordKind};

#[test]
fn face_numbers_plain() {
    assert_eq!(face_line_numbers("1 2 3"), vec![1, 2, 3]);
    assert_eq!(face_line_numbers("  10\t20   30  "), vec![10, 20, 30]);
}

#[test]
fn face_numbers_with_references() {
    assert_eq!(face_line_numbers("1/4/7 2/5/8 3/6/9"), vec![1, 2, 3]);
    assert_eq!(face_line_numbers("4//1 5//1 6//1"), vec![4, 5, 6]);
}

#[test]
fn face_numbers_skip_unreadable_tokens() {
    assert_eq!(face_line_numbers("1 x 2 -3 3"), vec![1, 2, 3]);
    assert_eq!(face_line_numbers("/1 2"), vec![2]);
    assert_eq!(face_line_numbers("+ +7 ++8"), vec![7]);
    assert!(face_line_numbers("").is_empty());
    assert!(face_line_numbers("   ").is_empty());
}

#[test]
fn face_numbers_overflow_is_skipped() {
    assert_eq!(face_line_numbers("99999999999999999999999 5"), vec![5]);
    let max = usize::MAX.to_string();
    assert_eq!(face_line_numbers(&max), vec![usize::MAX]);
}

#[test]
fn face_numbers_unicode_whitespace() {
    assert_eq!(face_line_numbers("1\u{3000}2\u{a0}3"), vec![1, 2, 3]);
}

#[test]
fn face_triangles_fan() {
    assert_eq!(face_triangles(&[1, 2, 3]), vec![0, 1, 2]);
    assert_eq!(face_triangles(&[1, 2, 3, 4]), vec![0, 1, 2, 0, 2, 3]);
    assert!(face_triangles(&[5, 6]).is_empty());
}

#[test]
fn obj_face_lines_read_back() {
    let indices = vec![0, 1, 2, 2, 1, 3, 7, 8, 9];
    let text = mesh_to_obj_string(&[], &[], &indices);
    let mut read = Vec::new();
    for line in text.lines() {
        if let Some(body) = line.trim().strip_prefix("f ") {
            read.extend(face_triangles(&face_line_numbers(body)));
        }
    }
    assert_eq!(read, indices);
}

fn records(text: &str) -> Vec<(RecordKind, String)> {
    read_obj_records(text).into_iter().map(|(k, b)| (k, b.into_iter().collect())).collect()
}

#[test]
fn obj_records_classify_trimmed_lines() {
    let text = "# comment\n  v 1 2 3  \r\nvn 0 0 1\nf 1 2 3\n\nvt 0 0\nf  4 5 6\nv";
    assert_eq!(
        records(text),
        vec![
            (RecordKind::Vertex, "1 2 3".to_string()),
            (RecordKind::Face, "1 2 3".to_string()),
            (RecordKind::Face, " 4 5 6".to_string()),
        ]
    );
    assert!(records("").is_empty());
    assert!(records("\n\n").is_empty());
    assert_eq!(records("f 7 8 9"), vec![(RecordKind::Face, "7 8 9".to_string())]);
    assert_eq!(records("v\t1 2 3\nf\t1 2 3"), vec![]);
}

#[test]
fn obj_text_read_back_whole() {
    let vt = vec![
        ["0".to_string(), "0".to_string(), "0".to_string()],
        ["1".to_string(), "0".to_string(), "0".to_string()],
        ["0".to_string(), "1.5".to_string(), "0".to_string()],
    ];
    let text = mesh_to_obj_string(&vt, &[], &[0, 1, 2, 2, 1, 0]);
    let recs = records(&text);
    assert_eq!(recs.len(), 5);
    assert_eq!(recs[2], (RecordKind::Vertex, "0 1.5 0".to_string()));
    let mut faces = Vec::new();
    for (k, body) in recs {
        if k == RecordKind::Face {
            faces.extend(face_triangles(&face_line_numbers(&body)));
        }
    }
    assert_eq!(faces, vec![0, 1, 2, 2, 1, 0]);
}

#[test]
fn face_indices_of_all_faces_in_order() {
    let text = "v 0 0 0\nv 1 0 0\nv 1 1 0\nv 0 1 0\nf 1 2 3 4\n# note\nf 4/1 3/2 1/3\n";
    let records = read_obj_records(text);
    assert_eq!(face_indices_of(&records), vec![0, 1, 2, 0, 2, 3, 3, 2, 0]);
    let no_faces = read_obj_records("v 1 2 3\n");
    assert!(face_indices_of(&no_faces).is_empty());
}

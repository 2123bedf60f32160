use gilgamesh::checkpoint::{
    array2_to_vec, check_version, code_limit, looks_like_checkpoint, push_candidate_if_new,
    select_latest_checkpoint, vec_to_array2, weight_code, CheckpointError, MatrixError,
    CHECKPOINT_VERSION,
};
use gilgamesh::layers::{inhibitory_magnitude, max_magnitude};

#[test]
fn version_check() {
    assert_eq!(CHECKPOINT_VERSION, 1);
    assert_eq!(check_version(0), Ok(()));
    assert_eq!(check_version(1), Ok(()));
    assert_eq!(
        check_version(2),
        Err(CheckpointError::NewerVersion { found: 2, supported: 1 })
    );
}

#[test]
fn matrix_from_rows() {
    let rows = vec![vec![1.0f32, 2.0, 3.0], vec![4.0, 5.0, 6.0]];
    let m = match vec_to_array2(&rows) {
        Ok(m) => m,
        Err(_) => panic!("rows are consistent"),
    };
    assert_eq!((m.rows, m.cols), (2, 3));
    assert_eq!(m.data, vec![1.0, 2.0, 3.0, 4.0, 5.0, 6.0]);
    // roundtrip: the serialized rows are identical
    assert_eq!(array2_to_vec(&m), rows);
}

#[test]
fn matrix_errors() {
    let empty: Vec<Vec<f32>> = vec![];
    assert!(matches!(vec_to_array2(&empty), Err(MatrixError::Empty)));
    let ragged = vec![vec![1i8, 2], vec![3]];
    assert!(matches!(vec_to_array2(&ragged), Err(MatrixError::InconsistentRows)));
    let zero_cols: Vec<Vec<i8>> = vec![vec![], vec![]];
    match vec_to_array2(&zero_cols) {
        Ok(m) => assert_eq!((m.rows, m.cols, m.data.len()), (2, 0, 0)),
        Err(_) => panic!("empty rows of equal length form a matrix"),
    }
}

#[test]
fn magnitude_limits() {
    assert_eq!(max_magnitude(0), 0);
    assert_eq!(max_magnitude(3), 7);
    assert_eq!(max_magnitude(8), 255);
    assert_eq!(max_magnitude(30), (1i32 << 30) - 1);
    assert_eq!(code_limit(0), 0);
    assert_eq!(code_limit(3), 7);
    assert_eq!(code_limit(7), 127);
    assert_eq!(code_limit(8), 127);
}

#[test]
fn weight_codes_are_clamped_and_signed() {
    assert_eq!(weight_code(5, false, 7), 5);
    assert_eq!(weight_code(9, false, 7), 7);
    assert_eq!(weight_code(-3, false, 7), 0);
    assert_eq!(weight_code(5, true, 7), -5);
    assert_eq!(weight_code(12, true, 7), -7);
    assert_eq!(weight_code(0, true, 7), 0);
}

#[test]
fn broken_inhibitory_lsb_forces_even_magnitudes() {
    assert_eq!(inhibitory_magnitude(7, true), 6);
    assert_eq!(inhibitory_magnitude(6, true), 6);
    assert_eq!(inhibitory_magnitude(1, true), 0);
    assert_eq!(inhibitory_magnitude(7, false), 7);
}

#[test]
fn checkpoint_text_detection() {
    assert!(looks_like_checkpoint("{\"version\":1,\"architecture\":{},\"weights\":{}}"));
    assert!(!looks_like_checkpoint("{\"architecture\":{}}"));
    assert!(!looks_like_checkpoint("{\"weights\":{}}"));
    assert!(!looks_like_checkpoint("architecture weights"));
    assert!(!looks_like_checkpoint(""));
}

#[test]
fn candidates_are_deduplicated_by_path() {
    let mut c: Vec<(String, u128)> = Vec::new();
    push_candidate_if_new(&mut c, "a.json".to_string(), 5);
    push_candidate_if_new(&mut c, "b.json".to_string(), 7);
    push_candidate_if_new(&mut c, "a.json".to_string(), 9);
    assert_eq!(c, vec![("a.json".to_string(), 5), ("b.json".to_string(), 7)]);
}

#[test]
fn latest_checkpoint_is_most_recent_first_listed() {
    assert_eq!(select_latest_checkpoint(&vec![]), None);
    let c = vec![
        ("old.json".to_string(), 10u128),
        ("new.json".to_string(), 30),
        ("tie.json".to_string(), 30),
        ("mid.json".to_string(), 20),
    ];
    assert_eq!(select_latest_checkpoint(&c), Some("new.json".to_string()));
}

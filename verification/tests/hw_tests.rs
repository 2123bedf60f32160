use gilgamesh::bench::{max_duration, min_duration};
use gilgamesh::evaluate::{find_image_dimensions, DimensionError};
use gilgamesh::hw_forward::{
    apply_output_mask, count_correct, predicted_class, splitmix_unit_bits, synapse_code,
    OUTPUT_NEURONS, SPLITMIX_GAMMA,
};

#[test]
fn splitmix_stream_from_seed_zero() {
    let mut state = 0u64;
    assert_eq!(splitmix_unit_bits(&mut state), 0xe220a8397b1dcdaf >> 11);
    assert_eq!(state, SPLITMIX_GAMMA);
    assert_eq!(splitmix_unit_bits(&mut state), 3886858653415212);
    assert_eq!(state, SPLITMIX_GAMMA.wrapping_mul(2));
}

#[test]
fn synapse_codes_with_missing_entries() {
    let fc2 = vec![vec![1i8, -2, 3], vec![7]];
    assert_eq!(synapse_code(&fc2, 0, 1), -2);
    assert_eq!(synapse_code(&fc2, 1, 0), 7);
    assert_eq!(synapse_code(&fc2, 1, 2), 0);
    assert_eq!(synapse_code(&fc2, 5, 0), 0);
}

#[test]
fn output_mask_zeroes_named_outputs() {
    let mut counts: Vec<f32> = (1..=10).map(|v| v as f32).collect();
    apply_output_mask(&mut counts, &vec![1, 9, 42], 0.0);
    assert_eq!(counts, vec![1.0, 0.0, 3.0, 4.0, 5.0, 6.0, 7.0, 8.0, 9.0, 0.0]);
    assert_eq!(counts.len(), OUTPUT_NEURONS);
}

#[test]
fn prediction_takes_last_maximum() {
    assert_eq!(predicted_class(&vec![]), 0);
    assert_eq!(predicted_class(&vec![3, 5, 1]), 1);
    assert_eq!(predicted_class(&vec![5, 1, 5, 2]), 2);
    // no spikes at all: the last output wins
    assert_eq!(predicted_class(&vec![0; 10]), 9);
}

#[test]
fn masked_output_predicted_only_without_spikes_example() {
    let mut counts = vec![0u32, 4, 0, 0, 0, 0, 0, 0, 0, 3];
    apply_output_mask(&mut counts, &vec![1, 9], 0);
    assert_eq!(predicted_class(&counts), 9);
    let mut counts2 = vec![0u32, 4, 0, 1, 0, 0, 0, 0, 0, 3];
    apply_output_mask(&mut counts2, &vec![1, 9], 0);
    assert_eq!(predicted_class(&counts2), 3);
}

#[test]
fn accuracy_counts() {
    assert_eq!(count_correct(&vec![1, 2, 3], &vec![1, 0, 3, 9]), 2);
    assert_eq!(count_correct(&vec![], &vec![]), 0);
}

#[test]
fn image_dimensions() {
    assert_eq!(find_image_dimensions(36), Ok((6, 6)));
    assert_eq!(find_image_dimensions(49), Ok((7, 7)));
    assert_eq!(find_image_dimensions(196), Ok((14, 14)));
    assert_eq!(find_image_dimensions(16), Ok((4, 4)));
    assert_eq!(find_image_dimensions(24), Ok((4, 6)));
    assert_eq!(find_image_dimensions(60), Ok((5, 12)));
    assert_eq!(find_image_dimensions(200), Err(DimensionError { input_size: 200 }));
    assert_eq!(find_image_dimensions(0), Err(DimensionError { input_size: 0 }));
    assert_eq!(find_image_dimensions(15), Err(DimensionError { input_size: 15 }));
}

#[test]
fn duration_extremes() {
    assert_eq!(min_duration(&vec![]), 0);
    assert_eq!(max_duration(&vec![]), 0);
    assert_eq!(min_duration(&vec![30, 10, 20]), 10);
    assert_eq!(max_duration(&vec![30, 10, 20]), 30);
}

use gilgamesh::data::{InputEncoder, InputEncodingKind};
use gilgamesh::layers::{inhibitory_magnitude, max_magnitude, LayerShape, NetworkShape};
use gilgamesh::raster::collect_events;

#[test]
fn layer_parameters_with_and_without_bias() {
    let with_bias = LayerShape { in_features: 36, out_features: 12, has_bias: true };
    let without = LayerShape { in_features: 12, out_features: 10, has_bias: false };
    assert_eq!(with_bias.num_parameters(), 36 * 12 + 12);
    assert_eq!(without.num_parameters(), 120);
    let net = NetworkShape { fc1: with_bias, fc2: without };
    assert_eq!(net.num_parameters(), 444 + 120);
}

#[test]
fn empty_layer_has_only_bias() {
    let l = LayerShape { in_features: 0, out_features: 5, has_bias: true };
    assert_eq!(l.num_parameters(), 5);
}

#[test]
fn encoder_output_width() {
    let rate = InputEncoder { kind: InputEncodingKind::RateCoded, image_size: 6 };
    let temporal = InputEncoder { kind: InputEncodingKind::Temporal, image_size: 6 };
    assert_eq!(rate.output_dim(), 36);
    assert_eq!(temporal.output_dim(), 6);
    assert!(!rate.is_temporal());
    assert!(temporal.is_temporal());
}

#[test]
fn raster_events_ordered_by_step_then_neuron() {
    let history = vec![
        vec![false, true, true],
        vec![false, false, false],
        vec![true, false, true],
    ];
    assert_eq!(collect_events(&history, 3), vec![[0, 1], [0, 2], [2, 0], [2, 2]]);
}

#[test]
fn raster_ignores_neurons_past_the_count() {
    let history = vec![vec![true, true, true], vec![false, true, true]];
    assert_eq!(collect_events(&history, 1), vec![[0, 0]]);
    assert_eq!(collect_events(&history, 0), Vec::<[usize; 2]>::new());
    assert_eq!(collect_events(&Vec::new(), 4), Vec::<[usize; 2]>::new());
}

#[test]
fn test_parameter_count() {
    let layer_with_bias = LayerShape { in_features: 10, out_features: 5, has_bias: true };
    assert_eq!(layer_with_bias.num_parameters(), 10 * 5 + 5);

    let layer_no_bias = LayerShape { in_features: 10, out_features: 5, has_bias: false };
    assert_eq!(layer_no_bias.num_parameters(), 10 * 5);
}

#[test]
fn test_network_parameter_count() {
    // FC1: 49*100 = 4900 (no bias), FC2: 100*10 = 1000 (no bias)
    let net = NetworkShape {
        fc1: LayerShape { in_features: 49, out_features: 100, has_bias: false },
        fc2: LayerShape { in_features: 100, out_features: 10, has_bias: false },
    };
    assert_eq!(net.num_parameters(), 5900);
}

#[test]
fn network_test_network_parameter_count() {
    // FC1: 49*100 + 100 = 5000, FC2: 100*10 + 10 = 1010
    let net = NetworkShape {
        fc1: LayerShape { in_features: 49, out_features: 100, has_bias: true },
        fc2: LayerShape { in_features: 100, out_features: 10, has_bias: true },
    };
    assert_eq!(net.num_parameters(), 6010);
}

// The snapping of one weight to the board's values with fixed scales, the
// real-valued steps written here around the library's integer decisions.
fn snap(w: f32, bits: u8, pos: f32, neg: f32, disable_lsb: bool) -> f32 {
    let max_mag = max_magnitude(bits) as f32;
    if w >= 0.0 {
        (w / pos).round().clamp(0.0, max_mag) * pos
    } else {
        let q = ((-w) / neg).round().clamp(0.0, max_mag) as i32;
        -(inhibitory_magnitude(q, disable_lsb) as f32 * neg)
    }
}

#[test]
fn test_quantize_weights_broken_inhibitory_lsb() {
    let weights = [-0.10f32, -0.20, -0.30, -0.70, 0.35];
    let quantized: Vec<f32> = weights.iter().map(|&w| snap(w, 3, 0.10, 0.10, true)).collect();

    // Negative magnitudes should be even-only: {0,2,4,6} for 3-bit.
    assert!((quantized[0] - 0.0).abs() < 1e-6); // 1 -> 0
    assert!((quantized[1] + 0.2).abs() < 1e-6); // 2 -> 2
    assert!((quantized[2] + 0.2).abs() < 1e-6); // 3 -> 2
    assert!((quantized[3] + 0.6).abs() < 1e-6); // 7 -> 6
    assert!((quantized[4] - 0.4).abs() < 1e-6); // positive path unchanged
}


use gilgamesh::config::{
    effective_num_steps, eval_quantization, EvalQuantization, NetworkConfig, QuantizationSettings,
    SavedQuantization, TrainingSettings,
};
use gilgamesh::evaluate::find_image_dimensions;

fn base() -> TrainingSettings {
    TrainingSettings {
        epochs: 15,
        batch_size: 128,
        num_steps: 25,
        seed: 42,
        quantize: false,
        quant_bits: 3,
        noise: false,
    }
}

#[test]
fn training_overrides_replace_given_values() {
    let mut t = base();
    t.apply_cli_overrides(Some(3), None, Some(50), Some(7), true, Some(4), false);
    assert_eq!(
        t,
        TrainingSettings {
            epochs: 3,
            batch_size: 128,
            num_steps: 50,
            seed: 7,
            quantize: true,
            quant_bits: 4,
            noise: false,
        }
    );
}

#[test]
fn absent_flags_leave_features_as_configured() {
    let mut t = base();
    t.quantize = true;
    t.noise = true;
    t.apply_cli_overrides(None, Some(64), None, None, false, None, false);
    assert!(t.quantize && t.noise);
    assert_eq!(t.batch_size, 64);
    assert_eq!(t.epochs, 15);
}

#[test]
fn saved_steps_apply_only_to_the_default() {
    assert_eq!(effective_num_steps(25, Some(40)), 40);
    assert_eq!(effective_num_steps(30, Some(40)), 30);
    assert_eq!(effective_num_steps(25, None), 25);
    assert_eq!(effective_num_steps(25, Some(25)), 25);
}

#[test]
fn config_quantization_overrides_checkpoint() {
    let start = EvalQuantization { quant_bits: None, split_sign: false, input_bits: 0 };
    let saved = SavedQuantization { quant_bits: Some(3), split_sign: Some(true), input_bits: None };
    let from_saved = eval_quantization(start, Some(saved), None);
    assert_eq!(from_saved, EvalQuantization { quant_bits: Some(3), split_sign: true, input_bits: 0 });

    let cfg = QuantizationSettings { enabled: false, bits: 5, split_sign: false, input_bits: 4 };
    let from_cfg = eval_quantization(start, Some(saved), Some(cfg));
    assert_eq!(from_cfg, EvalQuantization { quant_bits: None, split_sign: false, input_bits: 4 });

    let enabled = QuantizationSettings { enabled: true, ..cfg };
    assert_eq!(eval_quantization(start, None, Some(enabled)).quant_bits, Some(5));
    assert_eq!(eval_quantization(start, None, None), start);
}

#[test]
fn width_and_height_override_ignores_square_size() {
    let mut c = NetworkConfig::default();
    c.apply_cli_overrides(None, Some(usize::MAX), Some(4), Some(9));
    assert_eq!(c.input_size, 36);
    assert_eq!(c.image_size, 6);
    assert_eq!((c.image_width, c.image_height), (Some(4), Some(9)));
}

#[test]
fn image_dimensions_are_allowed_shapes() {
    for n in 0..300usize {
        match find_image_dimensions(n) {
            Ok((w, h)) => assert!((4..=14).contains(&w) && (4..=14).contains(&h) && w * h == n),
            Err(e) => {
                assert_eq!(e.input_size, n);
                assert!(!(4..=14usize).any(|w| (4..=14usize).any(|h| w * h == n)));
            }
        }
    }
}

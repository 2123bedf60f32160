use gilgamesh::config::{
    default_apply_during_training, default_batch_size, default_bits, default_encoding_type,
    default_epochs, default_hidden_size, default_image_size, default_input_size, default_mode,
    default_num_steps, default_output_mode, default_output_size, default_reset_mechanism,
    default_seed, default_symmetric, default_training_only, is_physics_mode, EncodingType,
    NetworkConfig, OperationMode, OutputModeType,
};
use gilgamesh::simulators::{default_inverting, default_syn_type, SynapseType};
use gilgamesh::training::{default_epochs as trainer_default_epochs, SurrogateConfig};

#[test]
fn network_config_defaults() {
    let c = NetworkConfig::default();
    assert_eq!(c.input_size, 36);
    assert_eq!(c.hidden_size, 12);
    assert_eq!(c.output_size, 10);
    assert_eq!(c.image_size, 6);
    assert_eq!(c.image_width, None);
    assert_eq!(c.image_height, None);
    assert_eq!(c.get_width(), 6);
    assert_eq!(c.get_height(), 6);
}

#[test]
fn network_config_explicit_dimensions_override_square_size() {
    let mut c = NetworkConfig::default();
    c.image_width = Some(4);
    c.image_height = Some(9);
    assert_eq!(c.get_width(), 4);
    assert_eq!(c.get_height(), 9);
}

#[test]
fn cli_overrides_width_and_height_set_input_size() {
    let mut c = NetworkConfig::default();
    c.apply_cli_overrides(Some(9), Some(7), Some(4), Some(9));
    assert_eq!(c.hidden_size, 9);
    assert_eq!(c.image_width, Some(4));
    assert_eq!(c.image_height, Some(9));
    assert_eq!(c.input_size, 36);
    assert_eq!(c.image_size, 6);
}

#[test]
fn cli_overrides_square_size_when_dimensions_incomplete() {
    let mut c = NetworkConfig::default();
    c.apply_cli_overrides(None, Some(7), Some(4), None);
    assert_eq!(c.hidden_size, 12);
    assert_eq!(c.image_size, 7);
    assert_eq!(c.input_size, 49);
    assert_eq!(c.image_width, None);
}

#[test]
fn cli_overrides_nothing_given() {
    let mut c = NetworkConfig::default();
    c.apply_cli_overrides(None, None, None, None);
    assert_eq!(c, NetworkConfig::default());
}

#[test]
fn string_config_defaults() {
    assert_eq!(default_mode(), "simple");
    assert_eq!(default_input_size(), 36);
    assert_eq!(default_hidden_size(), 12);
    assert_eq!(default_output_size(), 10);
    assert_eq!(default_image_size(), 6);
    assert_eq!(default_reset_mechanism(), "subtract");
    assert_eq!(default_epochs(), 15);
    assert_eq!(default_batch_size(), 128);
    assert_eq!(default_num_steps(), 25);
    assert_eq!(default_seed(), 42);
    assert_eq!(default_encoding_type(), "rate_coded");
    assert_eq!(default_bits(), 3);
    assert!(default_apply_during_training());
    assert!(default_symmetric());
    assert!(default_training_only());
    assert_eq!(default_output_mode(), "spike_count");
}

#[test]
fn physics_mode_string() {
    assert!(is_physics_mode("physics"));
    assert!(!is_physics_mode("simple"));
    assert!(!is_physics_mode("Physics"));
    assert!(!is_physics_mode(""));
}

#[test]
fn operation_mode_names() {
    assert_eq!(OperationMode::Simple.name(), "simple");
    assert_eq!(OperationMode::Physics.name(), "physics");
    assert!(OperationMode::Physics.is_physics());
    assert!(!OperationMode::Simple.is_physics());
    assert_eq!(OperationMode::default(), OperationMode::Simple);
}

#[test]
fn enum_defaults() {
    assert_eq!(EncodingType::default(), EncodingType::RateCoded);
    assert_eq!(OutputModeType::default(), OutputModeType::SpikeCount);
}

#[test]
fn output_mode_string_parsing() {
    assert_eq!(OutputModeType::from_mode_str("spike_count"), OutputModeType::SpikeCount);
    assert_eq!(OutputModeType::from_mode_str("analog_final"), OutputModeType::AnalogFinal);
    assert_eq!(OutputModeType::from_mode_str("analog_max"), OutputModeType::AnalogMax);
    assert_eq!(OutputModeType::from_mode_str("analog_filtered"), OutputModeType::AnalogFiltered);
    assert_eq!(OutputModeType::from_mode_str("analog_filtered "), OutputModeType::SpikeCount);
    assert_eq!(OutputModeType::from_mode_str("bogus"), OutputModeType::SpikeCount);
}

#[test]
fn simulator_defaults() {
    assert_eq!(default_syn_type(), SynapseType::Excitatory);
    assert!(default_inverting());
}

#[derive(Default, Debug, Clone, Copy, PartialEq)]
struct FastSigmoidLike {
    slope: f64,
}

#[test]
fn surrogate_config_enabled_and_disabled() {
    let d: SurrogateConfig<FastSigmoidLike> = SurrogateConfig::disabled();
    assert!(!d.enabled);
    assert_eq!(d.surrogate, FastSigmoidLike::default());
    let e: SurrogateConfig<FastSigmoidLike> = SurrogateConfig::default();
    assert!(e.enabled);
    assert_eq!(trainer_default_epochs(), 25);
}

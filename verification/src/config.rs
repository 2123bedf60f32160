//! Configuration vocabulary of the network: operation modes, input encodings,
//! output read-out modes and the integer network architecture.
//!
//! The JSON file format itself is read by serde in the application; this module
//! holds the values that the rest of the library decides on.

use vstd::prelude::*;

use crate::text::str_eq;

verus! {

/// Operation mode for the network.
#[derive(Clone, Copy, Debug, PartialEq, Eq, Structural)]
pub enum OperationMode {
    /// Simple discrete-time model (snnTorch-compatible)
    Simple,
    /// Physics-accurate RC circuit model
    Physics,
}

impl OperationMode {
    /// The lower-case name under which the mode is written and displayed.
    pub open spec fn spec_name(self) -> Seq<char> {
        match self {
            OperationMode::Simple => "simple"@,
            OperationMode::Physics => "physics"@,
        }
    }

    /// Display name of the mode (`"simple"` or `"physics"`).
    pub fn name(&self) -> (r: &'static str)
        ensures
            r@ == self.spec_name(),
    {
        match self {
            OperationMode::Simple => "simple",
            OperationMode::Physics => "physics",
        }
    }

    /// Whether this is the physics (RC circuit) mode.
    pub fn is_physics(&self) -> (r: bool)
        ensures
            r == (*self == OperationMode::Physics),
    {
        match self {
            OperationMode::Simple => false,
            OperationMode::Physics => true,
        }
    }
}

impl Default for OperationMode {
    fn default() -> (r: Self)
        ensures
            r == OperationMode::Simple,
    {
        OperationMode::Simple
    }
}

/// Input encoding type.
#[derive(Clone, Copy, Debug, PartialEq, Eq, Structural)]
pub enum EncodingType {
    /// All pixels presented simultaneously each timestep
    RateCoded,
    /// Rows presented sequentially over time
    Temporal,
    /// Pixels generate spike trains at rates proportional to intensity
    Spiking,
}

impl Default for EncodingType {
    fn default() -> (r: Self)
        ensures
            r == EncodingType::RateCoded,
    {
        EncodingType::RateCoded
    }
}

/// Output mode type (how the output layer is read out).
#[derive(Clone, Copy, Debug, PartialEq, Eq, Structural)]
pub enum OutputModeType {
    /// Sum spikes over time (standard snnTorch)
    SpikeCount,
    /// Use final membrane voltage
    AnalogFinal,
    /// Use max membrane voltage over time
    AnalogMax,
    /// Use filtered membrane (low-pass)
    AnalogFiltered,
}

impl Default for OutputModeType {
    fn default() -> (r: Self)
        ensures
            r == OutputModeType::SpikeCount,
    {
        OutputModeType::SpikeCount
    }
}

impl OutputModeType {
    /// The snake-case name of the mode as written in configuration files.
    pub open spec fn spec_name(self) -> Seq<char> {
        match self {
            OutputModeType::SpikeCount => "spike_count"@,
            OutputModeType::AnalogFinal => "analog_final"@,
            OutputModeType::AnalogMax => "analog_max"@,
            OutputModeType::AnalogFiltered => "analog_filtered"@,
        }
    }

    /// The mode that a mode string of the string-typed configuration selects:
    /// `"analog_final"`, `"analog_max"` and `"analog_filtered"` select their mode,
    /// every other string selects spike counting.
    pub open spec fn spec_from_mode_str(s: Seq<char>) -> OutputModeType {
        if s == "analog_final"@ {
            OutputModeType::AnalogFinal
        } else if s == "analog_max"@ {
            OutputModeType::AnalogMax
        } else if s == "analog_filtered"@ {
            OutputModeType::AnalogFiltered
        } else {
            OutputModeType::SpikeCount
        }
    }

    /// Parse the mode string of the string-typed output configuration
    /// (unknown strings fall back to spike counting).
    pub fn from_mode_str(s: &str) -> (r: OutputModeType)
        ensures
            r == Self::spec_from_mode_str(s@),
    {
        if str_eq(s, "analog_final") {
            OutputModeType::AnalogFinal
        } else if str_eq(s, "analog_max") {
            OutputModeType::AnalogMax
        } else if str_eq(s, "analog_filtered") {
            OutputModeType::AnalogFiltered
        } else {
            OutputModeType::SpikeCount
        }
    }
}

/// Network architecture configuration.
#[derive(Clone, Copy, Debug, PartialEq, Eq, Structural)]
pub struct NetworkConfig {
    /// Input layer size (default: 36 for 6x6 MNIST)
    pub input_size: usize,
    /// Hidden layer size
    pub hidden_size: usize,
    /// Output layer size (default: 10 for MNIST digits)
    pub output_size: usize,
    /// Image size for square MNIST downsampling (n×n, produces n² input features)
    pub image_size: usize,
    /// Image width for non-square images (overrides image_size if set)
    pub image_width: Option<usize>,
    /// Image height for non-square images (overrides image_size if set)
    pub image_height: Option<usize>,
}

impl NetworkConfig {
    /// Effective image width: the explicit width when set, else the square size.
    pub fn get_width(&self) -> (r: usize)
        ensures
            r == match self.image_width {
                Some(w) => w,
                None => self.image_size,
            },
    {
        match self.image_width {
            Some(w) => w,
            None => self.image_size,
        }
    }

    /// Effective image height: the explicit height when set, else the square size.
    pub fn get_height(&self) -> (r: usize)
        ensures
            r == match self.image_height {
                Some(h) => h,
                None => self.image_size,
            },
    {
        match self.image_height {
            Some(h) => h,
            None => self.image_size,
        }
    }
}

impl NetworkConfig {
    /// Applies the architecture overrides of the `train` command line: a hidden
    /// size; then either an explicit width and height (both given), which also
    /// set the input size to `width * height`, or else a square image size,
    /// which sets the input size to `size * size`.
    pub fn apply_cli_overrides(
        &mut self,
        hidden_size: Option<usize>,
        image_size: Option<usize>,
        image_width: Option<usize>,
        image_height: Option<usize>,
    )
        requires
            image_width matches Some(w) && image_height matches Some(h) ==> w * h <= usize::MAX,
            !(image_width is Some && image_height is Some) ==> (image_size matches Some(s) ==> s * s
                <= usize::MAX),
        ensures
            final(self).output_size == old(self).output_size,
            final(self).hidden_size == match hidden_size {
                Some(h) => h,
                None => old(self).hidden_size,
            },
            match (image_width, image_height) {
                (Some(w), Some(h)) => {
                    &&& final(self).image_width == Some(w)
                    &&& final(self).image_height == Some(h)
                    &&& final(self).input_size == w * h
                    &&& final(self).image_size == old(self).image_size
                },
                _ => match image_size {
                    Some(s) => {
                        &&& final(self).image_size == s
                        &&& final(self).input_size == s * s
                        &&& final(self).image_width == old(self).image_width
                        &&& final(self).image_height == old(self).image_height
                    },
                    None => {
                        &&& final(self).image_size == old(self).image_size
                        &&& final(self).input_size == old(self).input_size
                        &&& final(self).image_width == old(self).image_width
                        &&& final(self).image_height == old(self).image_height
                    },
                },
            },
    {
        if let Some(h) = hidden_size {
            self.hidden_size = h;
        }
        match (image_width, image_height) {
            (Some(w), Some(h)) => {
                self.image_width = Some(w);
                self.image_height = Some(h);
                self.input_size = w * h;
            },
            _ => {
                if let Some(s) = image_size {
                    self.image_size = s;
                    self.input_size = s * s;
                }
            },
        }
    }
}

impl Default for NetworkConfig {
    fn default() -> (r: Self)
        ensures
            r.input_size == 36,
            r.hidden_size == 12,
            r.output_size == 10,
            r.image_size == 6,
            r.image_width is None,
            r.image_height is None,
    {
        NetworkConfig {
            input_size: default_input_size(),
            hidden_size: default_hidden_size(),
            output_size: default_output_size(),
            image_size: default_image_size(),
            image_width: None,
            image_height: None,
        }
    }
}

/// Default operation mode name of the string-typed configuration.
pub fn default_mode() -> (r: String)
    ensures
        r@ == "simple"@,
{
    "simple".to_owned()
}

/// Whether a mode string of the string-typed configuration selects physics mode.
pub fn is_physics_mode(mode: &str) -> (r: bool)
    ensures
        r == (mode@ == "physics"@),
{
    str_eq(mode, "physics")
}

/// Default input layer size (6x6 downsampled MNIST).
pub fn default_input_size() -> (r: usize)
    ensures
        r == 36,
{
    36
}

/// Default hidden layer size.
pub fn default_hidden_size() -> (r: usize)
    ensures
        r == 12,
{
    12
}

/// Default output layer size (ten digit classes).
pub fn default_output_size() -> (r: usize)
    ensures
        r == 10,
{
    10
}

/// Default side length of the downsampled square image.
pub fn default_image_size() -> (r: usize)
    ensures
        r == 6,
{
    6
}

/// Default reset mechanism name of the string-typed configuration.
pub fn default_reset_mechanism() -> (r: String)
    ensures
        r@ == "subtract"@,
{
    "subtract".to_owned()
}

/// Default number of training epochs.
pub fn default_epochs() -> (r: usize)
    ensures
        r == 15,
{
    15
}

/// Default training batch size.
pub fn default_batch_size() -> (r: usize)
    ensures
        r == 128,
{
    128
}

/// Default number of timesteps per sample.
pub fn default_num_steps() -> (r: usize)
    ensures
        r == 25,
{
    25
}

/// Default random seed.
pub fn default_seed() -> (r: u64)
    ensures
        r == 42,
{
    42
}

/// Default input encoding name of the string-typed configuration.
pub fn default_encoding_type() -> (r: String)
    ensures
        r@ == "rate_coded"@,
{
    "rate_coded".to_owned()
}

/// Default number of weight magnitude bits (3-bit current sources).
pub fn default_bits() -> (r: u8)
    ensures
        r == 3,
{
    3
}

/// Quantization is applied during training by default.
pub fn default_apply_during_training() -> (r: bool)
    ensures
        r,
{
    true
}

/// Quantization is symmetric around zero by default.
pub fn default_symmetric() -> (r: bool)
    ensures
        r,
{
    true
}

/// Noise is applied only during training by default.
pub fn default_training_only() -> (r: bool)
    ensures
        r,
{
    true
}

/// Default output mode name of the string-typed configuration.
pub fn default_output_mode() -> (r: String)
    ensures
        r@ == "spike_count"@,
{
    "spike_count".to_owned()
}


/// The integer and boolean training settings that the `train` command line can
/// override (the learning rate, membrane and noise magnitudes are real-valued
/// and stay with the caller).
#[derive(Clone, Copy, Debug, PartialEq, Eq, Structural)]
pub struct TrainingSettings {
    pub epochs: usize,
    pub batch_size: usize,
    pub num_steps: usize,
    pub seed: u64,
    /// Whether weight quantization is enabled.
    pub quantize: bool,
    /// Quantization magnitude bits.
    pub quant_bits: u8,
    /// Whether noise injection is enabled.
    pub noise: bool,
}

impl TrainingSettings {
    /// Applies the `train` command line: each given value replaces the setting,
    /// and the `quantize` and `noise` flags switch their feature on (an absent
    /// flag leaves it as configured).
    pub fn apply_cli_overrides(
        &mut self,
        epochs: Option<usize>,
        batch_size: Option<usize>,
        num_steps: Option<usize>,
        seed: Option<u64>,
        quantize: bool,
        quant_bits: Option<u8>,
        noise: bool,
    )
        ensures
            final(self).epochs == match epochs { Some(v) => v, None => old(self).epochs },
            final(self).batch_size == match batch_size { Some(v) => v, None => old(self).batch_size },
            final(self).num_steps == match num_steps { Some(v) => v, None => old(self).num_steps },
            final(self).seed == match seed { Some(v) => v, None => old(self).seed },
            final(self).quantize == (old(self).quantize || quantize),
            final(self).quant_bits == match quant_bits { Some(v) => v, None => old(self).quant_bits },
            final(self).noise == (old(self).noise || noise),
    {
        if let Some(v) = epochs {
            self.epochs = v;
        }
        if let Some(v) = batch_size {
            self.batch_size = v;
        }
        if let Some(v) = num_steps {
            self.num_steps = v;
        }
        if let Some(v) = seed {
            self.seed = v;
        }
        if quantize {
            self.quantize = true;
        }
        if let Some(v) = quant_bits {
            self.quant_bits = v;
        }
        if noise {
            self.noise = true;
        }
    }
}

/// Timesteps of an evaluation run: the value saved with the checkpoint when the
/// command line left the default (`default_num_steps()`), else the command
/// line's value.
pub fn effective_num_steps(cli_steps: usize, saved_steps: Option<usize>) -> (r: usize)
    ensures
        r == match saved_steps {
            Some(s) => if cli_steps == 25 { s } else { cli_steps },
            None => cli_steps,
        },
{
    match saved_steps {
        Some(s) => {
            if cli_steps == default_num_steps() && s != cli_steps {
                s
            } else {
                cli_steps
            }
        },
        None => cli_steps,
    }
}

/// The quantization an evaluation runs with.
#[derive(Clone, Copy, Debug, PartialEq, Eq, Structural)]
pub struct EvalQuantization {
    /// Weight magnitude bits, `None` for unquantized weights.
    pub quant_bits: Option<u8>,
    /// Separate scales for positive and negative weights.
    pub split_sign: bool,
    /// Input DAC bits (0 = not quantized).
    pub input_bits: u8,
}

/// Quantization recorded with a checkpoint; each entry may be absent.
#[derive(Clone, Copy, Debug, PartialEq, Eq, Structural)]
pub struct SavedQuantization {
    pub quant_bits: Option<u8>,
    pub split_sign: Option<bool>,
    pub input_bits: Option<u8>,
}

/// The integer and boolean part of a configuration file's quantization section.
#[derive(Clone, Copy, Debug, PartialEq, Eq, Structural)]
pub struct QuantizationSettings {
    pub enabled: bool,
    pub bits: u8,
    pub split_sign: bool,
    pub input_bits: u8,
}

/// Quantization of an evaluation run: starting from `start`, each setting
/// recorded with the checkpoint applies, and a configuration file, when given,
/// overrides all three (its bits only when quantization is enabled in it).
pub fn eval_quantization(
    start: EvalQuantization,
    saved: Option<SavedQuantization>,
    config: Option<QuantizationSettings>,
) -> (r: EvalQuantization)
    ensures
        match config {
            Some(c) => r == (EvalQuantization {
                quant_bits: if c.enabled { Some(c.bits) } else { None },
                split_sign: c.split_sign,
                input_bits: c.input_bits,
            }),
            None => match saved {
                Some(m) => r == (EvalQuantization {
                    quant_bits: match m.quant_bits { Some(b) => Some(b), None => start.quant_bits },
                    split_sign: match m.split_sign { Some(b) => b, None => start.split_sign },
                    input_bits: match m.input_bits { Some(b) => b, None => start.input_bits },
                }),
                None => r == start,
            },
        },
{
    let mut r = start;
    if let Some(m) = saved {
        if let Some(b) = m.quant_bits {
            r.quant_bits = Some(b);
        }
        if let Some(b) = m.split_sign {
            r.split_sign = b;
        }
        if let Some(b) = m.input_bits {
            r.input_bits = b;
        }
    }
    if let Some(c) = config {
        if c.enabled {
            r.quant_bits = Some(c.bits);
        } else {
            r.quant_bits = None;
        }
        r.split_sign = c.split_sign;
        r.input_bits = c.input_bits;
    }
    r
}

} // verus!

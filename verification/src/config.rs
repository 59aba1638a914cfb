//! The service configuration and its validation.
//!
//! Fields that the operator writes as floats (thresholds, normalization
//! constants, the enrollment quality floor) are carried as IEEE-754
//! single-precision bit patterns. A float lies in [0, 1] exactly when its
//! bit pattern, read as an unsigned integer, is at most the pattern of 1.0
//! or is the pattern of negative zero; validation tests exactly that.

use vstd::prelude::*;

verus! {

/// Bit pattern of the float 1.0.
pub const ONE_F32_BITS: u32 = 0x3F800000;

/// Bit pattern of the float -0.0.
pub const NEG_ZERO_F32_BITS: u32 = 0x80000000;

/// Bit pattern of the float 0.7, the default enrollment quality floor.
pub const DEFAULT_QUALITY_F32_BITS: u32 = 0x3F333333;

/// The bit pattern encodes a float in [0, 1].
pub open spec fn unit_range_bits(bits: u32) -> bool {
    bits <= ONE_F32_BITS || bits == NEG_ZERO_F32_BITS
}

pub struct CameraConfig {
    pub device_index: u32,
    pub width: u32,
    pub height: u32,
    pub warmup_frames: u32,
    pub warmup_delay_ms: u64,
}

pub struct ModelConfig {
    pub detector_path: String,
    pub recognizer_path: String,
}

pub struct AuthConfig {
    pub similarity_threshold_bits: u32,
    pub timeout_seconds: u32,
    pub detection_confidence_bits: u32,
    pub k_required_matches: u32,
    pub n_total_attempts: u32,
    pub embedding_buffer_size: u32,
    pub use_embedding_fusion: bool,
    pub lost_face_timeout: u32,
}

pub struct DetectorConfig {
    pub input_width: u32,
    pub input_height: u32,
    pub normalization_mean_bits: u32,
    pub normalization_std_bits: u32,
}

pub struct RecognizerConfig {
    pub input_size: u32,
    pub normalization_value_bits: u32,
}

pub struct StorageConfig {
    pub enrollment_images_dir: String,
}

pub struct PerformanceConfig {
    pub enable_quantization: bool,
    pub optimization_level: u32,
}

pub struct EnrollmentConfig {
    pub store_averaged_embedding: bool,
    pub capture_quality_metrics: bool,
    pub min_enrollment_quality_bits: u32,
    pub num_captures: Option<u64>,
    pub capture_interval_ms: Option<u64>,
    pub enable_ascii_preview: Option<bool>,
    pub ascii_width: Option<u64>,
    pub ascii_height: Option<u64>,
}

pub struct Config {
    pub camera: CameraConfig,
    pub models: ModelConfig,
    pub auth: AuthConfig,
    pub detector: DetectorConfig,
    pub recognizer: RecognizerConfig,
    pub storage: StorageConfig,
    pub performance: PerformanceConfig,
    pub enrollment: EnrollmentConfig,
}

// Default values for fields the configuration file may omit.

pub fn default_warmup_delay() -> (r: u64)
    ensures
        r == 50,
{
    50
}

pub fn default_k_required() -> (r: u32)
    ensures
        r == 2,
{
    2
}

pub fn default_n_attempts() -> (r: u32)
    ensures
        r == 3,
{
    3
}

pub fn default_buffer_size() -> (r: u32)
    ensures
        r == 3,
{
    3
}

pub fn default_true() -> (r: bool)
    ensures
        r,
{
    true
}

pub fn default_lost_face_timeout() -> (r: u32)
    ensures
        r == 3,
{
    3
}

pub fn default_optimization_level() -> (r: u32)
    ensures
        r == 3,
{
    3
}

pub fn default_enrollment_quality() -> (r: u32)
    ensures
        r == DEFAULT_QUALITY_F32_BITS,
{
    DEFAULT_QUALITY_F32_BITS
}

pub fn default_num_captures() -> (r: Option<u64>)
    ensures
        r == Some(5u64),
{
    Some(5)
}

pub fn default_capture_interval() -> (r: Option<u64>)
    ensures
        r == Some(2000u64),
{
    Some(2000)
}

pub fn default_true_option() -> (r: Option<bool>)
    ensures
        r == Some(true),
{
    Some(true)
}

/// Everything validation checks, as one predicate.
pub open spec fn config_valid(c: Config) -> bool {
    &&& 1 <= c.camera.width <= 4096
    &&& 1 <= c.camera.height <= 4096
    &&& unit_range_bits(c.auth.similarity_threshold_bits)
    &&& unit_range_bits(c.auth.detection_confidence_bits)
    &&& 1 <= c.auth.timeout_seconds <= 60
    &&& 1 <= c.detector.input_width <= 4096
    &&& 1 <= c.detector.input_height <= 4096
    &&& 1 <= c.recognizer.input_size <= 1024
}

impl Config {
    /// Accepts exactly the configurations that `config_valid` describes;
    /// the error names the first field that fails.
    pub fn validate(&self) -> (r: Result<(), String>)
        ensures
            r is Ok <==> config_valid(*self),
    {
        if self.camera.width == 0 || self.camera.width > 4096 {
            let mut m = String::new();
            m.append("Camera width must be between 1 and 4096");
            return Err(m);
        }
        if self.camera.height == 0 || self.camera.height > 4096 {
            let mut m = String::new();
            m.append("Camera height must be between 1 and 4096");
            return Err(m);
        }
        if !(self.auth.similarity_threshold_bits <= ONE_F32_BITS
            || self.auth.similarity_threshold_bits == NEG_ZERO_F32_BITS) {
            let mut m = String::new();
            m.append("Similarity threshold must be between 0.0 and 1.0");
            return Err(m);
        }
        if !(self.auth.detection_confidence_bits <= ONE_F32_BITS
            || self.auth.detection_confidence_bits == NEG_ZERO_F32_BITS) {
            let mut m = String::new();
            m.append("Detection confidence must be between 0.0 and 1.0");
            return Err(m);
        }
        if self.auth.timeout_seconds < 1 || self.auth.timeout_seconds > 60 {
            let mut m = String::new();
            m.append("Timeout must be between 1 and 60 seconds");
            return Err(m);
        }
        if self.detector.input_width == 0 || self.detector.input_width > 4096 {
            let mut m = String::new();
            m.append("Detector input width must be between 1 and 4096");
            return Err(m);
        }
        if self.detector.input_height == 0 || self.detector.input_height > 4096 {
            let mut m = String::new();
            m.append("Detector input height must be between 1 and 4096");
            return Err(m);
        }
        if self.recognizer.input_size == 0 || self.recognizer.input_size > 1024 {
            let mut m = String::new();
            m.append("Recognizer input size must be between 1 and 1024");
            return Err(m);
        }
        Ok(())
    }
}

} // verus!

//! The explicit configuration the system is built from.
//!
//! The configuration is one plain value constructed at startup and passed
//! by reference into the registry, the selector and the orchestrator:
//! nothing in the core reads ambient state. Paths are carried as strings;
//! the thresholds are fixed-point confidences; durations are seconds and
//! sizes bytes, as named per field.

use vstd::prelude::*;

use crate::confidence::valid_confidence;
use crate::error::DattavaniError;
use crate::strutil::{str_contains_char, str_eq};

verus! {

/// Google access settings.
#[derive(Debug, Clone, PartialEq)]
pub struct GoogleConfig {
    pub application_credentials: Option<String>,
    pub project_id: Option<String>,
    pub drive_api_version: String,
    pub storage_api_version: String,
}

/// Engine invocation settings.
#[derive(Debug, Clone, PartialEq)]
pub struct WhisperConfig {
    pub model_size: String,
    pub model_path: Option<String>,
    pub device: String,
    pub compute_type: String,
    pub language: Option<String>,
    pub task: String,
}

/// Model-selection settings. `min_confidence_threshold` is fixed-point.
#[derive(Debug, Clone, PartialEq)]
pub struct ModelsConfig {
    pub default_model: String,
    pub confidence_fallback_enabled: bool,
    pub min_confidence_threshold: u32,
    pub max_model_attempts: usize,
    pub custom_models_file: Option<String>,
}

/// Media processing settings.
#[derive(Debug, Clone, PartialEq)]
pub struct ProcessingConfig {
    pub max_workers: usize,
    pub temp_dir: String,
    pub segment_duration: u64,
    pub target_sample_rate: u32,
    pub chunk_size: usize,
    pub timeout_seconds: u64,
    pub retry_attempts: u32,
}

/// Logging settings.
#[derive(Debug, Clone, PartialEq)]
pub struct LoggingConfig {
    pub level: String,
    pub file: String,
    pub max_file_size: u64,
    pub max_files: u32,
}

/// Storage settings.
#[derive(Debug, Clone, PartialEq)]
pub struct StorageConfig {
    pub output_bucket: Option<String>,
    pub output_prefix: String,
    pub cache_dir: String,
    pub max_cache_size: u64,
}

/// The whole configuration.
#[derive(Debug, Clone, PartialEq)]
pub struct Config {
    pub google: GoogleConfig,
    pub whisper: WhisperConfig,
    pub models: ModelsConfig,
    pub processing: ProcessingConfig,
    pub logging: LoggingConfig,
    pub storage: StorageConfig,
}

/// The built-in Google defaults: no credentials, current API versions.
pub open spec fn is_default_google(g: GoogleConfig) -> bool {
    &&& g.application_credentials is None
    &&& g.project_id is None
    &&& g.drive_api_version@ == "v3"@
    &&& g.storage_api_version@ == "v1"@
}

/// The built-in engine defaults.
pub open spec fn is_default_whisper(w: WhisperConfig) -> bool {
    &&& w.model_size@ == "large-v3"@
    &&& w.model_path is None
    &&& w.device@ == "auto"@
    &&& w.compute_type@ == "float16"@
    &&& w.language is None
    &&& w.task@ == "transcribe"@
}

/// The built-in model-selection defaults.
pub open spec fn is_default_models(m: ModelsConfig) -> bool {
    &&& m.default_model@ == "whisper-kannada-small"@
    &&& m.confidence_fallback_enabled == true
    &&& m.min_confidence_threshold == 600000u32
    &&& m.max_model_attempts == 3usize
    &&& m.custom_models_file is None
}

/// The built-in processing defaults.
pub open spec fn is_default_processing(p: ProcessingConfig) -> bool {
    &&& p.max_workers == 4usize
    &&& p.temp_dir@ == "/tmp/dattavani_asr"@
    &&& p.segment_duration == 300u64
    &&& p.target_sample_rate == 16000u32
    &&& p.chunk_size == 8192usize
    &&& p.timeout_seconds == 3600u64
    &&& p.retry_attempts == 3u32
}

/// The built-in logging defaults.
pub open spec fn is_default_logging(l: LoggingConfig) -> bool {
    &&& l.level@ == "info"@
    &&& l.file@ == "dattavani_asr.log"@
    &&& l.max_file_size == 10485760u64
    &&& l.max_files == 7u32
}

/// The built-in storage defaults.
pub open spec fn is_default_storage(s: StorageConfig) -> bool {
    &&& s.output_bucket is None
    &&& s.output_prefix@ == "gen-transcript"@
    &&& s.cache_dir@ == "/tmp/dattavani_cache"@
    &&& s.max_cache_size == 1073741824u64
}

impl Default for GoogleConfig {
    /// Builds the built-in Google defaults.
    fn default() -> (r: GoogleConfig)
        ensures
            is_default_google(r),
    {
        GoogleConfig {
            application_credentials: None,
            project_id: None,
            drive_api_version: "v3".to_owned(),
            storage_api_version: "v1".to_owned(),
        }
    }
}

impl Default for WhisperConfig {
    /// Builds the built-in engine defaults.
    fn default() -> (r: WhisperConfig)
        ensures
            is_default_whisper(r),
    {
        WhisperConfig {
            model_size: "large-v3".to_owned(),
            model_path: None,
            device: "auto".to_owned(),
            compute_type: "float16".to_owned(),
            language: None,
            task: "transcribe".to_owned(),
        }
    }
}

impl Default for ModelsConfig {
    /// Builds the built-in model-selection defaults.
    fn default() -> (r: ModelsConfig)
        ensures
            is_default_models(r),
    {
        ModelsConfig {
            default_model: "whisper-kannada-small".to_owned(),
            confidence_fallback_enabled: true,
            min_confidence_threshold: 600000,
            max_model_attempts: 3,
            custom_models_file: None,
        }
    }
}

impl Default for ProcessingConfig {
    /// Builds the built-in processing defaults.
    fn default() -> (r: ProcessingConfig)
        ensures
            is_default_processing(r),
    {
        ProcessingConfig {
            max_workers: 4,
            temp_dir: "/tmp/dattavani_asr".to_owned(),
            segment_duration: 300,
            target_sample_rate: 16000,
            chunk_size: 8192,
            timeout_seconds: 3600,
            retry_attempts: 3,
        }
    }
}

impl Default for LoggingConfig {
    /// Builds the built-in logging defaults.
    fn default() -> (r: LoggingConfig)
        ensures
            is_default_logging(r),
    {
        LoggingConfig {
            level: "info".to_owned(),
            file: "dattavani_asr.log".to_owned(),
            max_file_size: 10485760,
            max_files: 7,
        }
    }
}

impl Default for StorageConfig {
    /// Builds the built-in storage defaults.
    fn default() -> (r: StorageConfig)
        ensures
            is_default_storage(r),
    {
        StorageConfig {
            output_bucket: None,
            output_prefix: "gen-transcript".to_owned(),
            cache_dir: "/tmp/dattavani_cache".to_owned(),
            max_cache_size: 1073741824,
        }
    }
}

impl Default for Config {
    /// Builds the whole built-in configuration.
    fn default() -> (r: Config)
        ensures
            is_default_google(r.google),
            is_default_whisper(r.whisper),
            is_default_models(r.models),
            is_default_processing(r.processing),
            is_default_logging(r.logging),
            is_default_storage(r.storage),
    {
        Config {
            google: GoogleConfig::default(),
            whisper: WhisperConfig::default(),
            models: ModelsConfig::default(),
            processing: ProcessingConfig::default(),
            logging: LoggingConfig::default(),
            storage: StorageConfig::default(),
        }
    }
}

/// The engine model sizes accepted by name; any other size must look like
/// a hub identifier (it contains a slash).
pub open spec fn known_model_size(s: Seq<char>) -> bool {
    ||| s == "tiny"@
    ||| s == "base"@
    ||| s == "small"@
    ||| s == "medium"@
    ||| s == "large"@
    ||| s == "large-v2"@
    ||| s == "large-v3"@
}

/// A model size is valid when it is a known name or a hub identifier.
pub open spec fn valid_model_size(s: Seq<char>) -> bool {
    known_model_size(s) || s.contains('/')
}

/// The sample rates the pipeline accepts.
pub open spec fn valid_sample_rate(r: u32) -> bool {
    r == 8000 || r == 16000 || r == 22050 || r == 44100 || r == 48000
}

/// Whether a whole configuration passes validation.
pub open spec fn spec_config_valid(c: &Config) -> bool {
    &&& c.google.application_credentials is Some || c.google.project_id is Some
    &&& valid_model_size(c.whisper.model_size@)
    &&& c.processing.max_workers > 0
    &&& c.processing.segment_duration > 0
    &&& valid_sample_rate(c.processing.target_sample_rate)
    &&& valid_confidence(c.models.min_confidence_threshold)
}

impl Config {
    /// Validates the configuration: Google access must be identified, the
    /// engine model size must be a known name or a hub identifier, worker
    /// count and segment duration must be positive, the sample rate must
    /// be one the pipeline accepts, and the global confidence floor must
    /// be a valid fixed-point confidence. Returns the first failure as a
    /// configuration error, and succeeds exactly on valid configurations.
    pub fn validate(&self) -> (r: Result<(), DattavaniError>)
        ensures
            r is Ok <==> spec_config_valid(self),
            r matches Err(e) ==> e@ is Configuration,
    {
        if self.google.application_credentials.is_none() && self.google.project_id.is_none() {
            return Err(
                DattavaniError::configuration(
                    "either application credentials or a project id must be set",
                ),
            );
        }
        let size = self.whisper.model_size.as_str();
        let known: bool = str_eq(size, "tiny") || str_eq(size, "base") || str_eq(size, "small")
            || str_eq(size, "medium") || str_eq(size, "large") || str_eq(size, "large-v2")
            || str_eq(size, "large-v3");
        if !known && !str_contains_char(size, '/') {
            return Err(DattavaniError::configuration("invalid whisper model size"));
        }
        if self.processing.max_workers == 0 {
            return Err(DattavaniError::configuration("max_workers must be greater than 0"));
        }
        if self.processing.segment_duration == 0 {
            return Err(DattavaniError::configuration("segment_duration must be greater than 0"));
        }
        let rate = self.processing.target_sample_rate;
        if !(rate == 8000 || rate == 16000 || rate == 22050 || rate == 44100 || rate == 48000) {
            return Err(DattavaniError::configuration("invalid target sample rate"));
        }
        if self.models.min_confidence_threshold > crate::confidence::CONFIDENCE_SCALE {
            return Err(
                DattavaniError::configuration("min_confidence_threshold must lie between 0 and 1"),
            );
        }
        Ok(())
    }
}

} // verus!

//! Multi-model transcription fallback engine.
//!
//! The library models a catalog of speech-recognition model configurations
//! (`ModelRegistry`), selects candidate models for a requested language in
//! priority order, and drives a fallback loop that tries candidates one at a
//! time until a result meets its model's confidence threshold, keeping the
//! best result seen so far as a salvage value.
//!
//! Confidence values are carried as fixed-point integers: `CONFIDENCE_SCALE`
//! stands for a confidence of one (certainty), `0` for no confidence.
//! Durations are carried in milliseconds.

pub mod audio;
pub mod confidence;
pub mod config;
pub mod device;
pub mod engine;
pub mod error;
pub mod gdrive;
pub mod manager;
pub mod models;
pub mod native;
pub mod orchestrator;
pub mod registry_file;
pub mod selector;
pub mod simple;
pub mod strutil;

pub use config::{
    Config, GoogleConfig, LoggingConfig, ModelsConfig, ProcessingConfig, StorageConfig,
    WhisperConfig,
};
pub use engine::{EngineError, TranscriptionOutcome, TranscriptionResult, TranscriptionSegment};
pub use error::DattavaniError;
pub use manager::ModelManager;
pub use models::{LanguageMapping, ModelConfig, ModelProvider, ModelRegistry};
pub use orchestrator::{
    EngineReport, FallbackOrchestrator, MultiModelResult, OrchestrationError,
    TranscriptionAttempt,
};
pub use registry_file::{ModelsFileConfig, RegistryConfig, RegistryParseError};

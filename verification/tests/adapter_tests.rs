//! The engine adapter's normalization and the configuration checks.

use dattavani_asr::config::Config;
use dattavani_asr::engine::{
    aggregate_confidence, normalize_outcome, resolve_language, TranscriptionSegment,
};
use dattavani_asr::models::{ModelConfig, ModelProvider};

fn segment(text: &str, confidence: Option<u32>) -> TranscriptionSegment {
    TranscriptionSegment { start: 0, end: 1000, text: text.to_string(), confidence }
}

fn model_with_language(language: Option<&str>) -> ModelConfig {
    ModelConfig {
        id: "m".to_string(),
        provider: ModelProvider::WhisperCLI,
        model_path: "base".to_string(),
        language: language.map(|l| l.to_string()),
        priority: 1,
        confidence_threshold: 700_000,
        fallback_models: vec![],
        parameters: vec![],
    }
}

#[test]
fn mean_of_present_segment_confidences() {
    let segments = vec![
        segment("a", Some(800_000)),
        segment("b", None),
        segment("c", Some(600_000)),
    ];
    // (800000 + 600000) / 2 = 700000: the unscored segment is skipped,
    // not counted as zero.
    assert_eq!(aggregate_confidence(&segments), Some(700_000));
}

#[test]
fn no_scored_segment_means_no_confidence() {
    let segments = vec![segment("a", None), segment("b", None)];
    assert_eq!(aggregate_confidence(&segments), None);
    let empty: Vec<TranscriptionSegment> = Vec::new();
    assert_eq!(aggregate_confidence(&empty), None);
}

#[test]
fn reported_confidence_wins_over_mean() {
    let segments = vec![segment("a", Some(100_000))];
    let outcome = normalize_outcome(
        "hello".to_string(),
        None,
        None,
        segments,
        Some(930_000),
    );
    assert_eq!(outcome.confidence, Some(930_000));
    assert_eq!(outcome.text, "hello");
}

#[test]
fn derived_confidence_fills_missing_report() {
    let segments = vec![segment("a", Some(400_000)), segment("b", Some(600_000))];
    let outcome = normalize_outcome("hello".to_string(), None, None, segments, None);
    assert_eq!(outcome.confidence, Some(500_000));
}

#[test]
fn detected_language_wins_over_resolved() {
    let outcome = normalize_outcome(
        "hello".to_string(),
        Some("kn".to_string()),
        Some("en".to_string()),
        vec![],
        None,
    );
    assert_eq!(outcome.language.as_deref(), Some("kn"));

    let fallback = normalize_outcome(
        "hello".to_string(),
        None,
        Some("en".to_string()),
        vec![],
        None,
    );
    assert_eq!(fallback.language.as_deref(), Some("en"));
}

#[test]
fn language_resolution_order() {
    let with_affinity = model_with_language(Some("kn"));
    let without_affinity = model_with_language(None);
    assert_eq!(resolve_language(Some("ta"), &with_affinity).as_deref(), Some("ta"));
    assert_eq!(resolve_language(None, &with_affinity).as_deref(), Some("kn"));
    assert_eq!(resolve_language(None, &without_affinity), None);
}

#[test]
fn test_config_loading() {
    let config = Config::default();
    assert_eq!(config.whisper.model_size, "large-v3");
    assert_eq!(config.processing.max_workers, 4);
}

#[test]
fn test_config_validation() {
    let mut config = Config::default();
    config.google.project_id = Some("example-project".to_string());

    // A complete configuration passes.
    assert!(config.validate().is_ok());

    // An invalid model size fails.
    config.whisper.model_size = "invalid-model".to_string();
    assert!(config.validate().is_err());

    // Zero workers fail.
    config.whisper.model_size = "large-v3".to_string();
    config.processing.max_workers = 0;
    assert!(config.validate().is_err());
}

#[test]
fn hub_model_sizes_are_accepted() {
    let mut config = Config::default();
    config.google.project_id = Some("example-project".to_string());
    config.whisper.model_size = "vasista22/whisper-kannada-small".to_string();
    assert!(config.validate().is_ok());
}

#[test]
fn missing_credentials_fail_validation() {
    let config = Config::default();
    assert!(config.validate().is_err());
}

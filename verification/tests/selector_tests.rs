//! Candidate selection: priority ordering, stability, de-duplication, and
//! the empty-selection corner.

use dattavani_asr::models::{ModelConfig, ModelProvider, ModelRegistry};

fn plain_config(id: &str, priority: u8, threshold: u32) -> ModelConfig {
    ModelConfig {
        id: id.to_string(),
        provider: ModelProvider::WhisperCLI,
        model_path: id.to_string(),
        language: None,
        priority,
        confidence_threshold: threshold,
        fallback_models: vec![],
        parameters: vec![],
    }
}

fn registry_with_mapping(
    configs: Vec<ModelConfig>,
    language: &str,
    listed: &[&str],
    default_model: &str,
) -> ModelRegistry {
    ModelRegistry {
        models: configs,
        language_mappings: vec![dattavani_asr::models::LanguageMapping {
            language: language.to_string(),
            model_ids: listed.iter().map(|s| s.to_string()).collect(),
        }],
        default_model: default_model.to_string(),
        confidence_fallback_enabled: true,
        min_confidence_threshold: 600_000,
    }
}

#[test]
fn priority_ordering_with_stable_ties() {
    // Candidates [A(priority 2), B(priority 1), C(priority 1, listed after
    // B)]: ascending priority, ties kept in stored order.
    let registry = registry_with_mapping(
        vec![
            plain_config("model-a", 2, 700_000),
            plain_config("model-b", 1, 700_000),
            plain_config("model-c", 1, 700_000),
        ],
        "xx",
        &["model-a", "model-b", "model-c"],
        "model-a",
    );
    let candidates = registry.get_candidate_models(Some("xx"));
    assert_eq!(candidates, vec!["model-b", "model-c", "model-a"]);
}

#[test]
fn default_model_not_appended_twice() {
    // The default model already appears in the mapping: it keeps its
    // mapping-derived position and appears exactly once.
    let registry = registry_with_mapping(
        vec![
            plain_config("model-a", 2, 700_000),
            plain_config("model-b", 1, 700_000),
            plain_config("model-c", 1, 700_000),
        ],
        "xx",
        &["model-a", "model-b", "model-c"],
        "model-b",
    );
    let candidates = registry.get_candidate_models(Some("xx"));
    assert_eq!(candidates, vec!["model-b", "model-c", "model-a"]);
    let occurrences = candidates.iter().filter(|c| c.as_str() == "model-b").count();
    assert_eq!(occurrences, 1);
}

#[test]
fn unknown_language_falls_back_to_default() {
    let registry = registry_with_mapping(
        vec![plain_config("model-a", 2, 700_000), plain_config("model-b", 1, 700_000)],
        "xx",
        &["model-a"],
        "model-b",
    );
    let candidates = registry.get_candidate_models(Some("zz"));
    assert_eq!(candidates, vec!["model-b"]);
}

#[test]
fn unregistered_candidates_sort_last() {
    let registry = registry_with_mapping(
        vec![plain_config("model-a", 200, 700_000)],
        "xx",
        &["ghost-model", "model-a"],
        "model-a",
    );
    let candidates = registry.get_candidate_models(Some("xx"));
    assert_eq!(candidates, vec!["model-a", "ghost-model"]);
}

#[test]
fn no_mapping_and_unregistered_default_selects_nothing() {
    let registry = ModelRegistry {
        models: vec![],
        language_mappings: vec![],
        default_model: "ghost-model".to_string(),
        confidence_fallback_enabled: true,
        min_confidence_threshold: 600_000,
    };
    let candidates = registry.get_candidate_models(None);
    assert!(candidates.is_empty());
}

#[test]
fn default_registry_kannada_order() {
    let registry = ModelRegistry::default();
    let candidates = registry.get_candidate_models(Some("kn"));
    assert_eq!(
        candidates,
        vec!["whisper-kannada-small", "whisper-large-v3", "whisper-kannada-base"]
    );
}

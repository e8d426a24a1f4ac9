//! The registry: defaults, lookups, mutation, language projection, and the
//! save/load document round trip.

use dattavani_asr::models::{LanguageMapping, ModelConfig, ModelProvider, ModelRegistry};
use dattavani_asr::registry_file::RegistryParseError;

fn plain_config(id: &str, priority: u8, threshold: u32) -> ModelConfig {
    ModelConfig {
        id: id.to_string(),
        provider: ModelProvider::HuggingFace,
        model_path: format!("hub/{}", id),
        language: Some("kn".to_string()),
        priority,
        confidence_threshold: threshold,
        fallback_models: vec!["whisper-base".to_string()],
        parameters: vec![("beam".to_string(), "5".to_string())],
    }
}

#[test]
fn default_registry_contents() {
    let registry = ModelRegistry::default();
    assert_eq!(registry.models.len(), 4);
    assert_eq!(registry.default_model, "whisper-kannada-small");
    assert!(registry.confidence_fallback_enabled);
    assert_eq!(registry.min_confidence_threshold, 600_000);
    let small = registry.get_model("whisper-kannada-small").unwrap();
    assert_eq!(small.priority, 1);
    assert_eq!(small.confidence_threshold, 750_000);
    assert_eq!(small.language.as_deref(), Some("kn"));
    assert!(registry.get_model("no-such-model").is_none());
}

#[test]
fn add_model_replaces_and_appends() {
    let mut registry = ModelRegistry::default();
    let before = registry.models.len();
    registry.add_model(plain_config("brand-new", 7, 650_000));
    assert_eq!(registry.models.len(), before + 1);
    assert_eq!(registry.get_model("brand-new").unwrap().priority, 7);

    // Adding under an existing identifier replaces in place.
    registry.add_model(plain_config("brand-new", 9, 640_000));
    assert_eq!(registry.models.len(), before + 1);
    assert_eq!(registry.get_model("brand-new").unwrap().priority, 9);
}

#[test]
fn remove_model_reports_presence() {
    let mut registry = ModelRegistry::default();
    assert!(registry.remove_model("whisper-base"));
    assert!(registry.get_model("whisper-base").is_none());
    assert!(!registry.remove_model("whisper-base"));
}

#[test]
fn list_models_for_language_projects_mapping() {
    let registry = ModelRegistry::default();
    let kannada = registry.list_models_for_language("kn");
    let ids: Vec<&str> = kannada.iter().map(|c| c.id.as_str()).collect();
    assert_eq!(ids, vec!["whisper-kannada-small", "whisper-kannada-base", "whisper-large-v3"]);
}

#[test]
fn unknown_language_lists_nothing() {
    let registry = ModelRegistry::default();
    let listed = registry.list_models_for_language("zz");
    assert!(listed.is_empty());
}

#[test]
fn registry_round_trips_through_document() {
    // A registry shaped by add/remove operations survives save-and-load
    // exactly.
    let mut registry = ModelRegistry::default();
    registry.add_model(plain_config("brand-new", 7, 650_000));
    registry.remove_model("whisper-base");
    registry.language_mappings.push(LanguageMapping {
        language: "hi".to_string(),
        model_ids: vec!["brand-new".to_string()],
    });

    let document = registry.to_file_config();
    let reloaded = ModelRegistry::from_file_config(document).unwrap();
    assert_eq!(reloaded, registry);
}

#[test]
fn document_with_bad_threshold_is_rejected() {
    let mut registry = ModelRegistry::default();
    registry.add_model(plain_config("brand-new", 7, 650_000));
    let mut document = registry.to_file_config();
    document.models[1].confidence_threshold = 1_700_000;
    match ModelRegistry::from_file_config(document) {
        Err(RegistryParseError::InvalidModelThreshold { model_id }) => {
            assert_eq!(model_id, "whisper-kannada-base");
        }
        _ => panic!("expected InvalidModelThreshold"),
    }
}

#[test]
fn document_with_bad_floor_is_rejected() {
    let registry = ModelRegistry::default();
    let mut document = registry.to_file_config();
    document.registry.min_confidence_threshold = 2_000_000;
    assert!(matches!(
        ModelRegistry::from_file_config(document),
        Err(RegistryParseError::InvalidMinThreshold)
    ));
}

#[test]
fn document_with_repeated_language_is_rejected() {
    let registry = ModelRegistry::default();
    let mut document = registry.to_file_config();
    let repeat = document.language_mappings.as_ref().unwrap()[0].clone();
    document.language_mappings.as_mut().unwrap().push(repeat);
    match ModelRegistry::from_file_config(document) {
        Err(RegistryParseError::DuplicateLanguage { language }) => {
            assert_eq!(language, "kn");
        }
        _ => panic!("expected DuplicateLanguage"),
    }
}

#[test]
fn later_document_entries_replace_earlier_ones() {
    let registry = ModelRegistry::default();
    let mut document = registry.to_file_config();
    let mut replacement = document.models[0].clone();
    replacement.priority = 42;
    document.models.push(replacement);
    let reloaded = ModelRegistry::from_file_config(document).unwrap();
    assert_eq!(reloaded.models.len(), 4);
    assert_eq!(reloaded.get_model("whisper-kannada-small").unwrap().priority, 42);
}

#[test]
fn provider_support_is_by_backend() {
    assert!(ModelProvider::WhisperCLI.is_supported());
    assert!(ModelProvider::HuggingFace.is_supported());
    assert!(ModelProvider::Native.is_supported());
    assert!(!ModelProvider::OpenAI.is_supported());
    assert!(!ModelProvider::Local.is_supported());
    assert!(!ModelProvider::Custom("mine".to_string()).is_supported());
}

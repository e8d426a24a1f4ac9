//! The fallback loop: early exit, salvage, strict improvement, disabled
//! fallback, attempt bounds, total failure, and the step-driving surface.

use dattavani_asr::engine::{EngineError, TranscriptionOutcome};
use dattavani_asr::manager::ModelManager;
use dattavani_asr::models::{LanguageMapping, ModelConfig, ModelProvider, ModelRegistry};
use dattavani_asr::orchestrator::{EngineReport, FallbackOrchestrator, OrchestrationError};
use dattavani_asr::Config;

fn plain_config(id: &str, priority: u8, threshold: u32) -> ModelConfig {
    ModelConfig {
        id: id.to_string(),
        provider: ModelProvider::WhisperCLI,
        model_path: id.to_string(),
        language: None,
        priority,
        confidence_threshold: threshold,
        fallback_models: vec![],
        parameters: vec![],
    }
}

fn registry_for(ids_thresholds: &[(&str, u32)], fallback_enabled: bool) -> ModelRegistry {
    let mut priority: u8 = 1;
    let mut configs: Vec<ModelConfig> = Vec::new();
    for (id, threshold) in ids_thresholds {
        configs.push(plain_config(id, priority, *threshold));
        priority += 1;
    }
    ModelRegistry {
        models: configs,
        language_mappings: vec![LanguageMapping {
            language: "kn".to_string(),
            model_ids: ids_thresholds.iter().map(|(id, _)| id.to_string()).collect(),
        }],
        default_model: ids_thresholds[0].0.to_string(),
        confidence_fallback_enabled: fallback_enabled,
        min_confidence_threshold: 0,
    }
}

fn ok_report(confidence: Option<u32>, text: &str, time: u64) -> EngineReport {
    EngineReport {
        outcome: Ok(TranscriptionOutcome {
            text: text.to_string(),
            language: None,
            segments: vec![],
            confidence,
        }),
        processing_time: time,
    }
}

fn err_report(message: &str, time: u64) -> EngineReport {
    EngineReport {
        outcome: Err(EngineError { message: message.to_string() }),
        processing_time: time,
    }
}

#[test]
fn early_exit_skips_remaining_candidates() {
    // M1 (threshold 0.9) reports 0.95: the loop stops after one attempt.
    let registry = registry_for(&[("m1", 900_000), ("m2", 500_000)], true);
    let manager = ModelManager::with_registry(Config::default(), registry);
    let reports = vec![ok_report(Some(950_000), "first", 10), ok_report(Some(990_000), "never", 10)];
    let result = manager.run_fallback(Some("kn"), None, &reports, 25).unwrap();
    assert_eq!(result.attempts.len(), 1);
    assert_eq!(result.selected_model, "m1");
    assert_eq!(result.final_result.confidence, Some(950_000));
    assert_eq!(result.final_result.text.as_deref(), Some("first"));
    assert_eq!(result.total_processing_time, 25);
}

#[test]
fn salvage_keeps_first_on_tie() {
    // Both miss their 0.9 threshold with 0.6: the earlier candidate wins.
    let registry = registry_for(&[("m1", 900_000), ("m2", 900_000)], true);
    let manager = ModelManager::with_registry(Config::default(), registry);
    let reports = vec![ok_report(Some(600_000), "first", 5), ok_report(Some(600_000), "second", 5)];
    let result = manager.run_fallback(Some("kn"), None, &reports, 12).unwrap();
    assert_eq!(result.attempts.len(), 2);
    assert_eq!(result.selected_model, "m1");
    assert_eq!(result.final_result.confidence, Some(600_000));
    assert_eq!(result.final_result.text.as_deref(), Some("first"));
}

#[test]
fn strictly_better_confidence_replaces_best() {
    // 0.6 then 0.8, both below 0.9: the strictly better second wins.
    let registry = registry_for(&[("m1", 900_000), ("m2", 900_000)], true);
    let manager = ModelManager::with_registry(Config::default(), registry);
    let reports = vec![ok_report(Some(600_000), "first", 5), ok_report(Some(800_000), "second", 5)];
    let result = manager.run_fallback(Some("kn"), None, &reports, 12).unwrap();
    assert_eq!(result.attempts.len(), 2);
    assert_eq!(result.selected_model, "m2");
    assert_eq!(result.final_result.confidence, Some(800_000));
}

#[test]
fn disabled_fallback_commits_to_first_success() {
    // Fallback disabled: 0.3 is far below the 0.9 threshold, but the loop
    // still stops after the first successful attempt.
    let registry = registry_for(&[("m1", 900_000), ("m2", 900_000)], false);
    let manager = ModelManager::with_registry(Config::default(), registry);
    let reports = vec![ok_report(Some(300_000), "first", 5), ok_report(Some(990_000), "never", 5)];
    let result = manager.run_fallback(Some("kn"), None, &reports, 9).unwrap();
    assert_eq!(result.attempts.len(), 1);
    assert_eq!(result.selected_model, "m1");
    assert_eq!(result.final_result.confidence, Some(300_000));
}

#[test]
fn max_attempts_bounds_the_loop() {
    // Five eligible candidates, max_attempts 2, both failing: exactly two
    // attempts, then AllAttemptsFailed.
    let registry = registry_for(
        &[("m1", 900_000), ("m2", 900_000), ("m3", 900_000), ("m4", 900_000), ("m5", 900_000)],
        true,
    );
    let manager = ModelManager::with_registry(Config::default(), registry);
    let reports = vec![err_report("engine one failed", 3), err_report("engine two failed", 3)];
    let result = manager.run_fallback(Some("kn"), Some(2), &reports, 7);
    match result {
        Err(OrchestrationError::AllAttemptsFailed { attempts }) => {
            assert_eq!(attempts.len(), 2);
        }
        _ => panic!("expected AllAttemptsFailed"),
    }
}

#[test]
fn total_failure_keeps_whole_trail() {
    let registry = registry_for(&[("m1", 900_000), ("m2", 900_000)], true);
    let manager = ModelManager::with_registry(Config::default(), registry);
    let reports = vec![err_report("first diagnostic", 3), err_report("second diagnostic", 4)];
    let result = manager.run_fallback(Some("kn"), None, &reports, 7);
    match result {
        Err(OrchestrationError::AllAttemptsFailed { attempts }) => {
            assert_eq!(attempts.len(), 2);
            assert!(attempts.iter().all(|a| !a.success));
            assert_eq!(attempts[0].model_id, "m1");
            assert_eq!(attempts[0].error.as_deref(), Some("first diagnostic"));
            assert_eq!(attempts[1].model_id, "m2");
            assert_eq!(attempts[1].error.as_deref(), Some("second diagnostic"));
        }
        _ => panic!("expected AllAttemptsFailed"),
    }
}

#[test]
fn missing_configuration_is_recorded_and_skipped() {
    // The mapping lists an unregistered identifier: the attempt is
    // recorded as failed and the loop goes on.
    let mut registry = registry_for(&[("m1", 900_000)], true);
    registry.language_mappings[0].model_ids.push("ghost-model".to_string());
    let manager = ModelManager::with_registry(Config::default(), registry);
    let reports = vec![err_report("engine failed", 3), err_report("unused spare", 0)];
    let result = manager.run_fallback(Some("kn"), None, &reports, 7);
    match result {
        Err(OrchestrationError::AllAttemptsFailed { attempts }) => {
            assert_eq!(attempts.len(), 2);
            assert_eq!(attempts[0].model_id, "m1");
            assert_eq!(attempts[1].model_id, "ghost-model");
            assert!(!attempts[1].success);
            assert_eq!(attempts[1].error.as_deref(), Some("model configuration not found"));
            assert_eq!(attempts[1].processing_time, 0);
        }
        _ => panic!("expected AllAttemptsFailed"),
    }
}

#[test]
fn absent_confidence_never_meets_threshold() {
    // A success without a confidence cannot early-exit even against a
    // zero threshold, and it loses the running-best comparison to any
    // scored success that follows.
    let registry = registry_for(&[("m1", 0), ("m2", 900_000)], true);
    let manager = ModelManager::with_registry(Config::default(), registry);
    let reports = vec![ok_report(None, "unscored", 5), ok_report(Some(100_000), "scored", 5)];
    let result = manager.run_fallback(Some("kn"), None, &reports, 11).unwrap();
    assert_eq!(result.attempts.len(), 2);
    assert_eq!(result.attempts[0].confidence, None);
    assert_eq!(result.selected_model, "m2");
    assert_eq!(result.final_result.confidence, Some(100_000));
}

#[test]
fn no_candidates_is_an_error_before_any_attempt() {
    let registry = ModelRegistry {
        models: vec![],
        language_mappings: vec![],
        default_model: "ghost-model".to_string(),
        confidence_fallback_enabled: true,
        min_confidence_threshold: 0,
    };
    let manager = ModelManager::with_registry(Config::default(), registry);
    let reports: Vec<EngineReport> = vec![];
    let result = manager.run_fallback(None, None, &reports, 0);
    assert!(matches!(result, Err(OrchestrationError::NoCandidates)));
}

#[test]
fn zero_attempts_tries_nothing() {
    // Candidates exist, but a zero bound means the loop never runs: the
    // orchestration fails with an empty trail rather than NoCandidates.
    let registry = registry_for(&[("m1", 900_000)], true);
    let manager = ModelManager::with_registry(Config::default(), registry);
    let reports: Vec<EngineReport> = vec![];
    let result = manager.run_fallback(Some("kn"), Some(0), &reports, 1);
    match result {
        Err(OrchestrationError::AllAttemptsFailed { attempts }) => assert!(attempts.is_empty()),
        _ => panic!("expected AllAttemptsFailed with no attempts"),
    }
}

#[test]
fn attempt_times_are_recorded() {
    let registry = registry_for(&[("m1", 900_000), ("m2", 900_000)], true);
    let manager = ModelManager::with_registry(Config::default(), registry);
    let reports = vec![err_report("boom", 111), ok_report(Some(50_000), "weak", 222)];
    let result = manager.run_fallback(Some("kn"), None, &reports, 400).unwrap();
    assert_eq!(result.attempts[0].processing_time, 111);
    assert_eq!(result.attempts[1].processing_time, 222);
    assert_eq!(result.total_processing_time, 400);
}

#[test]
fn step_driving_matches_prepared_run() {
    // Driving the orchestrator step by step, as a live caller would.
    let registry = registry_for(&[("m1", 900_000), ("m2", 500_000)], true);
    let mut orchestrator = FallbackOrchestrator::new(&registry, Some("kn"), None).unwrap();
    let mut invoked: Vec<String> = Vec::new();
    while !orchestrator.is_finished() {
        match orchestrator.current_config().cloned() {
            Some(config) => {
                invoked.push(config.id.clone());
                let outcome = if config.id == "m1" {
                    Err(EngineError { message: "backend crashed".to_string() })
                } else {
                    Ok(TranscriptionOutcome {
                        text: "recovered".to_string(),
                        language: Some("kn".to_string()),
                        segments: vec![],
                        confidence: Some(720_000),
                    })
                };
                orchestrator.step_report(outcome, 8);
            }
            None => orchestrator.step_missing(),
        }
    }
    let result = orchestrator.finish(20).unwrap();
    assert_eq!(invoked, vec!["m1", "m2"]);
    assert_eq!(result.attempts.len(), 2);
    assert!(!result.attempts[0].success);
    assert!(result.attempts[1].success);
    assert_eq!(result.selected_model, "m2");
    assert_eq!(result.final_result.language.as_deref(), Some("kn"));
    assert_eq!(result.total_processing_time, 20);
}

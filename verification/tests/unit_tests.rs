//! The original component unit tests: audio parameters, device display,
//! model metadata, error construction and language coverage.

use dattavani_asr::audio::AudioProcessor;
use dattavani_asr::device::DeviceType;
use dattavani_asr::error::DattavaniError;
use dattavani_asr::native::{ModelInfo, NativeWhisperModel};

#[test]
fn test_audio_processor_creation() {
    let processor = AudioProcessor::new(16000).unwrap();
    assert_eq!(processor.target_sample_rate, 16000);
    assert_eq!(processor.n_mels, 80);
}

#[test]
fn test_device_type_display() {
    assert_eq!(DeviceType::Cpu.display_string(), "CPU");
    assert_eq!(DeviceType::Cuda(0).display_string(), "CUDA:0");
    assert_eq!(DeviceType::Metal(1).display_string(), "Metal:1");
}

#[test]
fn test_model_info_creation() {
    let info = ModelInfo {
        model_id: "test-model".to_string(),
        vocab_size: 51865,
        max_length: 448,
        sample_rate: 16000,
    };

    assert_eq!(info.model_id, "test-model");
    assert_eq!(info.vocab_size, 51865);
    assert_eq!(info.sample_rate, 16000);
}

#[test]
fn test_error_types() {
    let auth_error = DattavaniError::authentication("test auth error");
    assert!(matches!(auth_error, DattavaniError::Authentication(_)));

    let video_error = DattavaniError::video_processing("test video error");
    assert!(matches!(video_error, DattavaniError::VideoProcessing(_)));
}

#[test]
fn test_language_support() {
    let info = ModelInfo {
        model_id: "test".to_string(),
        vocab_size: 51865,
        max_length: 448,
        sample_rate: 16000,
    };

    let model = NativeWhisperModel { info };

    assert!(model.supports_language("en"));
    assert!(model.supports_language("es"));
    assert!(model.supports_language("fr"));
    assert!(!model.supports_language("xyz"));
}

#[test]
fn test_device_display_large_index() {
    assert_eq!(DeviceType::Cuda(12).display_string(), "CUDA:12");
    assert_eq!(DeviceType::Metal(305).display_string(), "Metal:305");
}

#[test]
fn test_error_messages_kept() {
    let e = DattavaniError::configuration("bad setting");
    match e {
        DattavaniError::Configuration(m) => assert_eq!(m, "bad setting"),
        _ => panic!("wrong variant"),
    }
}

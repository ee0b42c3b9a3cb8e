use speakyfi::base64::{base64_decode, base64_encode};
use speakyfi::config::{dev_machine_key, AppConfig};
use speakyfi::correction::{ollama_model_missing_message, parse_ollama_model_names};
use speakyfi::diagnostics::short_env;
use speakyfi::transcriber::minimum_model_size_bytes;

#[test]
fn base64_decode_handles_float32_pcm_bytes() {
    let encoded = "AAAAAAAAgD8AAIA/";
    let bytes = base64_decode(encoded).unwrap();
    let samples: Vec<f32> = bytes
        .chunks_exact(4)
        .map(|chunk| f32::from_le_bytes([chunk[0], chunk[1], chunk[2], chunk[3]]))
        .collect();

    assert_eq!(samples, vec![0.0, 1.0, 1.0]);
}

#[test]
fn default_config_uses_cloud_or_local_provider_field() {
    let config = AppConfig::default();

    assert_eq!(config.version, "1.6.0");
    assert_eq!(config.language, "auto");
    assert_eq!(config.cloud_provider, "local");
}

#[test]
fn base64_helpers_roundtrip_binary_data() {
    let data = b"speakyfi\0binary\0data";
    let encoded = base64_encode(data);
    let decoded = base64_decode(&encoded).unwrap();

    assert_eq!(decoded, data);
}

#[test]
fn derived_machine_key_is_32_bytes() {
    let key = dev_machine_key();

    assert_eq!(key.len(), 32);
}

#[test]
fn parse_ollama_model_names_reads_names() {
    let models = Some(vec![
        Some("llama3.2:1b".to_string()),
        Some("qwen3:8b".to_string()),
    ]);

    assert_eq!(
        parse_ollama_model_names(models),
        vec!["llama3.2:1b".to_string(), "qwen3:8b".to_string()],
    );
}

#[test]
fn missing_model_message_contains_pull_command() {
    let msg = ollama_model_missing_message("qwen3:8b", &["llama3.2:1b".to_string()]);

    assert!(msg.contains("qwen3:8b"));
    assert!(msg.contains("ollama pull qwen3:8b"));
    assert!(msg.contains("llama3.2:1b"));
}

#[test]
fn short_env_returns_stable_value() {
    assert!(!short_env("GITHUB_SHA", None).is_empty());
}

/// Smoke test: verify that a short sine-wave buffer can be passed through
/// the whisper-rs API surface without panicking (model not required for compile test).
#[test]
fn sine_wave_buffer_is_valid_f32() {
    let sample_rate = 16000u32;
    let duration_s = 1u32;
    let num_samples = (sample_rate * duration_s) as usize;

    let audio: Vec<f32> = (0..num_samples)
        .map(|i| {
            let t = i as f32 / sample_rate as f32;
            (2.0 * std::f32::consts::PI * 440.0 * t).sin() * 0.5
        })
        .collect();

    assert_eq!(audio.len(), num_samples);
    assert!(audio.iter().all(|&s| s >= -1.0 && s <= 1.0));
    // Verify the buffer length matches expectation for 1s @ 16kHz
    assert_eq!(audio.len(), 16000);
}

#[test]
fn model_minimum_sizes_are_nonzero_for_known_models() {
    assert!(minimum_model_size_bytes("tiny") > 0);
    assert!(minimum_model_size_bytes("base") > minimum_model_size_bytes("tiny"));
    assert!(minimum_model_size_bytes("small") > minimum_model_size_bytes("base"));
    assert!(minimum_model_size_bytes("medium") > minimum_model_size_bytes("small"));
}

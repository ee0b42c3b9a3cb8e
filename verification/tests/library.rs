use aes_gcm::aead::{Aead, KeyInit};
use speakyfi::audio::{
    device_list, ptt_start_outcome, resample_plan, PttRecorder, ResamplePlan, VadSegmenter,
    PTT_START_TIMEOUT_MS,
};
use speakyfi::base64::{base64_decode, base64_encode};
use speakyfi::cloud::{
    cloud_provider, deepgram_authorization, deepgram_url, missing_key_message, prepare_cloud_audio,
    requested_language, sample_words, transcript_reply, CloudProvider,
};
use speakyfi::config::{
    derive_machine_key, dev_machine_key, load_api_key_from_store, machine_key_from_uid,
    open_api_key, save_api_key_to_store, save_api_key_to_store_with_nonce, seal_api_key, seal_api_key_with_nonce, AppConfig,
};
use speakyfi::correction::{
    chat_completions_url, correction_mode, correction_prompt, correction_reply,
    http_status_message, is_model_installed, ollama_generate_url, ollama_model_missing_message,
    ollama_model_status, ollama_request_failed_message, ollama_tags_url,
    ollama_unreachable_message, parse_ollama_model_names, require_installed_model,
    CorrectionMode, CORRECTION_PROMPT,
};
use speakyfi::diagnostics::{
    diagnostics_report, key_providers, key_statuses, provider_key_status, short_env, take_chars,
    BuildInfo, DataPaths,
};
use speakyfi::hotkeys::{
    key_is_released, registration_failed_message, HotkeyConfig, HotkeyMessage, HotkeyRegistry,
    LoopAction, HOTKEY_ID_PTT, HOTKEY_ID_VAD,
};
use speakyfi::output::{keyboard_inputs, send_input_outcome, KeyInput};
use speakyfi::text::{decimal, join, trim, trim_end_matches_char};
use speakyfi::transcriber::{
    initial_prompt, is_model_file_complete, join_segments, known_models, local_audio_window,
    local_timeout_message, minimum_model_size_bytes, model_file_name, model_incomplete_message,
    model_not_found_message, model_url,
};
use speakyfi::tray::{tray_menu_action, TrayMenuAction};

// ---- base64 ----

#[test]
fn base64_encode_known_vectors() {
    assert_eq!(base64_encode(b""), "");
    assert_eq!(base64_encode(b"f"), "Zg==");
    assert_eq!(base64_encode(b"fo"), "Zm8=");
    assert_eq!(base64_encode(b"foo"), "Zm9v");
    assert_eq!(base64_encode(b"foobar"), "Zm9vYmFy");
    assert_eq!(base64_encode(&[0xfb, 0xff]), "+/8=");
}

#[test]
fn base64_decode_known_vectors() {
    assert_eq!(base64_decode("Zm9vYmFy").unwrap(), b"foobar".to_vec());
    assert_eq!(base64_decode("Zg==").unwrap(), b"f".to_vec());
    assert_eq!(base64_decode("Zm8").unwrap(), b"fo".to_vec());
    assert_eq!(base64_decode("").unwrap(), Vec::<u8>::new());
    assert_eq!(base64_decode("+/8=").unwrap(), vec![0xfb, 0xff]);
}

#[test]
fn base64_decode_skips_padding_anywhere() {
    assert_eq!(base64_decode("Zm=9v").unwrap(), b"foo".to_vec());
    assert_eq!(base64_decode("==Zg").unwrap(), b"f".to_vec());
}

#[test]
fn base64_decode_rejects_other_characters() {
    assert_eq!(base64_decode("Zm9v!"), Err("invalid base64"));
    assert_eq!(base64_decode("Zm 9v"), Err("invalid base64"));
    assert_eq!(base64_decode("Zé"), Err("invalid base64"));
    assert_eq!(base64_decode("!"), Err("invalid base64"));
}

#[test]
fn base64_roundtrip_every_byte_value() {
    let data: Vec<u8> = (0..=255u8).collect();
    for n in 0..data.len() {
        let encoded = base64_encode(&data[..n]);
        assert_eq!(base64_decode(&encoded).unwrap(), data[..n].to_vec());
    }
}

// ---- machine key and API key sealing ----

#[test]
fn machine_key_from_short_uid_fills_with_pattern() {
    let key = machine_key_from_uid("abc");
    assert_eq!(&key[..3], b"abc");
    for i in 3..32 {
        assert_eq!(key[i], 0x53 ^ (i as u8));
    }
}

#[test]
fn machine_key_from_long_uid_keeps_first_32_bytes() {
    let uid = "0123456789abcdef0123456789abcdefXYZ";
    let key = machine_key_from_uid(uid);
    assert_eq!(&key[..], &uid.as_bytes()[..32]);
}

#[test]
fn machine_key_fallback_identity() {
    assert_eq!(derive_machine_key(None), machine_key_from_uid("speakyfi-fallback-key"));
    assert_eq!(derive_machine_key(Some("abc")), machine_key_from_uid("abc"));
    assert_eq!(&dev_machine_key(), b"speakyfi-dev-key-placeholder----");
}

#[test]
fn sealed_key_opens_to_the_same_key() {
    let mk = dev_machine_key();
    let nonce = [7u8; 12];
    let entry = seal_api_key_with_nonce(&mk, &nonce, "sk-test-123").unwrap();
    assert_eq!(open_api_key(&mk, Some(&entry)), Ok("sk-test-123".to_string()));
    let random_entry = seal_api_key(&mk, "gsk_ünïcode").unwrap();
    assert_eq!(open_api_key(&mk, Some(&random_entry)), Ok("gsk_ünïcode".to_string()));
}

#[test]
fn sealed_entry_holds_nonce_and_real_ciphertext() {
    let mk = dev_machine_key();
    let nonce = [1u8; 12];
    let entry = seal_api_key_with_nonce(&mk, &nonce, "secret").unwrap();
    let raw = base64_decode(&entry).unwrap();
    assert_eq!(&raw[..12], &nonce);
    // the ciphertext and its 16-byte tag, not the plaintext
    assert_eq!(raw.len(), 12 + 6 + 16);
    assert_ne!(&raw[12..18], b"secret");
}

#[test]
fn random_nonces_differ() {
    let mk = dev_machine_key();
    let a = seal_api_key(&mk, "k").unwrap();
    let b = seal_api_key(&mk, "k").unwrap();
    assert_ne!(a, b);
}

#[test]
fn open_api_key_errors() {
    let mk = dev_machine_key();
    assert_eq!(open_api_key(&mk, None), Err("Key not found".to_string()));
    assert_eq!(open_api_key(&mk, Some("!!")), Err("invalid base64".to_string()));
    assert_eq!(open_api_key(&mk, Some("AAAA")), Err("Invalid key data".to_string()));
    let entry = seal_api_key_with_nonce(&mk, &[2u8; 12], "secret").unwrap();
    let other = machine_key_from_uid("another-machine");
    assert_eq!(open_api_key(&other, Some(&entry)), Err("Decryption failed".to_string()));
    let mut raw = base64_decode(&entry).unwrap();
    raw[13] ^= 1;
    let tampered = base64_encode(&raw);
    assert_eq!(open_api_key(&mk, Some(&tampered)), Err("Decryption failed".to_string()));
}

#[test]
fn config_defaults() {
    let c = AppConfig::default();
    assert_eq!(c.ptt_key, 0x11);
    assert_eq!(c.ptt_modifiers, 0);
    assert_eq!(c.vad_toggle_key, 0);
    assert_eq!(c.model, "base");
    assert_eq!(c.prompt, "");
    assert_eq!(c.correction_mode, "off");
    assert_eq!(c.correction_endpoint, "http://localhost:11434");
    assert_eq!(c.correction_model, "llama3.2:1b");
    assert_eq!(c.interface_lang, "en");
}

// ---- correction ----

#[test]
fn correction_modes() {
    assert_eq!(correction_mode("off"), Ok(CorrectionMode::Off));
    assert_eq!(correction_mode("ollama"), Ok(CorrectionMode::Ollama));
    assert_eq!(correction_mode("api"), Ok(CorrectionMode::Api));
    assert_eq!(correction_mode("OFF"), Err("Unknown correction mode: OFF".to_string()));
}

#[test]
fn ollama_status_reports_availability() {
    let installed = vec!["llama3.2:1b".to_string(), "qwen3:8b".to_string()];
    let s = ollama_model_status("http://h".to_string(), "qwen3:8b".to_string(), installed.clone());
    assert!(s.available);
    assert_eq!(s.installed_models, installed);
    let s = ollama_model_status("http://h".to_string(), "qwen3".to_string(), installed);
    assert!(!s.available);
    assert!(!is_model_installed(&[], "x"));
}

#[test]
fn missing_model_messages_exact() {
    assert_eq!(
        ollama_model_missing_message("m", &[]),
        "Ollama model 'm' is not installed. Run `ollama pull m` or choose a model from `ollama list`."
    );
    assert_eq!(
        ollama_model_missing_message("m", &["a".to_string(), "b".to_string()]),
        "Ollama model 'm' is not installed. Installed models: a, b. Run `ollama pull m` or choose an installed model."
    );
    assert_eq!(require_installed_model("a", &["a".to_string()]), Ok(()));
    assert!(require_installed_model("c", &["a".to_string()]).is_err());
}

#[test]
fn model_names_skip_entries_without_name() {
    assert_eq!(parse_ollama_model_names(None), Vec::<String>::new());
    assert_eq!(
        parse_ollama_model_names(Some(vec![None, Some("a".to_string()), None])),
        vec!["a".to_string()]
    );
}

#[test]
fn correction_urls_and_prompt() {
    assert_eq!(ollama_tags_url("http://localhost:11434//"), "http://localhost:11434/api/tags");
    assert_eq!(ollama_generate_url("http://x"), "http://x/api/generate");
    assert_eq!(chat_completions_url("https://api/v1/"), "https://api/v1/chat/completions");
    assert_eq!(correction_prompt("hi"), format!("{}hi", CORRECTION_PROMPT));
    assert!(CORRECTION_PROMPT.starts_with("You are a transcription corrector. Fix grammar"));
    assert!(CORRECTION_PROMPT.ends_with("Preserve the original language. Text: "));
}

#[test]
fn correction_replies() {
    assert_eq!(correction_reply(Some("  fixed text \n"), "Ollama error: ", "{}"), Ok("fixed text".to_string()));
    assert_eq!(
        correction_reply(None, "API error: ", "{\"x\":1}"),
        Err("API error: {\"x\":1}".to_string())
    );
    assert_eq!(
        ollama_unreachable_message("http://h", "refused"),
        "Ollama is not reachable at http://h: refused. Is Ollama running?"
    );
    assert_eq!(ollama_request_failed_message("e"), "Ollama request failed: e. Is Ollama running?");
    assert_eq!(
        http_status_message("Ollama returned HTTP", "404 Not Found", "{}"),
        "Ollama returned HTTP 404 Not Found: {}"
    );
}

// ---- cloud ----

#[test]
fn cloud_providers() {
    assert_eq!(cloud_provider("openai"), Ok(CloudProvider::OpenAi));
    assert_eq!(cloud_provider("groq"), Ok(CloudProvider::Groq));
    assert_eq!(cloud_provider("deepgram"), Ok(CloudProvider::Deepgram));
    assert_eq!(cloud_provider("azure"), Err("Unknown cloud provider: azure".to_string()));
    assert_eq!(CloudProvider::OpenAi.model(), "whisper-1");
    assert_eq!(CloudProvider::Groq.model(), "whisper-large-v3-turbo");
    assert_eq!(
        CloudProvider::Groq.transcription_url(),
        "https://api.groq.com/openai/v1/audio/transcriptions"
    );
}

#[test]
fn cloud_request_parameters() {
    assert_eq!(requested_language("auto"), None);
    assert_eq!(requested_language(""), None);
    assert_eq!(requested_language("de"), Some("de".to_string()));
    assert_eq!(
        deepgram_url("auto"),
        "https://api.deepgram.com/v1/listen?model=nova-2&smart_format=true"
    );
    assert_eq!(
        deepgram_url("fr"),
        "https://api.deepgram.com/v1/listen?model=nova-2&smart_format=true&language=fr"
    );
    assert_eq!(deepgram_authorization("k"), "Token k");
    assert_eq!(missing_key_message("groq"), "No API key configured for provider: groq");
}

#[test]
fn cloud_audio_words() {
    assert_eq!(sample_words(&[1, 2, 3, 4, 5]), vec![[1, 2, 3, 4], [5, 0, 0, 0]]);
    assert_eq!(sample_words(&[]), Vec::<[u8; 4]>::new());
    assert_eq!(
        prepare_cloud_audio("openai", "", "AAAA"),
        Err("No API key configured for provider: openai".to_string())
    );
    assert_eq!(prepare_cloud_audio("openai", "k", "A*AA"), Err("invalid base64".to_string()));
    let words = prepare_cloud_audio("openai", "k", "AAAAAAAAgD8AAIA/").unwrap();
    let samples: Vec<f32> = words.iter().map(|w| f32::from_le_bytes(*w)).collect();
    assert_eq!(samples, vec![0.0, 1.0, 1.0]);
}

#[test]
fn cloud_replies() {
    assert_eq!(transcript_reply(CloudProvider::OpenAi, Some(" hi "), "{}"), Ok(" hi ".to_string()));
    assert_eq!(
        transcript_reply(CloudProvider::Deepgram, None, "{\"err\":1}"),
        Err("Deepgram error: {\"err\":1}".to_string())
    );
    assert_eq!(
        transcript_reply(CloudProvider::Groq, None, "null"),
        Err("Groq error: null".to_string())
    );
}

// ---- transcriber ----

#[test]
fn model_catalogue() {
    assert_eq!(known_models(), vec!["tiny", "base", "small", "medium"]);
    assert_eq!(
        model_url("small"),
        Ok("https://huggingface.co/ggerganov/whisper.cpp/resolve/main/ggml-small.bin")
    );
    assert_eq!(model_url("large"), Err("Unknown model: large".to_string()));
    assert_eq!(model_file_name("tiny"), "ggml-tiny.bin");
    assert_eq!(minimum_model_size_bytes("tiny"), 30 * 1_048_576);
    assert_eq!(minimum_model_size_bytes("medium"), 650 * 1_048_576);
    assert_eq!(minimum_model_size_bytes("custom"), 1);
    assert!(!is_model_file_complete("base", 60 * 1_048_576 - 1));
    assert!(is_model_file_complete("base", 60 * 1_048_576));
    assert!(!is_model_file_complete("custom", 0));
    assert_eq!(
        model_not_found_message("base"),
        "Model 'base' not found. Download it from settings first."
    );
}

#[test]
fn local_audio_window_keeps_last_30_seconds() {
    let audio: Vec<u32> = (0..480_005).collect();
    let w = local_audio_window(audio).unwrap();
    assert_eq!(w.len(), 480_000);
    assert_eq!(w[0], 5);
    assert_eq!(local_audio_window(vec![1u8, 2]).unwrap(), vec![1, 2]);
    assert_eq!(
        local_audio_window(Vec::<f32>::new()),
        Err("No audio samples captured for local transcription.".to_string())
    );
}

#[test]
fn whisper_prompt_and_segments() {
    assert_eq!(initial_prompt("  names: Ivan \t"), Some("names: Ivan".to_string()));
    assert_eq!(initial_prompt(" \n "), None);
    let segments = vec![Some(" Hello ".to_string()), None, Some("world. ".to_string())];
    assert_eq!(join_segments(&segments), "Hello world.");
    assert_eq!(join_segments(&[]), "");
    assert_eq!(
        local_timeout_message(),
        "Local whisper timed out after 120 seconds. Try the tiny/base model or record a shorter phrase."
    );
}

// ---- diagnostics ----

#[test]
fn short_env_values() {
    assert_eq!(short_env("GITHUB_SHA", None), "local");
    assert_eq!(short_env("GITHUB_SHA", Some("0123456789abcdef")), "0123456789ab");
    assert_eq!(short_env("GITHUB_SHA", Some("abc")), "abc");
    assert_eq!(short_env("OTHER", Some("0123456789abcdef")), "local");
    assert_eq!(take_chars("ééé", 2), "éé");
}

#[test]
fn provider_key_statuses() {
    assert_eq!(key_providers(), vec!["openai", "groq", "deepgram"]);
    assert!(provider_key_status("openai".to_string(), Ok("sk".to_string())).configured);
    assert!(!provider_key_status("openai".to_string(), Ok(String::new())).configured);
    assert!(!provider_key_status("groq".to_string(), Err("Key not found".to_string())).configured);
}

#[test]
fn diagnostics_report_fields_and_checks() {
    let paths = DataPaths {
        data_dir: "/d".to_string(),
        config_path: "/d/config.json".to_string(),
        keys_path: "/d/keys.dat".to_string(),
        logs_path: "/d/logs".to_string(),
    };
    let build = BuildInfo {
        package_version: "0.1.0".to_string(),
        commit: Some("abcdef0123456789".to_string()),
        run_id: None,
        local_whisper: false,
    };
    let r = diagnostics_report(paths, AppConfig::default(), build, Vec::new(), Vec::new(), None);
    assert_eq!(r.app_version, "1.6.0");
    assert_eq!(r.build_mode, "cloud-only");
    assert_eq!(r.build_commit, "abcdef012345");
    assert_eq!(r.build_run_id, "local");
    assert_eq!(r.selected_model, "base");
    assert!(!r.local_whisper_enabled);
    assert_eq!(r.checks.len(), 4);
    assert_eq!(r.checks[0].id, "diagnostics.config_path");
    assert_eq!(r.checks[0].status, "ok");
    assert_eq!(r.checks[0].detail, "/d/config.json");
    assert_eq!(r.checks[1].status, "warning");
    assert_eq!(r.checks[1].detail, "local");
    assert_eq!(r.checks[2].status, "warning");
    assert_eq!(r.checks[2].detail, "disabled");
    assert_eq!(r.checks[3].status, "warning");
    assert_eq!(r.checks[3].detail, "0 device(s)");

    let paths = DataPaths {
        data_dir: String::new(),
        config_path: String::new(),
        keys_path: String::new(),
        logs_path: String::new(),
    };
    let build = BuildInfo {
        package_version: "0.1.0".to_string(),
        commit: None,
        run_id: Some("42".to_string()),
        local_whisper: true,
    };
    let devices = vec!["Mic".to_string(), "Headset".to_string()];
    let r = diagnostics_report(paths, AppConfig::default(), build, Vec::new(), devices, Some("Mic".to_string()));
    assert_eq!(r.build_mode, "local-whisper");
    assert_eq!(r.build_commit, "local");
    assert_eq!(r.build_run_id, "42");
    assert_eq!(r.checks[1].status, "ok");
    assert_eq!(r.checks[2].status, "ok");
    assert_eq!(r.checks[2].detail, "enabled");
    assert_eq!(r.checks[3].status, "ok");
    assert_eq!(r.checks[3].detail, "2 device(s)");
    assert_eq!(r.default_input_device, Some("Mic".to_string()));
}

// ---- audio ----

#[test]
fn device_list_marks_default() {
    let list = device_list(vec!["A".to_string(), "B".to_string()], "B");
    assert_eq!(list.len(), 2);
    assert_eq!(list[0].name, "A");
    assert!(!list[0].is_default);
    assert_eq!(list[1].name, "B");
    assert!(list[1].is_default);
    let none = device_list(vec!["A".to_string()], "");
    assert!(!none[0].is_default);
}

#[test]
fn ptt_recorder_returns_what_was_recorded() {
    let mut r: PttRecorder<f32> = PttRecorder::new();
    r.record(vec![9.0]);
    assert!(r.start());
    assert!(!r.start());
    r.capture_ready(48_000);
    r.record(vec![0.5, 0.25]);
    r.record(vec![-1.0]);
    assert_eq!(r.stop(), Ok((vec![0.5, 0.25, -1.0], 48_000)));
    assert!(!r.recording);
    r.record(vec![1.0]);
    assert_eq!(r.stop(), Ok((Vec::new(), 48_000)));
}

#[test]
fn ptt_recorder_reports_capture_errors() {
    let mut r: PttRecorder<f32> = PttRecorder::new();
    assert!(r.start());
    r.capture_failed("No input device available".to_string());
    assert_eq!(r.stop(), Err("No input device available".to_string()));
    assert!(r.start());
    r.stream_failed("device unplugged");
    assert_eq!(r.stop(), Err("Audio stream error: device unplugged".to_string()));
    assert!(r.start());
    assert_eq!(r.stop(), Ok((Vec::new(), 16_000)));
}

#[test]
fn vad_segments_after_speech_and_silence() {
    let mut v: VadSegmenter<u8> = VadSegmenter::new();
    assert_eq!(v.step(vec![0; 320], false), None);
    assert!(v.buffer.is_empty());
    assert_eq!(v.step(vec![1; 4000], true), None);
    assert!(!v.in_speech);
    assert_eq!(v.step(vec![1; 800], true), None);
    assert!(v.in_speech);
    assert_eq!(v.step(vec![], false), None);
    assert_eq!(v.step(vec![0; 15_999], false), None);
    let seg = v.step(vec![0; 1], false).unwrap();
    assert_eq!(seg.len(), 4800 + 16_000);
    assert!(!v.in_speech);
    assert!(v.buffer.is_empty());
    assert_eq!(v.speech_count, 0);
}

#[test]
fn vad_discards_a_blip_before_speech() {
    let mut v: VadSegmenter<u8> = VadSegmenter::new();
    assert_eq!(v.step(vec![7; 100], true), None);
    assert_eq!(v.step(vec![0; 100], false), None);
    assert_eq!(v.speech_count, 0);
    assert!(v.buffer.is_empty());
    assert_eq!(v.step(vec![1; 4800], true), None);
    assert!(v.in_speech);
    let seg = v.step(vec![0; 16_000], false).unwrap();
    assert_eq!(seg.len(), 4800 + 16_000);
    assert!(seg.iter().all(|&x| x != 7));
    assert_eq!(&seg[..4800], &vec![1u8; 4800][..]);
}

#[test]
fn resample_plans() {
    assert_eq!(resample_plan(48_000, 48_000), ResamplePlan::Interpolate { output_len: 16_000 });
    assert_eq!(resample_plan(3, 16_000), ResamplePlan::Unchanged);
    assert_eq!(resample_plan(0, 48_000), ResamplePlan::Empty);
    assert_eq!(resample_plan(10, 0), ResamplePlan::Empty);
    assert_eq!(resample_plan(2, 48_000), ResamplePlan::Empty);
    assert_eq!(resample_plan(441, 44_100), ResamplePlan::Interpolate { output_len: 160 });
}

// ---- hotkeys ----

#[test]
fn hotkey_registry_register_and_unregister() {
    let mut r = HotkeyRegistry::new();
    assert!(!r.register_ptt(0x11, 0));
    assert!(r.thread_running);
    assert!(r.register_vad_toggle(0x56, 2));
    assert_eq!(r.ptt, Some(HotkeyConfig { key: 0x11, modifiers: 0 }));
    assert_eq!(r.vad, Some(HotkeyConfig { key: 0x56, modifiers: 2 }));
    r.unregister_all();
    assert_eq!(r, HotkeyRegistry::new());
}

#[test]
fn hotkey_loop_press_once_per_hold() {
    let mut r = HotkeyRegistry::new();
    let ptt = HotkeyMessage::Hotkey { id: HOTKEY_ID_PTT };
    assert_eq!(r.on_message(ptt, Some(0x11)), LoopAction::PttPress { watch_release: Some(0x11) });
    assert_eq!(r.on_message(ptt, Some(0x11)), LoopAction::Continue);
    r.on_ptt_release();
    assert_eq!(r.on_message(ptt, None), LoopAction::PttPress { watch_release: None });
    assert_eq!(r.on_message(HotkeyMessage::Hotkey { id: HOTKEY_ID_VAD }, None), LoopAction::VadToggle);
    assert_eq!(r.on_message(HotkeyMessage::Hotkey { id: 7 }, None), LoopAction::Continue);
    assert_eq!(r.on_message(HotkeyMessage::Other, None), LoopAction::Continue);
    assert_eq!(r.on_message(HotkeyMessage::Quit, None), LoopAction::Exit);
    r.on_loop_exit();
    assert!(!r.ptt_pressed);
}

#[test]
fn key_release_bit() {
    assert!(key_is_released(0));
    assert!(key_is_released(1));
    assert!(!key_is_released(-0x8000));
    assert!(!key_is_released(-1));
    assert_eq!(
        registration_failed_message("PTT", HotkeyConfig { key: 17, modifiers: 2 }),
        "Failed to register PTT hotkey: key=17, modifiers=2"
    );
}

// ---- output and tray ----

#[test]
fn keyboard_events_per_character() {
    let events = keyboard_inputs("hé😀");
    assert_eq!(events.len(), 8);
    assert_eq!(events[0], KeyInput { scan: 'h' as u16, key_up: false });
    assert_eq!(events[1], KeyInput { scan: 'h' as u16, key_up: true });
    assert_eq!(events[2], KeyInput { scan: 0xe9, key_up: false });
    assert_eq!(events[3], KeyInput { scan: 0xe9, key_up: true });
    assert_eq!(events[4], KeyInput { scan: 0xd83d, key_up: false });
    assert_eq!(events[5], KeyInput { scan: 0xd83d, key_up: true });
    assert_eq!(events[6], KeyInput { scan: 0xde00, key_up: false });
    assert_eq!(events[7], KeyInput { scan: 0xde00, key_up: true });
    let units: Vec<u16> = events.iter().step_by(2).map(|e| e.scan).collect();
    assert_eq!(units, "hé😀".encode_utf16().collect::<Vec<u16>>());
    assert!(keyboard_inputs("").is_empty());
    assert_eq!(send_input_outcome(4, 4), Ok(()));
    assert_eq!(send_input_outcome(1, 4), Err("SendInput: sent 1/4 events".to_string()));
}

#[test]
fn tray_menu() {
    assert_eq!(tray_menu_action("quit"), TrayMenuAction::Quit);
    assert_eq!(tray_menu_action("settings"), TrayMenuAction::ShowSettings);
    assert_eq!(tray_menu_action("other"), TrayMenuAction::Ignore);
}

// ---- text ----

#[test]
fn text_helpers() {
    assert_eq!(trim("\u{3000} a b \u{85}"), "a b");
    assert_eq!(trim("   "), "");
    assert_eq!(trim_end_matches_char("a//", '/'), "a");
    assert_eq!(trim_end_matches_char("/", '/'), "");
    assert_eq!(join(&["x".to_string()], ", "), "x");
    assert_eq!(join(&[], ", "), "");
    assert_eq!(decimal(0), "0");
    assert_eq!(decimal(1234567890), "1234567890");
}

#[test]
fn open_api_key_reports_non_utf8_plaintext() {
    let mk = dev_machine_key();
    let nonce = [3u8; 12];
    let cipher = aes_gcm::Aes256Gcm::new(aes_gcm::Key::<aes_gcm::Aes256Gcm>::from_slice(&mk));
    let ciphertext = cipher
        .encrypt(aes_gcm::Nonce::from_slice(&nonce), &[0xffu8, 0x41][..])
        .unwrap();
    let mut combined = nonce.to_vec();
    combined.extend_from_slice(&ciphertext);
    let entry = base64_encode(&combined);
    assert_eq!(
        open_api_key(&mk, Some(&entry)),
        Err("invalid utf-8 sequence of 1 bytes from index 0".to_string())
    );
}

// ---- added behaviour ----

#[test]
fn base64_lengths() {
    for n in 0..20usize {
        let data: Vec<u8> = (0..n as u8).collect();
        let text = base64_encode(&data);
        assert_eq!(text.len(), 4 * ((n + 2) / 3));
        assert_eq!(base64_decode(&text).unwrap().len(), n);
    }
    assert_eq!(base64_decode("QUJD").unwrap().len(), 3);
    assert_eq!(base64_decode("QUI").unwrap().len(), 2);
    assert_eq!(base64_decode("QQ").unwrap().len(), 1);
    assert_eq!(base64_decode("QU=JD").unwrap(), b"ABC".to_vec());
}

#[test]
fn ptt_start_outcomes() {
    assert_eq!(PTT_START_TIMEOUT_MS, 1500);
    assert_eq!(ptt_start_outcome(Some(Ok(()))), Ok(()));
    assert_eq!(ptt_start_outcome(Some(Err("No input device available".to_string()))),
        Err("No input device available".to_string()));
    assert_eq!(ptt_start_outcome(None), Err("Audio capture did not start within 1500ms".to_string()));
}

#[test]
fn incomplete_model_message() {
    assert_eq!(
        model_incomplete_message("base", "12.5"),
        "Model 'base' looks incomplete (12.5 MB). Delete it and download it again."
    );
}

#[test]
fn key_statuses_keep_only_whether_a_key_is_set() {
    let a = key_statuses(vec![
        Ok("sk-secret".to_string()),
        Ok(String::new()),
        Err("Key not found".to_string()),
    ]);
    let b = key_statuses(vec![
        Ok("other".to_string()),
        Ok(String::new()),
        Err("Decryption failed".to_string()),
    ]);
    let view = |v: &Vec<speakyfi::diagnostics::ProviderKeyStatus>| {
        v.iter().map(|s| (s.provider.clone(), s.configured)).collect::<Vec<_>>()
    };
    assert_eq!(view(&a), vec![
        ("openai".to_string(), true),
        ("groq".to_string(), false),
        ("deepgram".to_string(), false),
    ]);
    assert_eq!(view(&a), view(&b));
}

#[test]
fn vad_blip_then_speech_gives_only_the_speech_run() {
    let mut v: VadSegmenter<u8> = VadSegmenter::new();
    assert_eq!(v.step(vec![9; 4799], true), None);
    assert!(!v.in_speech);
    assert_eq!(v.step(vec![0; 10], false), None);
    assert!(v.buffer.is_empty());
    assert_eq!(v.step(vec![2; 5000], true), None);
    assert_eq!(v.step(vec![0; 8000], false), None);
    let seg = v.step(vec![0; 8000], false).unwrap();
    assert_eq!(seg.len(), 21_000);
    assert_eq!(seg[0], 2);
}

#[test]
fn key_store_round_trip() {
    let mk = dev_machine_key();
    assert_eq!(load_api_key_from_store(&mk, None, "openai"), Ok(String::new()));

    let first = save_api_key_to_store(&mk, None, "openai", "sk-one").unwrap();
    assert_eq!(load_api_key_from_store(&mk, Some(&first), "openai"), Ok("sk-one".to_string()));
    assert_eq!(
        load_api_key_from_store(&mk, Some(&first), "groq"),
        Err("Key not found".to_string())
    );

    let second = save_api_key_to_store(&mk, Some(&first), "groq", "gsk-two").unwrap();
    assert_eq!(load_api_key_from_store(&mk, Some(&second), "openai"), Ok("sk-one".to_string()));
    assert_eq!(load_api_key_from_store(&mk, Some(&second), "groq"), Ok("gsk-two".to_string()));

    let v: serde_json::Value = serde_json::from_str(&second).unwrap();
    assert!(v.as_object().unwrap().len() == 2);
}

#[test]
fn key_store_edge_cases() {
    let mk = dev_machine_key();
    let from_garbage = save_api_key_to_store(&mk, Some("not json"), "openai", "k").unwrap();
    assert_eq!(load_api_key_from_store(&mk, Some(&from_garbage), "openai"), Ok("k".to_string()));
    let from_null = save_api_key_to_store(&mk, Some("null"), "openai", "k").unwrap();
    assert_eq!(load_api_key_from_store(&mk, Some(&from_null), "openai"), Ok("k".to_string()));
    assert_eq!(
        save_api_key_to_store(&mk, Some("[1, 2]"), "openai", "k"),
        Err("Key store is not a JSON object".to_string())
    );

    let parse_error = serde_json::from_str::<serde_json::Value>("not json").unwrap_err().to_string();
    assert_eq!(load_api_key_from_store(&mk, Some("not json"), "openai"), Err(parse_error));
    assert_eq!(
        load_api_key_from_store(&mk, Some(r#"{"openai": 5}"#), "openai"),
        Err("Key not found".to_string())
    );
    assert_eq!(
        load_api_key_from_store(&mk, Some(r#"{"openai": "A"}"#), "openai"),
        Err("invalid base64".to_string())
    );
    assert_eq!(
        load_api_key_from_store(&mk, Some(r#"{"openai": "QUJD"}"#), "openai"),
        Err("Invalid key data".to_string())
    );
}

#[test]
fn base64_padding_only_at_the_end() {
    for n in 0..12usize {
        let text = base64_encode(&vec![0xffu8; n]);
        let pad = (3 - n % 3) % 3;
        assert!(text[..text.len() - pad].chars().all(|c| c != '='));
        assert!(text[text.len() - pad..].chars().all(|c| c == '='));
    }
}

#[test]
fn key_store_with_fixed_nonce_is_exact() {
    let mk = dev_machine_key();
    let nonce = [7u8; 12];
    let cipher = aes_gcm::Aes256Gcm::new(aes_gcm::Key::<aes_gcm::Aes256Gcm>::from_slice(&mk));
    let ct = cipher.encrypt(aes_gcm::Nonce::from_slice(&nonce), b"sk-x".as_ref()).unwrap();
    let mut combined = nonce.to_vec();
    combined.extend_from_slice(&ct);
    let entry = base64_encode(&combined);

    let mut expected = serde_json::Map::new();
    expected.insert("other".to_string(), serde_json::Value::from(3));
    expected.insert("openai".to_string(), serde_json::Value::String(entry));
    let got = save_api_key_to_store_with_nonce(&mk, &nonce, Some(r#"{"other": 3}"#), "openai", "sk-x");
    assert_eq!(got, Ok(serde_json::Value::Object(expected).to_string()));

    assert_eq!(
        save_api_key_to_store_with_nonce(&mk, &nonce, Some("\"text\""), "openai", "sk-x"),
        Err("Key store is not a JSON object".to_string())
    );
    let fresh = save_api_key_to_store_with_nonce(&mk, &nonce, None, "groq", "k").unwrap();
    assert_eq!(
        save_api_key_to_store_with_nonce(&mk, &nonce, Some("null"), "groq", "k"),
        Ok(fresh.clone())
    );
    assert_eq!(
        save_api_key_to_store_with_nonce(&mk, &nonce, Some("{broken"), "groq", "k"),
        Ok(fresh)
    );
}

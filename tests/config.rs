use meeting_recorder::config::{AppConfig, ModelInfo};
use meeting_recorder::text::join_path;

#[test]
fn paths_join_like_a_path_buffer() {
    assert_eq!(join_path("a/b", "c.wav"), "a/b/c.wav");
    assert_eq!(join_path("a/b/", "c.wav"), "a/b/c.wav");
    assert_eq!(join_path("", "c.wav"), "c.wav");
    assert_eq!(join_path("a", "/abs"), "/abs");
}

#[test]
fn data_dir_lies_under_the_platform_directory() {
    assert_eq!(AppConfig::data_dir_in(&Some("/home/u/.local/share".to_string())), "/home/u/.local/share/meeting-recorder");
    assert_eq!(AppConfig::data_dir_in(&None), "./meeting-recorder");
    assert!(AppConfig::data_dir().ends_with("/meeting-recorder"));
    assert!(AppConfig::models_dir().ends_with("meeting-recorder/models"));
    assert!(AppConfig::config_path().ends_with("meeting-recorder/config.json"));
}

#[test]
fn model_paths_follow_the_chosen_files() {
    let mut cfg = AppConfig::default();
    assert!(cfg.needs_setup());
    assert_eq!(cfg.whisper_model_path(), None);
    assert_eq!(cfg.llm_model_path(), None);
    cfg.whisper_model = Some("ggml-base.en.bin".to_string());
    cfg.setup_complete = true;
    assert!(!cfg.needs_setup());
    let p = cfg.whisper_model_path().unwrap();
    assert!(p.ends_with("meeting-recorder/models/ggml-base.en.bin"));
    assert_eq!(
        AppConfig::model_path_in("/m", &Some("x.gguf".to_string())),
        Some("/m/x.gguf".to_string())
    );
}

#[test]
fn model_lists() {
    let w = ModelInfo::whisper_models(false);
    assert_eq!(w.len(), 3);
    assert_eq!(w[0].id, "whisper-base-en");
    assert_eq!(w[2].size_bytes, 1_533_000_000);
    assert_eq!(w[1].filename, "ggml-small.en.bin");
    let l = ModelInfo::llm_models(false);
    assert_eq!(l.len(), 2);
    assert_eq!(l[0].url, "https://huggingface.co/Qwen/Qwen3-1.7B-GGUF/resolve/main/Qwen3-1.7B-Q8_0.gguf");
    assert_eq!(l[1].size_bytes, 4_300_000_000);
    let d = ModelInfo::whisper_models(true);
    assert_eq!(d.len(), 1);
    assert_eq!(d[0].filename, "whisper-dev.bin");
    assert_eq!(ModelInfo::llm_models(true)[0].id, "llm-dev");
}

use sherpa_onnx_openai_server::config::{
    merge_voice_entries, ensure_dir, ensure_file, optional_existing_dir, optional_existing_file, parse_csv_env,
    AppConfig, ConfigError, EnvVars, PathProbe,
};

fn env(pairs: &[(&str, &str)]) -> EnvVars {
    EnvVars::new(pairs.iter().map(|(k, v)| (k.to_string(), v.to_string())).collect())
}

fn probe(files: &[&str], dirs: &[&str]) -> PathProbe {
    PathProbe::new(
        files.iter().map(|s| s.to_string()).collect(),
        dirs.iter().map(|s| s.to_string()).collect(),
    )
}

fn full_model_dir() -> PathProbe {
    probe(
        &[
            "/models/kokoro/model.onnx",
            "/models/kokoro/voices.bin",
            "/models/kokoro/tokens.txt",
            "/models/kokoro/lexicon-us-en.txt",
            "/models/kokoro/lexicon-zh.txt",
        ],
        &["/models/kokoro/espeak-ng-data", "/models/kokoro/dict"],
    )
}

fn message(err: ConfigError) -> String {
    err.message()
}

#[test]
fn model_dir_layout_is_resolved() {
    let e = env(&[("MODEL_DIR", "/models"), ("MODEL_NAME", "kokoro")]);
    let cfg = AppConfig::from_env(&e, &full_model_dir()).unwrap();
    assert_eq!(cfg.tts.model, "/models/kokoro/model.onnx");
    assert_eq!(cfg.tts.voices, "/models/kokoro/voices.bin");
    assert_eq!(cfg.tts.tokens, "/models/kokoro/tokens.txt");
    assert_eq!(cfg.tts.data_dir, "/models/kokoro/espeak-ng-data");
    assert_eq!(
        cfg.tts.lexicon.as_deref(),
        Some("/models/kokoro/lexicon-us-en.txt,/models/kokoro/lexicon-zh.txt")
    );
    assert_eq!(cfg.tts.dict_dir.as_deref(), Some("/models/kokoro/dict"));
    assert_eq!(cfg.tts.lang, None);
    assert_eq!(cfg.tts.provider, "cuda");
    assert_eq!(cfg.tts.num_threads, 1);
    assert!(!cfg.tts.debug);
    assert_eq!(cfg.bind_addr, "0.0.0.0:8080");
    assert_eq!(cfg.api_key, None);
    assert_eq!(cfg.model_aliases, vec!["tts-1", "tts-1-hd", "gpt-4o-mini-tts"]);
    assert_eq!(cfg.max_concurrent_synthesis, 1);
    assert_eq!(cfg.voice_map.get("alloy"), Some(&0));
}

#[test]
fn probe_paths_cover_the_model_dir_layout() {
    let e = env(&[("MODEL_DIR", "/models"), ("MODEL_NAME", "kokoro")]);
    assert_eq!(
        AppConfig::probe_paths(&e),
        vec![
            "/models/kokoro/model.onnx",
            "/models/kokoro/voices.bin",
            "/models/kokoro/tokens.txt",
            "/models/kokoro/espeak-ng-data",
            "/models/kokoro/data/espeak-ng-data",
            "/models/kokoro/lexicon-us-en.txt",
            "/models/kokoro/lexicon-zh.txt",
            "/models/kokoro/dict",
        ]
    );
}

#[test]
fn nested_data_dir_and_optional_files_are_detected() {
    let e = env(&[("MODEL_DIR", "/m/")]);
    let fs = probe(
        &["/m/model.onnx", "/m/voices.bin", "/m/tokens.txt", "/m/lexicon-zh.txt"],
        &["/m/data/espeak-ng-data"],
    );
    let cfg = AppConfig::from_env(&e, &fs).unwrap();
    assert_eq!(cfg.tts.data_dir, "/m/data/espeak-ng-data");
    assert_eq!(cfg.tts.lexicon.as_deref(), Some("/m/lexicon-zh.txt"));
    assert_eq!(cfg.tts.dict_dir, None);
}

#[test]
fn overrides_win_over_model_dir() {
    let e = env(&[
        ("MODEL_DIR", "/models"),
        ("KOKORO_MODEL", "/elsewhere/m.onnx"),
        ("KOKORO_VOICES_FILE", "v2.bin"),
        ("KOKORO_DATA_DIR", "/data"),
        ("KOKORO_LEXICON", "/a.txt,/b.txt"),
        ("KOKORO_DICT_DIR", "/dict"),
        ("KOKORO_LANG", "en-us"),
        ("SHERPA_ONNX_PROVIDER", "cpu"),
        ("SHERPA_ONNX_NUM_THREADS", "-2"),
        ("SHERPA_ONNX_DEBUG", "true"),
        ("OPENAI_API_KEY", "k"),
        ("BIND_ADDR", "127.0.0.1:9000"),
        ("MODEL_ALIASES", " a , b ,"),
        ("MAX_CONCURRENT_SYNTHESIS", "3"),
    ]);
    let fs = probe(
        &["/elsewhere/m.onnx", "/models/v2.bin", "/models/tokens.txt", "/a.txt", "/b.txt"],
        &["/data", "/dict"],
    );
    let cfg = AppConfig::from_env(&e, &fs).unwrap();
    assert_eq!(cfg.tts.model, "/elsewhere/m.onnx");
    assert_eq!(cfg.tts.voices, "/models/v2.bin");
    assert_eq!(cfg.tts.data_dir, "/data");
    assert_eq!(cfg.tts.lexicon.as_deref(), Some("/a.txt,/b.txt"));
    assert_eq!(cfg.tts.dict_dir.as_deref(), Some("/dict"));
    assert_eq!(cfg.tts.lang.as_deref(), Some("en-us"));
    assert_eq!(cfg.tts.provider, "cpu");
    assert_eq!(cfg.tts.num_threads, -2);
    assert!(cfg.tts.debug);
    assert_eq!(cfg.api_key.as_deref(), Some("k"));
    assert_eq!(cfg.bind_addr, "127.0.0.1:9000");
    assert_eq!(cfg.model_aliases, vec!["a", "b"]);
    assert_eq!(cfg.max_concurrent_synthesis, 3);
}

#[test]
fn missing_model_is_reported() {
    let err = AppConfig::from_env(&env(&[]), &probe(&[], &[])).unwrap_err();
    assert_eq!(message(err), "KOKORO_MODEL is required");
}

#[test]
fn missing_files_are_reported_unless_mocked() {
    let e = env(&[("MODEL_DIR", "/models")]);
    let err = AppConfig::from_env(&e, &probe(&[], &[])).unwrap_err();
    assert_eq!(
        message(err),
        "KOKORO_MODEL does not point to an existing file: /models/model.onnx"
    );
    let e = env(&[("MODEL_DIR", "/models"), ("MOCK_TTS", "true")]);
    let cfg = AppConfig::from_env(&e, &probe(&[], &[])).unwrap();
    assert_eq!(cfg.tts.data_dir, "/models/espeak-ng-data");
    let e = env(&[("MODEL_DIR", "/models"), ("MOCK_TTS", "TRUE")]);
    assert!(AppConfig::from_env(&e, &probe(&[], &[])).is_err());
}

#[test]
fn missing_data_dir_is_reported() {
    let e = env(&[("MODEL_DIR", "/m")]);
    let fs = probe(&["/m/model.onnx", "/m/voices.bin", "/m/tokens.txt"], &[]);
    let err = AppConfig::from_env(&e, &fs).unwrap_err();
    assert_eq!(
        message(err),
        "KOKORO_DATA_DIR does not point to an existing directory: /m/espeak-ng-data"
    );
}

#[test]
fn config_errors_in_order() {
    let ok_tts = [("MODEL_DIR", "/m"), ("MOCK_TTS", "true")];
    let with = |extra: &[(&str, &str)]| {
        let mut pairs: Vec<(&str, &str)> = ok_tts.to_vec();
        pairs.extend_from_slice(extra);
        AppConfig::from_env(&env(&pairs), &probe(&[], &[]))
    };
    assert_eq!(
        message(with(&[("MODEL_ALIASES", " , ")]).unwrap_err()),
        "MODEL_ALIASES must contain at least one model alias"
    );
    assert_eq!(
        message(with(&[("VOICE_MAP_JSON", "[1]")]).unwrap_err()),
        "VOICE_MAP_JSON must be a JSON object of voice names to speaker ids"
    );
    assert_eq!(
        message(with(&[("MAX_CONCURRENT_SYNTHESIS", "x")]).unwrap_err()),
        "MAX_CONCURRENT_SYNTHESIS must be a positive integer"
    );
    assert_eq!(
        message(with(&[("MAX_CONCURRENT_SYNTHESIS", "0")]).unwrap_err()),
        "MAX_CONCURRENT_SYNTHESIS must be greater than zero"
    );
    assert_eq!(
        message(with(&[("SHERPA_ONNX_NUM_THREADS", "two")]).unwrap_err()),
        "SHERPA_ONNX_NUM_THREADS must be an integer"
    );
    assert_eq!(
        message(with(&[("SHERPA_ONNX_DEBUG", "yes")]).unwrap_err()),
        "SHERPA_ONNX_DEBUG must be true or false"
    );
    assert!(with(&[("SHERPA_ONNX_DEBUG", "   ")]).is_ok());
}

#[test]
fn voice_map_json_extends_defaults_with_lowercase_names() {
    let e = env(&[
        ("MODEL_DIR", "/m"),
        ("MOCK_TTS", "true"),
        ("VOICE_MAP_JSON", r#"{"Alloy":7,"zf_xiaobei":40}"#),
    ]);
    let cfg = AppConfig::from_env(&e, &probe(&[], &[])).unwrap();
    assert_eq!(cfg.voice_map.get("alloy"), Some(&7));
    assert_eq!(cfg.voice_map.get("zf_xiaobei"), Some(&40));
    assert_eq!(cfg.voice_map.get("echo"), Some(&1));
}

#[test]
fn csv_env_ignores_blank_values() {
    assert_eq!(parse_csv_env(&env(&[("MODEL_ALIASES", "   ")]), "MODEL_ALIASES"), None);
    assert_eq!(parse_csv_env(&env(&[]), "MODEL_ALIASES"), None);
    assert_eq!(
        parse_csv_env(&env(&[("MODEL_ALIASES", "x,,y")]), "MODEL_ALIASES"),
        Some(vec!["x".to_string(), "y".to_string()])
    );
}

#[test]
fn existence_checks() {
    let fs = probe(&["/f"], &["/d"]);
    assert!(ensure_file(&fs, "K", "/f").is_ok());
    assert_eq!(message(ensure_file(&fs, "K", "/d").unwrap_err()), "K does not point to an existing file: /d");
    assert!(ensure_dir(&fs, "K", "/d").is_ok());
    assert_eq!(message(ensure_dir(&fs, "K", "/f").unwrap_err()), "K does not point to an existing directory: /f");
    let e = env(&[("LEX", "/f,/g"), ("DICT", "/d")]);
    assert_eq!(
        message(optional_existing_file(&e, &fs, "LEX").unwrap_err()),
        "LEX does not point to an existing file: /f,/g"
    );
    assert_eq!(optional_existing_file(&e, &fs, "NONE").unwrap(), None);
    assert_eq!(optional_existing_dir(&e, &fs, "DICT").unwrap().as_deref(), Some("/d"));
}

#[test]
fn blank_model_paths_are_kept_as_set() {
    let e = env(&[
        ("MOCK_TTS", "true"),
        ("MODEL_DIR", "/models"),
        ("KOKORO_MODEL", ""),
        ("KOKORO_VOICES", " "),
        ("KOKORO_TOKENS", "t"),
        ("KOKORO_DATA_DIR", ""),
    ]);
    let cfg = AppConfig::from_env(&e, &probe(&[], &[])).unwrap();
    assert_eq!(cfg.tts.model, "");
    assert_eq!(cfg.tts.voices, " ");
    assert_eq!(cfg.tts.tokens, "t");
    assert_eq!(cfg.tts.data_dir, "");
    let e = env(&[("KOKORO_MODEL", "")]);
    assert_eq!(
        message(AppConfig::from_env(&e, &probe(&[], &[])).unwrap_err()),
        "KOKORO_MODEL does not point to an existing file: "
    );
}

#[test]
fn mocked_paths_need_not_exist() {
    let e = env(&[
        ("MOCK_TTS", "true"),
        ("KOKORO_MODEL", "p1"),
        ("KOKORO_VOICES", "p2"),
        ("KOKORO_TOKENS", "p3"),
        ("KOKORO_DATA_DIR", "p4"),
    ]);
    let cfg = AppConfig::from_env(&e, &probe(&[], &[])).unwrap();
    assert_eq!(
        (cfg.tts.model.as_str(), cfg.tts.voices.as_str(), cfg.tts.tokens.as_str(), cfg.tts.data_dir.as_str()),
        ("p1", "p2", "p3", "p4")
    );
    let e = env(&[
        ("MOCK_TTS", "true"),
        ("KOKORO_MODEL", "p1"),
        ("KOKORO_VOICES", "p2"),
        ("KOKORO_TOKENS", "p3"),
    ]);
    assert_eq!(
        message(AppConfig::from_env(&e, &probe(&[], &[])).unwrap_err()),
        "KOKORO_DATA_DIR is required"
    );
}

#[test]
fn merged_voice_entries_are_lowercased() {
    let merged = merge_voice_entries(
        sherpa_onnx_openai_server::voices::default_voice_map(),
        &vec![("NOVA".to_string(), 9), ("Zf_Xiaobei".to_string(), 40)],
    );
    assert_eq!(merged.get("nova"), Some(&9));
    assert_eq!(merged.get("zf_xiaobei"), Some(&40));
    assert_eq!(merged.get("alloy"), Some(&0));
}

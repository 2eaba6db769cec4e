use sherpa_onnx_openai_server::audio::{SpeechResponseFormat, SpeechResponseFormatExt};
use sherpa_onnx_openai_server::error::ApiError;
use sherpa_onnx_openai_server::service::{
    authorize, list_models, prepare_speech, speech_model_id, state_from_parts, validate_request,
    voice_id, AppState, SpeechModel, SpeechRequest, Voice, DEFAULT_SPEED_BITS,
};
use sherpa_onnx_openai_server::voices::default_voice_map;

fn state(api_key: Option<&str>) -> AppState {
    state_from_parts(
        vec!["tts-1".to_owned(), "gpt-4o-mini-tts".to_owned()],
        default_voice_map(),
        api_key.map(str::to_owned),
    )
}

fn request(model: SpeechModel, input: &str, voice: &str) -> SpeechRequest {
    SpeechRequest {
        model,
        input: input.to_owned(),
        voice: Voice::Named(voice.to_owned()),
        response_format: None,
        speed_bits: None,
    }
}

fn expect_invalid(result: Result<impl std::fmt::Debug, ApiError>, param: &str) -> ApiError {
    let err = result.unwrap_err();
    assert_eq!(err.status, 400);
    assert_eq!(err.error_type, "invalid_request_error");
    assert_eq!(err.param.as_deref(), Some(param));
    assert_eq!(err.code, None);
    err
}

#[test]
fn models_requires_auth_when_key_is_configured() {
    let st = state(Some("secret"));
    let err = list_models(&st, None, 7).unwrap_err();
    assert_eq!(err.status, 401);
    assert!(list_models(&st, Some("Bearer secret"), 7).is_ok());
}

#[test]
fn models_returns_aliases() {
    let list = list_models(&state(None), None, 42).unwrap();
    assert_eq!(list.object, "list");
    assert_eq!(list.data.len(), 2);
    assert_eq!(list.data[0].id, "tts-1");
    assert_eq!(list.data[1].id, "gpt-4o-mini-tts");
    assert_eq!(list.data[0].object, "model");
    assert_eq!(list.data[0].owned_by, "local");
    assert_eq!(list.data[1].created, 42);
}

#[test]
fn authorize_messages() {
    let st = state(Some("secret"));
    assert_eq!(authorize(&st, None).unwrap_err().message, "Missing Authorization header");
    let err = authorize(&st, Some("Basic secret")).unwrap_err();
    assert_eq!(err.message, "Invalid Authorization header");
    assert_eq!(err.error_type, "authentication_error");
    assert_eq!(authorize(&st, Some("Bearer")).unwrap_err().message, "Invalid Authorization header");
    assert_eq!(authorize(&st, Some("Bearer other")).unwrap_err().message, "Invalid API key");
    assert_eq!(authorize(&st, Some("Bearer secret ")).unwrap_err().message, "Invalid API key");
    assert!(authorize(&st, Some("Bearer secret")).is_ok());
    assert!(authorize(&state(None), None).is_ok());
    assert!(authorize(&state(None), Some("garbage")).is_ok());
}

#[test]
fn validates_too_long_input() {
    let input = "a".repeat(4097);
    let err = expect_invalid(
        validate_request(request(SpeechModel::Tts1, &input, "alloy"), &state(None)),
        "input",
    );
    assert_eq!(err.message, "input must be 4096 characters or fewer");
    let input = "é".repeat(4096);
    assert!(validate_request(request(SpeechModel::Tts1, &input, "alloy"), &state(None)).is_ok());
}

#[test]
fn validates_empty_input() {
    let err = expect_invalid(
        validate_request(request(SpeechModel::Tts1, "", "alloy"), &state(None)),
        "input",
    );
    assert_eq!(err.message, "input is required");
}

#[test]
fn validates_speed() {
    let mut req = request(SpeechModel::Tts1, "hello", "alloy");
    req.speed_bits = Some(4.01f32.to_bits());
    let err = expect_invalid(validate_request(req, &state(None)), "speed");
    assert_eq!(err.message, "speed must be between 0.25 and 4.0");
}

#[test]
fn speed_bounds_are_inclusive() {
    for (speed, ok) in [
        (0.25f32, true),
        (4.0f32, true),
        (1.5f32, true),
        (0.2499f32, false),
        (-1.0f32, false),
        (-0.0f32, false),
        (f32::NAN, false),
        (f32::INFINITY, false),
    ] {
        let mut req = request(SpeechModel::Tts1, "hello", "alloy");
        req.speed_bits = Some(speed.to_bits());
        assert_eq!(validate_request(req, &state(None)).is_ok(), ok, "speed {speed}");
    }
    let normalized = validate_request(request(SpeechModel::Tts1, "hello", "alloy"), &state(None)).unwrap();
    assert_eq!(normalized.speed_bits, DEFAULT_SPEED_BITS);
    assert_eq!(f32::from_bits(normalized.speed_bits), 1.0);
}

#[test]
fn validates_unknown_voice() {
    let err = expect_invalid(
        validate_request(request(SpeechModel::Tts1, "hello", "missing"), &state(None)),
        "voice",
    );
    assert_eq!(err.message, "Unknown voice: missing");
}

#[test]
fn voice_names_are_case_insensitive() {
    let normalized =
        validate_request(request(SpeechModel::Tts1, "hello", "SHIMMER"), &state(None)).unwrap();
    assert_eq!(normalized.speaker_id, 5);
}

#[test]
fn custom_voice_objects_are_refused() {
    let mut req = request(SpeechModel::Tts1, "hello", "alloy");
    req.voice = Voice::Custom;
    let err = expect_invalid(validate_request(req, &state(None)), "voice");
    assert_eq!(err.message, "Custom voice objects are not supported");
    assert!(voice_id(&Voice::Custom).is_err());
    assert_eq!(voice_id(&Voice::Named("Nova".to_owned())).unwrap(), "nova");
}

#[test]
fn rejects_format_not_supported_by_service() {
    let mut req = request(SpeechModel::Tts1, "hello", "alloy");
    req.response_format = Some(SpeechResponseFormat::Opus);
    let err = expect_invalid(validate_request(req, &state(None)), "response_format");
    assert_eq!(err.message, "Unsupported response_format: opus");
}

#[test]
fn returns_requested_wav_content_type() {
    let mut req = request(SpeechModel::Tts1, "hello", "alloy");
    req.response_format = Some(SpeechResponseFormat::Wav);
    let normalized = prepare_speech(&state(None), None, req).unwrap();
    assert_eq!(normalized.response_format, SpeechResponseFormat::Wav);
    assert_eq!(normalized.response_format.content_type(), "audio/wav");
    assert_eq!(normalized.input, "hello");
    assert_eq!(normalized.speaker_id, 0);
}

#[test]
fn default_format_is_mp3() {
    let normalized =
        validate_request(request(SpeechModel::Tts1, "hello", "alloy"), &state(None)).unwrap();
    assert_eq!(normalized.response_format, SpeechResponseFormat::Mp3);
}

#[test]
fn error_shape_matches_openai_style() {
    let req = request(SpeechModel::Other("missing".to_owned()), "hello", "alloy");
    let err = expect_invalid(validate_request(req, &state(None)), "model");
    assert_eq!(err.message, "Unknown model: missing");
    let body = err.into_body();
    assert_eq!(body.error.error_type, "invalid_request_error");
    assert_eq!(body.error.param.as_deref(), Some("model"));
}

#[test]
fn unknown_builtin_model_is_refused() {
    let req = request(SpeechModel::Tts1Hd, "hello", "alloy");
    let err = expect_invalid(validate_request(req, &state(None)), "model");
    assert_eq!(err.message, "Unknown model: tts-1-hd");
    let req = request(SpeechModel::Gpt4oMiniTts, "hello", "alloy");
    assert!(validate_request(req, &state(None)).is_ok());
}

#[test]
fn prepare_speech_checks_authorization_first() {
    let req = request(SpeechModel::Other("missing".to_owned()), "", "alloy");
    let err = prepare_speech(&state(Some("k")), None, req).unwrap_err();
    assert_eq!(err.status, 401);
}

#[test]
fn model_ids() {
    assert_eq!(speech_model_id(&SpeechModel::Tts1), "tts-1");
    assert_eq!(speech_model_id(&SpeechModel::Tts1Hd), "tts-1-hd");
    assert_eq!(speech_model_id(&SpeechModel::Gpt4oMiniTts), "gpt-4o-mini-tts");
    assert_eq!(speech_model_id(&SpeechModel::Other("x".to_owned())), "x");
}

#[test]
fn error_constructors() {
    let e = ApiError::internal("boom".to_owned());
    assert_eq!(e.status, 500);
    assert_eq!(e.error_type, "server_error");
    assert_eq!(e.code.as_deref(), Some("internal_error"));
    assert_eq!(e.param, None);
    let e = ApiError::unauthorized("no".to_owned());
    assert_eq!(e.status, 401);
    assert_eq!(e.code, None);
    let e = ApiError::invalid_request("bad".to_owned(), None);
    assert_eq!(e.param, None);
}

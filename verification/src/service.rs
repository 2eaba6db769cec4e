//! The decisions of the HTTP service: who may call it, which speech requests it accepts
//! and how it normalizes them, and what the model list holds.
use vstd::prelude::*;
use vstd::string::*;

use crate::audio::{
    format_name, spec_format_name, SpeechResponseFormat, SpeechResponseFormatExt,
};
use crate::error::{
    opt_view, spec_invalid_request, spec_unauthorized, ApiError, ApiErrorView,
};
use crate::text::{
    concat, lowercase, owned, same_text, strings_view, to_lowercase,
};
use crate::voices::{entries_map, lowercase_entries, lowercase_keys, VoiceMap};

verus! {

/// The longest accepted input, in characters.
pub const MAX_INPUT_CHARS: usize = 4096;

/// The bit pattern (`f32::to_bits`) of the slowest accepted speed, 0.25.
pub const MIN_SPEED_BITS: u32 = 0x3e80_0000;

/// The bit pattern (`f32::to_bits`) of the fastest accepted speed, 4.0.
pub const MAX_SPEED_BITS: u32 = 0x4080_0000;

/// The bit pattern (`f32::to_bits`) of the speed used when a request names none, 1.0.
pub const DEFAULT_SPEED_BITS: u32 = 0x3f80_0000;

/// Whether a speed, given as its IEEE-754 single-precision bit pattern, lies in
/// [0.25, 4.0]. Non-negative floats are ordered as their bit patterns are, and every
/// negative value, infinity and NaN has a pattern outside this range.
pub open spec fn speed_in_range(bits: u32) -> bool {
    MIN_SPEED_BITS <= bits <= MAX_SPEED_BITS
}

/// The speech model named in a request.
#[derive(Clone, Debug)]
pub enum SpeechModel {
    Tts1,
    Tts1Hd,
    Gpt4oMiniTts,
    Other(String),
}

/// The voice named in a request: a voice name, or a custom voice object.
#[derive(Clone, Debug)]
pub enum Voice {
    Named(String),
    Custom,
}

/// A speech request as a client sent it (the speed as `f32::to_bits`).
#[derive(Clone, Debug)]
pub struct SpeechRequest {
    pub model: SpeechModel,
    pub input: String,
    pub voice: Voice,
    pub response_format: Option<SpeechResponseFormat>,
    pub speed_bits: Option<u32>,
}

/// A request that passed validation: the text, the speaker, the format and the speed
/// (as `f32::to_bits`).
#[derive(Clone, Debug)]
pub struct NormalizedSpeechRequest {
    pub input: String,
    pub speaker_id: i32,
    pub response_format: SpeechResponseFormat,
    pub speed_bits: u32,
}

pub struct NormalizedView {
    pub input: Seq<char>,
    pub speaker_id: i32,
    pub response_format: SpeechResponseFormat,
    pub speed_bits: u32,
}

impl View for NormalizedSpeechRequest {
    type V = NormalizedView;

    open spec fn view(&self) -> NormalizedView {
        NormalizedView {
            input: self.input@,
            speaker_id: self.speaker_id,
            response_format: self.response_format,
            speed_bits: self.speed_bits,
        }
    }
}

/// What the service is configured with: the model aliases it answers to (in the order
/// listed), the voice table, and the API key that callers must present, if any.
#[derive(Clone, Debug)]
pub struct AppState {
    pub model_list: Vec<String>,
    pub voice_map: VoiceMap,
    pub api_key: Option<String>,
}

/// The state of the service from its configuration: aliases as listed, voice names
/// lowercased (where two lowercase alike, the later entry wins), and the key.
pub fn state_from_parts(model_aliases: Vec<String>, voice_map: VoiceMap, api_key: Option<String>) -> (r: AppState)
    ensures
        strings_view(r.model_list@) == strings_view(model_aliases@),
        r.voice_map@ == entries_map(lowercase_entries(voice_map.entries())),
        opt_view(r.api_key) == opt_view(api_key),
{
    AppState { model_list: model_aliases, voice_map: lowercase_keys(&voice_map), api_key }
}

/// The `Bearer ` prefix of an Authorization header.
pub open spec fn bearer() -> Seq<char> {
    "Bearer "@
}

/// The outcome of checking the Authorization header (`None` when it is missing or not text).
pub open spec fn spec_authorize(api_key: Option<Seq<char>>, header: Option<Seq<char>>) -> Result<
    (),
    ApiErrorView,
> {
    match api_key {
        None => Ok(()),
        Some(key) => match header {
            None => Err(spec_unauthorized("Missing Authorization header"@)),
            Some(h) => if !bearer().is_prefix_of(h) {
                Err(spec_unauthorized("Invalid Authorization header"@))
            } else if h.skip(bearer().len() as int) != key {
                Err(spec_unauthorized("Invalid API key"@))
            } else {
                Ok(())
            },
        },
    }
}

pub open spec fn str_opt_view(o: Option<&str>) -> Option<Seq<char>> {
    match o {
        Some(s) => Some(s@),
        None => None,
    }
}

/// Checks the Authorization header against the configured key.
pub fn authorize(state: &AppState, authorization: Option<&str>) -> (r: Result<(), ApiError>)
    ensures
        match spec_authorize(opt_view(state.api_key), str_opt_view(authorization)) {
            Ok(()) => r is Ok,
            Err(e) => r matches Err(x) && x@ == e,
        },
{
    let expected = match &state.api_key {
        None => {
            return Ok(());
        },
        Some(k) => k,
    };
    let actual = match authorization {
        None => {
            return Err(ApiError::unauthorized(owned("Missing Authorization header")));
        },
        Some(h) => h,
    };
    let prefix = "Bearer ";
    let plen = prefix.unicode_len();
    let alen = actual.unicode_len();
    if alen < plen {
        proof {
            assert(!bearer().is_prefix_of(actual@));
        }
        return Err(ApiError::unauthorized(owned("Invalid Authorization header")));
    }
    let head = actual.substring_char(0, plen);
    if !same_text(head, prefix) {
        proof {
            if bearer().is_prefix_of(actual@) {
                assert(head@ =~= bearer());
            }
        }
        return Err(ApiError::unauthorized(owned("Invalid Authorization header")));
    }
    proof {
        assert(bearer().is_prefix_of(actual@)) by {
            assert forall|i: int| 0 <= i < bearer().len() implies bearer()[i] == actual@[i] by {
                assert(head@[i] == actual@[i]);
            }
        }
    }
    let token = actual.substring_char(plen, alen);
    proof {
        assert(token@ =~= actual@.skip(plen as int));
    }
    if !same_text(token, expected.as_str()) {
        return Err(ApiError::unauthorized(owned("Invalid API key")));
    }
    Ok(())
}

/// With a key configured, a request is let in exactly when its Authorization header is
/// `Bearer ` followed by the key; with none, every request is let in.
pub proof fn lemma_authorize_accepts_exactly_bearer_key(
    api_key: Option<Seq<char>>,
    header: Option<Seq<char>>,
)
    ensures
        spec_authorize(api_key, header) is Ok <==> (api_key is None || header == Some(
            bearer() + api_key->0,
        )),
{
    if let Some(key) = api_key {
        if let Some(h) = header {
            if spec_authorize(api_key, header) is Ok {
                assert(h =~= bearer() + h.skip(bearer().len() as int));
            }
            if h == bearer() + key {
                assert(bearer().is_prefix_of(h)) by {
                    assert forall|i: int| 0 <= i < bearer().len() implies bearer()[i] == h[i] by {}
                }
                assert(h.skip(bearer().len() as int) =~= key);
            }
        }
    }
}

/// The model id that a request's model stands for.
pub open spec fn spec_model_id(model: SpeechModel) -> Seq<char> {
    match model {
        SpeechModel::Tts1 => "tts-1"@,
        SpeechModel::Tts1Hd => "tts-1-hd"@,
        SpeechModel::Gpt4oMiniTts => "gpt-4o-mini-tts"@,
        SpeechModel::Other(m) => m@,
    }
}

/// The model id that a request's model stands for.
pub fn speech_model_id(model: &SpeechModel) -> (r: String)
    ensures
        r@ == spec_model_id(*model),
{
    match model {
        SpeechModel::Tts1 => owned("tts-1"),
        SpeechModel::Tts1Hd => owned("tts-1-hd"),
        SpeechModel::Gpt4oMiniTts => owned("gpt-4o-mini-tts"),
        SpeechModel::Other(m) => m.clone(),
    }
}

/// The lowercased voice name, or the error for a custom voice object.
pub open spec fn spec_voice_id(voice: Voice) -> Result<Seq<char>, ApiErrorView> {
    match voice {
        Voice::Named(n) => Ok(lowercase(n@)),
        Voice::Custom => Err(
            spec_invalid_request("Custom voice objects are not supported"@, Some("voice"@)),
        ),
    }
}

/// The lowercased voice name; custom voice objects are refused.
pub fn voice_id(voice: &Voice) -> (r: Result<String, ApiError>)
    ensures
        match spec_voice_id(*voice) {
            Ok(v) => r matches Ok(x) && x@ == v,
            Err(e) => r matches Err(x) && x@ == e,
        },
{
    match voice {
        Voice::Named(n) => Ok(to_lowercase(n.as_str())),
        Voice::Custom => Err(
            ApiError::invalid_request(owned("Custom voice objects are not supported"), Some("voice")),
        ),
    }
}

/// The outcome of validating a speech request against the service's state: the first
/// failing check gives the error, else the normalized request.
pub open spec fn spec_validate(request: SpeechRequest, state: AppState) -> Result<
    NormalizedView,
    ApiErrorView,
> {
    let model = spec_model_id(request.model);
    if !strings_view(state.model_list@).contains(model) {
        Err(spec_invalid_request("Unknown model: "@ + model, Some("model"@)))
    } else if request.input@.len() == 0 {
        Err(spec_invalid_request("input is required"@, Some("input"@)))
    } else if request.input@.len() > MAX_INPUT_CHARS {
        Err(spec_invalid_request("input must be 4096 characters or fewer"@, Some("input"@)))
    } else {
        match spec_voice_id(request.voice) {
            Err(e) => Err(e),
            Ok(voice) => if !state.voice_map@.contains_key(voice) {
                Err(spec_invalid_request("Unknown voice: "@ + voice, Some("voice"@)))
            } else {
                let speed = match request.speed_bits {
                    Some(b) => b,
                    None => DEFAULT_SPEED_BITS,
                };
                let format = match request.response_format {
                    Some(f) => f,
                    None => SpeechResponseFormat::Mp3,
                };
                if !speed_in_range(speed) {
                    Err(spec_invalid_request("speed must be between 0.25 and 4.0"@, Some("speed"@)))
                } else if !format.spec_is_supported_by_service() {
                    Err(
                        spec_invalid_request(
                            "Unsupported response_format: "@ + spec_format_name(format),
                            Some("response_format"@),
                        ),
                    )
                } else {
                    Ok(
                        NormalizedView {
                            input: request.input@,
                            speaker_id: state.voice_map@[voice],
                            response_format: format,
                            speed_bits: speed,
                        },
                    )
                }
            },
        }
    }
}

/// Whether `name` is one of the model aliases.
pub fn has_model(state: &AppState, name: &String) -> (r: bool)
    ensures
        r == strings_view(state.model_list@).contains(name@),
{
    let n = state.model_list.len();
    let mut i: usize = 0;
    while i < n
        invariant
            n == state.model_list@.len(),
            i <= n,
            forall|j: int| 0 <= j < i ==> strings_view(state.model_list@)[j] != name@,
        decreases n - i,
    {
        if state.model_list[i] == *name {
            proof {
                assert(strings_view(state.model_list@)[i as int] == name@);
            }
            return true;
        }
        i = i + 1;
    }
    false
}

/// Validates a speech request: a known model, an input of 1 to 4096 characters, a known
/// voice (by its lowercased name), a speed in [0.25, 4.0] (default 1.0) and a format the
/// service produces (default MP3).
pub fn validate_request(request: SpeechRequest, state: &AppState) -> (r: Result<
    NormalizedSpeechRequest,
    ApiError,
>)
    ensures
        match spec_validate(request, *state) {
            Ok(n) => r matches Ok(x) && x@ == n,
            Err(e) => r matches Err(x) && x@ == e,
        },
{
    let model = speech_model_id(&request.model);
    if !has_model(state, &model) {
        return Err(
            ApiError::invalid_request(concat("Unknown model: ", model.as_str()), Some("model")),
        );
    }
    let input_len = request.input.as_str().unicode_len();
    if input_len == 0 {
        return Err(ApiError::invalid_request(owned("input is required"), Some("input")));
    }
    if input_len > MAX_INPUT_CHARS {
        return Err(
            ApiError::invalid_request(owned("input must be 4096 characters or fewer"), Some("input")),
        );
    }
    let voice = match voice_id(&request.voice) {
        Ok(v) => v,
        Err(e) => {
            return Err(e);
        },
    };
    let speaker_id = match state.voice_map.get(voice.as_str()) {
        Some(id) => *id,
        None => {
            return Err(
                ApiError::invalid_request(concat("Unknown voice: ", voice.as_str()), Some("voice")),
            );
        },
    };
    let speed = match request.speed_bits {
        Some(b) => b,
        None => DEFAULT_SPEED_BITS,
    };
    if !(MIN_SPEED_BITS <= speed && speed <= MAX_SPEED_BITS) {
        return Err(
            ApiError::invalid_request(owned("speed must be between 0.25 and 4.0"), Some("speed")),
        );
    }
    let response_format = match request.response_format {
        Some(f) => f,
        None => SpeechResponseFormat::Mp3,
    };
    if !response_format.is_supported_by_service() {
        return Err(
            ApiError::invalid_request(
                concat("Unsupported response_format: ", format_name(response_format)),
                Some("response_format"),
            ),
        );
    }
    Ok(NormalizedSpeechRequest { input: request.input, speaker_id, response_format, speed_bits: speed })
}

/// The decisions of the speech endpoint before synthesis: the caller must be authorized,
/// then the request must validate.
pub fn prepare_speech(state: &AppState, authorization: Option<&str>, request: SpeechRequest) -> (r:
    Result<NormalizedSpeechRequest, ApiError>)
    ensures
        match spec_authorize(opt_view(state.api_key), str_opt_view(authorization)) {
            Err(e) => r matches Err(x) && x@ == e,
            Ok(()) => match spec_validate(request, *state) {
                Ok(n) => r matches Ok(x) && x@ == n,
                Err(e) => r matches Err(x) && x@ == e,
            },
        },
{
    match authorize(state, authorization) {
        Ok(()) => validate_request(request, state),
        Err(e) => Err(e),
    }
}

/// One entry of the model list.
#[derive(Clone, Debug)]
pub struct Model {
    pub id: String,
    pub object: String,
    pub created: u64,
    pub owned_by: String,
}

/// The model list: `object` is `list`, `data` the models.
#[derive(Clone, Debug)]
pub struct ModelList {
    pub object: String,
    pub data: Vec<Model>,
}

/// The model list: one `model` entry owned by `local` for each alias, in the configured
/// order, each stamped `created`; an unauthorized caller gets the authorization error.
pub fn list_models(state: &AppState, authorization: Option<&str>, created: u64) -> (r: Result<
    ModelList,
    ApiError,
>)
    ensures
        match spec_authorize(opt_view(state.api_key), str_opt_view(authorization)) {
            Err(e) => r matches Err(x) && x@ == e,
            Ok(()) => r matches Ok(list) && {
                &&& list.object@ == "list"@
                &&& list.data@.len() == state.model_list@.len()
                &&& forall|i: int|
                    0 <= i < list.data@.len() ==> {
                        &&& (#[trigger] list.data@[i]).id@ == state.model_list@[i]@
                        &&& list.data@[i].object@ == "model"@
                        &&& list.data@[i].created == created
                        &&& list.data@[i].owned_by@ == "local"@
                    }
            },
        },
{
    match authorize(state, authorization) {
        Ok(()) => {},
        Err(e) => {
            return Err(e);
        },
    }
    let n = state.model_list.len();
    let mut data: Vec<Model> = Vec::new();
    let mut i: usize = 0;
    while i < n
        invariant
            n == state.model_list@.len(),
            i <= n,
            data@.len() == i,
            forall|j: int|
                0 <= j < i ==> {
                    &&& (#[trigger] data@[j]).id@ == state.model_list@[j]@
                    &&& data@[j].object@ == "model"@
                    &&& data@[j].created == created
                    &&& data@[j].owned_by@ == "local"@
                },
        decreases n - i,
    {
        let m = Model {
            id: state.model_list[i].clone(),
            object: owned("model"),
            created,
            owned_by: owned("local"),
        };
        data.push(m);
        i = i + 1;
    }
    Ok(ModelList { object: owned("list"), data })
}

/// A request that validates names a configured model, carries 1 to 4096 characters of
/// input (kept as sent), a voice whose lowercased name is in the voice table (its speaker
/// id is the one chosen), a speed in [0.25, 4.0] and a format the service produces.
pub proof fn lemma_accepted_request_is_within_limits(request: SpeechRequest, state: AppState)
    requires
        spec_validate(request, state) is Ok,
    ensures
        strings_view(state.model_list@).contains(spec_model_id(request.model)),
        ({
            let n = spec_validate(request, state)->Ok_0;
            &&& n.input == request.input@
            &&& 1 <= n.input.len() <= MAX_INPUT_CHARS
            &&& speed_in_range(n.speed_bits)
            &&& n.response_format.spec_is_supported_by_service()
            &&& request.voice matches Voice::Named(name) && state.voice_map@.contains_key(
                lowercase(name@),
            ) && n.speaker_id == state.voice_map@[lowercase(name@)]
        }),
{
}

/// A request is accepted exactly as sent whenever its model is a configured alias, its
/// input has 1 to 4096 characters, its voice is a name whose lowercase form is in the
/// voice table, its speed pattern (1.0 when absent) lies in [0.25, 4.0], and its format
/// (MP3 when absent) is WAV, PCM, MP3 or FLAC. The result carries the input, the table's
/// speaker id for the voice, that format and that speed.
pub proof fn lemma_valid_requests_are_accepted(request: SpeechRequest, state: AppState)
    requires
        strings_view(state.model_list@).contains(spec_model_id(request.model)),
        1 <= request.input@.len() <= 4096,
        request.voice matches Voice::Named(name) && state.voice_map@.contains_key(lowercase(name@)),
        ({
            let speed = match request.speed_bits {
                Some(b) => b,
                None => 0x3f80_0000u32,
            };
            0x3e80_0000 <= speed <= 0x4080_0000
        }),
        match request.response_format {
            None => true,
            Some(f) => f == SpeechResponseFormat::Wav || f == SpeechResponseFormat::Pcm || f
                == SpeechResponseFormat::Mp3 || f == SpeechResponseFormat::Flac,
        },
    ensures
        spec_validate(request, state) is Ok,
        ({
            let n = spec_validate(request, state)->Ok_0;
            &&& n.input == request.input@
            &&& (request.voice matches Voice::Named(name) && n.speaker_id
                == state.voice_map@[lowercase(name@)])
            &&& n.response_format == match request.response_format {
                Some(f) => f,
                None => SpeechResponseFormat::Mp3,
            }
            &&& n.speed_bits == match request.speed_bits {
                Some(b) => b,
                None => 0x3f80_0000u32,
            }
        }),
{
}

/// A request whose model id is one of the configured aliases is never refused for its
/// model, whatever else is wrong with it; and one whose model id is not an alias always is.
pub proof fn lemma_model_check_is_alias_membership(request: SpeechRequest, state: AppState)
    ensures
        strings_view(state.model_list@).contains(spec_model_id(request.model)) ==> (spec_validate(
            request,
            state,
        ) is Ok || spec_validate(request, state)->Err_0.param != Some("model"@)),
        !strings_view(state.model_list@).contains(spec_model_id(request.model)) ==> (spec_validate(
            request,
            state,
        ) is Err && spec_validate(request, state)->Err_0.param == Some("model"@)),
{
    reveal_strlit("model");
    reveal_strlit("input");
    reveal_strlit("voice");
    reveal_strlit("speed");
    reveal_strlit("response_format");
    assert("model"@ != "input"@) by {
        assert("model"@[0] != "input"@[0]);
    }
    assert("model"@ != "voice"@) by {
        assert("model"@[0] != "voice"@[0]);
    }
    assert("model"@ != "speed"@) by {
        assert("model"@[0] != "speed"@[0]);
    }
    assert("model"@ != "response_format"@) by {
        assert("model"@.len() != "response_format"@.len());
    }
}

/// The id of a model named by any other name is that name, so a configured alias such as
/// `kokoro` is matched by a request for `kokoro`; the built-in names have their OpenAI ids.
pub proof fn lemma_model_ids(name: String)
    ensures
        spec_model_id(SpeechModel::Other(name)) == name@,
        spec_model_id(SpeechModel::Tts1) == "tts-1"@,
        spec_model_id(SpeechModel::Tts1Hd) == "tts-1-hd"@,
        spec_model_id(SpeechModel::Gpt4oMiniTts) == "gpt-4o-mini-tts"@,
{
}

} // verus!

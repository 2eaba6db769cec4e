//! Service configuration from environment variables and the model files on disk.
//!
//! The environment is taken as a list of (name, value) pairs, and the file system as the
//! set of paths known to be files and the set known to be directories; `probe_paths`
//! lists every path whose kind the configuration can depend on.
use vstd::prelude::*;
use vstd::string::*;

use crate::error::opt_view;
use crate::text::{
    csv_items, is_blank, is_blank_str, join_path, owned, parse_bool, parse_bool_spec,
    parse_csv, parse_i32, parse_i32_spec, parse_usize, parse_usize_spec, path_join,
    lemma_path_join_no_comma, lemma_split_pair, lemma_split_single,
    same_text, split_commas, split_on_commas, strings_view, concat,
};
use crate::voices::{
    default_voice_map, entries_view, lowercase_entries, spec_default_voices, VoiceMap,
};

verus! {

/// The environment as (name, value) pairs.
#[derive(Clone, Debug)]
pub struct EnvVars {
    pub vars: Vec<(String, String)>,
}

impl View for EnvVars {
    type V = Seq<(Seq<char>, Seq<char>)>;

    open spec fn view(&self) -> Seq<(Seq<char>, Seq<char>)> {
        self.vars@.map_values(|p: (String, String)| (p.0@, p.1@))
    }
}

/// The paths known to be existing files and existing directories.
#[derive(Clone, Debug)]
pub struct PathProbe {
    pub files: Vec<String>,
    pub dirs: Vec<String>,
}

pub struct FsView {
    pub files: Seq<Seq<char>>,
    pub dirs: Seq<Seq<char>>,
}

impl View for PathProbe {
    type V = FsView;

    open spec fn view(&self) -> FsView {
        FsView { files: strings_view(self.files@), dirs: strings_view(self.dirs@) }
    }
}

pub open spec fn is_file(fs: FsView, p: Seq<char>) -> bool {
    fs.files.contains(p)
}

pub open spec fn is_dir(fs: FsView, p: Seq<char>) -> bool {
    fs.dirs.contains(p)
}

/// Why the configuration could not be loaded.
#[derive(Clone, Debug)]
pub enum ConfigError {
    /// `MODEL_ALIASES` lists no alias.
    NoModelAliases,
    /// `VOICE_MAP_JSON` is not a JSON object of names to speaker ids.
    InvalidVoiceMapJson,
    /// `MAX_CONCURRENT_SYNTHESIS` is not a number.
    InvalidMaxConcurrent,
    /// `MAX_CONCURRENT_SYNTHESIS` is zero.
    ZeroMaxConcurrent,
    /// The named variable is needed and neither it nor `MODEL_DIR` is set.
    Missing(String),
    /// The named variable's path is not an existing file.
    NotAFile(String, String),
    /// The named variable's path is not an existing directory.
    NotADirectory(String, String),
    /// `SHERPA_ONNX_NUM_THREADS` is not an integer.
    InvalidNumThreads,
    /// `SHERPA_ONNX_DEBUG` is neither `true` nor `false`.
    InvalidDebug,
}

pub enum ConfigErrorView {
    NoModelAliases,
    InvalidVoiceMapJson,
    InvalidMaxConcurrent,
    ZeroMaxConcurrent,
    Missing(Seq<char>),
    NotAFile(Seq<char>, Seq<char>),
    NotADirectory(Seq<char>, Seq<char>),
    InvalidNumThreads,
    InvalidDebug,
}

impl View for ConfigError {
    type V = ConfigErrorView;

    open spec fn view(&self) -> ConfigErrorView {
        match self {
            ConfigError::NoModelAliases => ConfigErrorView::NoModelAliases,
            ConfigError::InvalidVoiceMapJson => ConfigErrorView::InvalidVoiceMapJson,
            ConfigError::InvalidMaxConcurrent => ConfigErrorView::InvalidMaxConcurrent,
            ConfigError::ZeroMaxConcurrent => ConfigErrorView::ZeroMaxConcurrent,
            ConfigError::Missing(k) => ConfigErrorView::Missing(k@),
            ConfigError::NotAFile(k, p) => ConfigErrorView::NotAFile(k@, p@),
            ConfigError::NotADirectory(k, p) => ConfigErrorView::NotADirectory(k@, p@),
            ConfigError::InvalidNumThreads => ConfigErrorView::InvalidNumThreads,
            ConfigError::InvalidDebug => ConfigErrorView::InvalidDebug,
        }
    }
}

impl ConfigError {
    pub open spec fn spec_message(self) -> Seq<char> {
        match self {
            ConfigError::NoModelAliases => "MODEL_ALIASES must contain at least one model alias"@,
            ConfigError::InvalidVoiceMapJson => "VOICE_MAP_JSON must be a JSON object of voice names to speaker ids"@,
            ConfigError::InvalidMaxConcurrent => "MAX_CONCURRENT_SYNTHESIS must be a positive integer"@,
            ConfigError::ZeroMaxConcurrent => "MAX_CONCURRENT_SYNTHESIS must be greater than zero"@,
            ConfigError::Missing(k) => k@ + " is required"@,
            ConfigError::NotAFile(k, p) => k@ + " does not point to an existing file: "@ + p@,
            ConfigError::NotADirectory(k, p) => k@ + " does not point to an existing directory: "@
                + p@,
            ConfigError::InvalidNumThreads => "SHERPA_ONNX_NUM_THREADS must be an integer"@,
            ConfigError::InvalidDebug => "SHERPA_ONNX_DEBUG must be true or false"@,
        }
    }

    /// The text of the error.
    pub fn message(&self) -> (r: String)
        ensures
            r@ == self.spec_message(),
    {
        match self {
            ConfigError::NoModelAliases => owned("MODEL_ALIASES must contain at least one model alias"),
            ConfigError::InvalidVoiceMapJson => owned(
                "VOICE_MAP_JSON must be a JSON object of voice names to speaker ids",
            ),
            ConfigError::InvalidMaxConcurrent => owned(
                "MAX_CONCURRENT_SYNTHESIS must be a positive integer",
            ),
            ConfigError::ZeroMaxConcurrent => owned(
                "MAX_CONCURRENT_SYNTHESIS must be greater than zero",
            ),
            ConfigError::Missing(k) => concat(k.as_str(), " is required"),
            ConfigError::NotAFile(k, p) => {
                let head = concat(k.as_str(), " does not point to an existing file: ");
                concat(head.as_str(), p.as_str())
            },
            ConfigError::NotADirectory(k, p) => {
                let head = concat(k.as_str(), " does not point to an existing directory: ");
                concat(head.as_str(), p.as_str())
            },
            ConfigError::InvalidNumThreads => owned("SHERPA_ONNX_NUM_THREADS must be an integer"),
            ConfigError::InvalidDebug => owned("SHERPA_ONNX_DEBUG must be true or false"),
        }
    }
}

/// Paths and options of the Kokoro model.
#[derive(Clone, Debug)]
pub struct KokoroConfig {
    pub model: String,
    pub voices: String,
    pub tokens: String,
    pub data_dir: String,
    pub lexicon: Option<String>,
    pub dict_dir: Option<String>,
    pub lang: Option<String>,
    pub provider: String,
    pub num_threads: i32,
    pub debug: bool,
}

pub struct KokoroView {
    pub model: Seq<char>,
    pub voices: Seq<char>,
    pub tokens: Seq<char>,
    pub data_dir: Seq<char>,
    pub lexicon: Option<Seq<char>>,
    pub dict_dir: Option<Seq<char>>,
    pub lang: Option<Seq<char>>,
    pub provider: Seq<char>,
    pub num_threads: i32,
    pub debug: bool,
}

impl View for KokoroConfig {
    type V = KokoroView;

    open spec fn view(&self) -> KokoroView {
        KokoroView {
            model: self.model@,
            voices: self.voices@,
            tokens: self.tokens@,
            data_dir: self.data_dir@,
            lexicon: opt_view(self.lexicon),
            dict_dir: opt_view(self.dict_dir),
            lang: opt_view(self.lang),
            provider: self.provider@,
            num_threads: self.num_threads,
            debug: self.debug,
        }
    }
}

/// The whole configuration of the service.
#[derive(Clone, Debug)]
pub struct AppConfig {
    pub bind_addr: String,
    pub api_key: Option<String>,
    pub model_aliases: Vec<String>,
    pub voice_map: VoiceMap,
    pub max_concurrent_synthesis: usize,
    pub tts: KokoroConfig,
}

pub struct ConfigView {
    pub bind_addr: Seq<char>,
    pub api_key: Option<Seq<char>>,
    pub model_aliases: Seq<Seq<char>>,
    pub voices: Map<Seq<char>, i32>,
    pub max_concurrent_synthesis: usize,
    pub tts: KokoroView,
}

impl View for AppConfig {
    type V = ConfigView;

    open spec fn view(&self) -> ConfigView {
        ConfigView {
            bind_addr: self.bind_addr@,
            api_key: opt_view(self.api_key),
            model_aliases: strings_view(self.model_aliases@),
            voices: self.voice_map@,
            max_concurrent_synthesis: self.max_concurrent_synthesis,
            tts: self.tts@,
        }
    }
}

/// The value of the first variable named `key`.
pub open spec fn env_raw(env: Seq<(Seq<char>, Seq<char>)>, key: Seq<char>) -> Option<Seq<char>>
    decreases env.len(),
{
    if env.len() == 0 {
        None
    } else if env[0].0 == key {
        Some(env[0].1)
    } else {
        env_raw(env.drop_first(), key)
    }
}

/// The value of `key`, where an unset or blank variable counts as absent.
pub open spec fn spec_optional_env(env: Seq<(Seq<char>, Seq<char>)>, key: Seq<char>) -> Option<
    Seq<char>,
> {
    match env_raw(env, key) {
        Some(v) => if is_blank(v) {
            None
        } else {
            Some(v)
        },
        None => None,
    }
}

/// The value of `key`, or `default` where it is unset or blank.
pub open spec fn spec_env_or(env: Seq<(Seq<char>, Seq<char>)>, key: Seq<char>, default: Seq<char>) -> Seq<char> {
    match spec_optional_env(env, key) {
        Some(v) => v,
        None => default,
    }
}

/// The comma-separated items of `key`, where it is set and not blank.
pub open spec fn spec_parse_csv_env(env: Seq<(Seq<char>, Seq<char>)>, key: Seq<char>) -> Option<
    Seq<Seq<char>>,
> {
    match spec_optional_env(env, key) {
        Some(v) => Some(csv_items(v)),
        None => None,
    }
}

impl EnvVars {
    pub fn new(vars: Vec<(String, String)>) -> (r: EnvVars)
        ensures
            r.vars@ == vars@,
    {
        EnvVars { vars }
    }

    /// The value of the first variable named `key`.
    pub fn raw(&self, key: &str) -> (r: Option<String>)
        ensures
            opt_view(r) == env_raw(self@, key@),
    {
        let n = self.vars.len();
        let mut i: usize = 0;
        proof {
            assert(self@.skip(0) =~= self@);
        }
        while i < n
            invariant
                n == self.vars@.len(),
                i <= n,
                env_raw(self@, key@) == env_raw(self@.skip(i as int), key@),
            decreases n - i,
        {
            proof {
                assert(self@.skip(i as int)[0] == (self.vars@[i as int].0@, self.vars@[i as int].1@));
                assert(self@.skip(i as int).drop_first() =~= self@.skip(i + 1));
            }
            if same_text(self.vars[i].0.as_str(), key) {
                return Some(self.vars[i].1.clone());
            }
            i = i + 1;
        }
        None
    }
}

/// The value of `key`, where an unset or blank variable counts as absent.
pub fn optional_env(env: &EnvVars, key: &str) -> (r: Option<String>)
    ensures
        opt_view(r) == spec_optional_env(env@, key@),
{
    match env.raw(key) {
        Some(v) => if is_blank_str(v.as_str()) {
            None
        } else {
            Some(v)
        },
        None => None,
    }
}

/// The value of `key`, or `default` where it is unset or blank.
pub fn env_or(env: &EnvVars, key: &str, default: &str) -> (r: String)
    ensures
        r@ == spec_env_or(env@, key@, default@),
{
    match optional_env(env, key) {
        Some(v) => v,
        None => owned(default),
    }
}

/// The comma-separated items of `key` (trimmed, empty ones dropped), where it is set and
/// not blank.
pub fn parse_csv_env(env: &EnvVars, key: &str) -> (r: Option<Vec<String>>)
    ensures
        match spec_parse_csv_env(env@, key@) {
            Some(items) => r matches Some(v) && strings_view(v@) == items,
            None => r is None,
        },
{
    match optional_env(env, key) {
        Some(v) => Some(parse_csv(v.as_str())),
        None => None,
    }
}

impl PathProbe {
    pub fn new(files: Vec<String>, dirs: Vec<String>) -> (r: PathProbe)
        ensures
            r.files@ == files@,
            r.dirs@ == dirs@,
    {
        PathProbe { files, dirs }
    }
}

fn list_contains(list: &Vec<String>, p: &str) -> (r: bool)
    ensures
        r == strings_view(list@).contains(p@),
{
    let n = list.len();
    let mut i: usize = 0;
    while i < n
        invariant
            n == list@.len(),
            i <= n,
            forall|j: int| 0 <= j < i ==> strings_view(list@)[j] != p@,
        decreases n - i,
    {
        if same_text(list[i].as_str(), p) {
            proof {
                assert(strings_view(list@)[i as int] == p@);
            }
            return true;
        }
        i = i + 1;
    }
    false
}

/// The error for `value` of `key` when it is not an existing file.
pub open spec fn spec_ensure_file(fs: FsView, key: Seq<char>, value: Seq<char>) -> Result<
    (),
    ConfigErrorView,
> {
    if is_file(fs, value) {
        Ok(())
    } else {
        Err(ConfigErrorView::NotAFile(key, value))
    }
}

/// The error for `value` of `key` when it is not an existing directory.
pub open spec fn spec_ensure_dir(fs: FsView, key: Seq<char>, value: Seq<char>) -> Result<
    (),
    ConfigErrorView,
> {
    if is_dir(fs, value) {
        Ok(())
    } else {
        Err(ConfigErrorView::NotADirectory(key, value))
    }
}

/// Refuses `value` of `key` unless it is an existing file.
pub fn ensure_file(fs: &PathProbe, key: &str, value: &str) -> (r: Result<(), ConfigError>)
    ensures
        match spec_ensure_file(fs@, key@, value@) {
            Ok(()) => r is Ok,
            Err(e) => r matches Err(x) && x@ == e,
        },
{
    if list_contains(&fs.files, value) {
        Ok(())
    } else {
        Err(ConfigError::NotAFile(owned(key), owned(value)))
    }
}

/// Refuses `value` of `key` unless it is an existing directory.
pub fn ensure_dir(fs: &PathProbe, key: &str, value: &str) -> (r: Result<(), ConfigError>)
    ensures
        match spec_ensure_dir(fs@, key@, value@) {
            Ok(()) => r is Ok,
            Err(e) => r matches Err(x) && x@ == e,
        },
{
    if list_contains(&fs.dirs, value) {
        Ok(())
    } else {
        Err(ConfigError::NotADirectory(owned(key), owned(value)))
    }
}

/// Whether every comma-separated path of `value` is an existing file.
pub open spec fn all_files(fs: FsView, value: Seq<char>) -> bool {
    forall|i: int|
        0 <= i < split_commas(value).len() ==> is_file(fs, #[trigger] split_commas(value)[i])
}

/// The optional value of `key`, a comma-separated list of paths that must all be files.
pub open spec fn spec_optional_existing_file(
    env: Seq<(Seq<char>, Seq<char>)>,
    fs: FsView,
    key: Seq<char>,
) -> Result<Option<Seq<char>>, ConfigErrorView> {
    match spec_optional_env(env, key) {
        Some(v) => if all_files(fs, v) {
            Ok(Some(v))
        } else {
            Err(ConfigErrorView::NotAFile(key, v))
        },
        None => Ok(None),
    }
}

/// The optional value of `key`, a path that must be a directory.
pub open spec fn spec_optional_existing_dir(
    env: Seq<(Seq<char>, Seq<char>)>,
    fs: FsView,
    key: Seq<char>,
) -> Result<Option<Seq<char>>, ConfigErrorView> {
    match spec_optional_env(env, key) {
        Some(v) => if is_dir(fs, v) {
            Ok(Some(v))
        } else {
            Err(ConfigErrorView::NotADirectory(key, v))
        },
        None => Ok(None),
    }
}

/// The value of `key` where it is set: each of its comma-separated paths must be an
/// existing file.
pub fn optional_existing_file(env: &EnvVars, fs: &PathProbe, key: &str) -> (r: Result<
    Option<String>,
    ConfigError,
>)
    ensures
        match spec_optional_existing_file(env@, fs@, key@) {
            Ok(v) => r matches Ok(x) && opt_view(x) == v,
            Err(e) => r matches Err(x) && x@ == e,
        },
{
    let value = match optional_env(env, key) {
        Some(v) => v,
        None => {
            return Ok(None);
        },
    };
    let pieces = split_on_commas(value.as_str());
    let n = pieces.len();
    let mut i: usize = 0;
    while i < n
        invariant
            n == pieces@.len(),
            strings_view(pieces@) == split_commas(value@),
            spec_optional_env(env@, key@) == Some(value@),
            i <= n,
            forall|j: int| 0 <= j < i ==> is_file(fs@, #[trigger] split_commas(value@)[j]),
        decreases n - i,
    {
        if !list_contains(&fs.files, pieces[i].as_str()) {
            proof {
                assert(split_commas(value@)[i as int] == pieces@[i as int]@);
                assert(!is_file(fs@, split_commas(value@)[i as int]));
                assert(!all_files(fs@, value@));
            }
            return Err(ConfigError::NotAFile(owned(key), value));
        }
        proof {
            assert(split_commas(value@)[i as int] == pieces@[i as int]@);
        }
        i = i + 1;
    }
    Ok(Some(value))
}

/// The value of `key` where it is set: it must be an existing directory.
pub fn optional_existing_dir(env: &EnvVars, fs: &PathProbe, key: &str) -> (r: Result<
    Option<String>,
    ConfigError,
>)
    ensures
        match spec_optional_existing_dir(env@, fs@, key@) {
            Ok(v) => r matches Ok(x) && opt_view(x) == v,
            Err(e) => r matches Err(x) && x@ == e,
        },
{
    match optional_env(env, key) {
        Some(v) => match ensure_dir(fs, key, v.as_str()) {
            Ok(()) => Ok(Some(v)),
            Err(e) => Err(e),
        },
        None => Ok(None),
    }
}

/// The model directory: `MODEL_DIR`, joined with `MODEL_NAME` where that is set.
pub open spec fn spec_model_base(env: Seq<(Seq<char>, Seq<char>)>) -> Option<Seq<char>> {
    match spec_optional_env(env, "MODEL_DIR"@) {
        None => None,
        Some(dir) => match spec_optional_env(env, "MODEL_NAME"@) {
            Some(name) => Some(path_join(dir, name)),
            None => Some(dir),
        },
    }
}

/// The model directory: `MODEL_DIR`, joined with `MODEL_NAME` where that is set.
pub fn model_base(env: &EnvVars) -> (r: Option<String>)
    ensures
        opt_view(r) == spec_model_base(env@),
{
    match optional_env(env, "MODEL_DIR") {
        None => None,
        Some(dir) => match optional_env(env, "MODEL_NAME") {
            Some(name) => Some(join_path(dir.as_str(), name.as_str())),
            None => Some(dir),
        },
    }
}

/// The path named by `key` where it is set (even to blank text), else the file
/// `file_key` (default `default_file`) in the model directory.
pub open spec fn spec_path_candidate(
    env: Seq<(Seq<char>, Seq<char>)>,
    key: Seq<char>,
    file_key: Seq<char>,
    default_file: Seq<char>,
) -> Option<Seq<char>> {
    match env_raw(env, key) {
        Some(p) => Some(p),
        None => match spec_model_base(env) {
            Some(b) => Some(path_join(b, spec_env_or(env, file_key, default_file))),
            None => None,
        },
    }
}

/// A required model file: its candidate path, which must be an existing file unless
/// `skip_exists_check`.
pub open spec fn spec_required_path(
    env: Seq<(Seq<char>, Seq<char>)>,
    fs: FsView,
    skip_exists_check: bool,
    key: Seq<char>,
    file_key: Seq<char>,
    default_file: Seq<char>,
) -> Result<Seq<char>, ConfigErrorView> {
    match spec_path_candidate(env, key, file_key, default_file) {
        None => Err(ConfigErrorView::Missing(key)),
        Some(p) => if skip_exists_check || is_file(fs, p) {
            Ok(p)
        } else {
            Err(ConfigErrorView::NotAFile(key, p))
        },
    }
}

/// The path named by `key` where it is set (even to blank text), else the file `file_key` (default `default_file`) in the
/// model directory.
fn path_candidate(env: &EnvVars, key: &str, file_key: &str, default_file: &str) -> (r: Option<
    String,
>)
    ensures
        opt_view(r) == spec_path_candidate(env@, key@, file_key@, default_file@),
{
    match env.raw(key) {
        Some(p) => Some(p),
        None => match model_base(env) {
            Some(b) => {
                let file = env_or(env, file_key, default_file);
                Some(join_path(b.as_str(), file.as_str()))
            },
            None => None,
        },
    }
}

/// A required model file, from `key` or from the model directory; it must exist unless
/// `skip_exists_check`.
pub fn required_path(
    env: &EnvVars,
    fs: &PathProbe,
    skip_exists_check: bool,
    key: &str,
    file_key: &str,
    default_file: &str,
) -> (r: Result<String, ConfigError>)
    ensures
        match spec_required_path(env@, fs@, skip_exists_check, key@, file_key@, default_file@) {
            Ok(p) => r matches Ok(x) && x@ == p,
            Err(e) => r matches Err(x) && x@ == e,
        },
{
    match path_candidate(env, key, file_key, default_file) {
        None => Err(ConfigError::Missing(owned(key))),
        Some(p) => {
            if !skip_exists_check {
                match ensure_file(fs, key, p.as_str()) {
                    Ok(()) => {},
                    Err(e) => {
                        return Err(e);
                    },
                }
            }
            Ok(p)
        },
    }
}

/// The espeak-ng data directory: `KOKORO_DATA_DIR` where it is set (even to blank text), else `KOKORO_DATA_DIR_NAME` (default
/// `espeak-ng-data`) in the model directory, or under its `data` subdirectory where only
/// that one exists. It must exist unless `skip_exists_check`.
pub open spec fn spec_data_dir(env: Seq<(Seq<char>, Seq<char>)>, fs: FsView, skip_exists_check: bool) -> Result<
    Seq<char>,
    ConfigErrorView,
> {
    match env_raw(env, "KOKORO_DATA_DIR"@) {
        Some(p) => if skip_exists_check || is_dir(fs, p) {
            Ok(p)
        } else {
            Err(ConfigErrorView::NotADirectory("KOKORO_DATA_DIR"@, p))
        },
        None => match spec_model_base(env) {
            None => Err(ConfigErrorView::Missing("KOKORO_DATA_DIR"@)),
            Some(b) => {
                let name = spec_env_or(env, "KOKORO_DATA_DIR_NAME"@, "espeak-ng-data"@);
                let primary = path_join(b, name);
                let nested = path_join(path_join(b, "data"@), name);
                if skip_exists_check || is_dir(fs, primary) {
                    Ok(primary)
                } else if is_dir(fs, nested) {
                    Ok(nested)
                } else {
                    Err(ConfigErrorView::NotADirectory("KOKORO_DATA_DIR"@, primary))
                }
            },
        },
    }
}

/// The espeak-ng data directory.
pub fn data_dir_path(env: &EnvVars, fs: &PathProbe, skip_exists_check: bool) -> (r: Result<
    String,
    ConfigError,
>)
    ensures
        match spec_data_dir(env@, fs@, skip_exists_check) {
            Ok(p) => r matches Ok(x) && x@ == p,
            Err(e) => r matches Err(x) && x@ == e,
        },
{
    match env.raw("KOKORO_DATA_DIR") {
        Some(p) => {
            if skip_exists_check || list_contains(&fs.dirs, p.as_str()) {
                Ok(p)
            } else {
                Err(ConfigError::NotADirectory(owned("KOKORO_DATA_DIR"), p))
            }
        },
        None => match model_base(env) {
            None => Err(ConfigError::Missing(owned("KOKORO_DATA_DIR"))),
            Some(b) => {
                let name = env_or(env, "KOKORO_DATA_DIR_NAME", "espeak-ng-data");
                let primary = join_path(b.as_str(), name.as_str());
                let data = join_path(b.as_str(), "data");
                let nested = join_path(data.as_str(), name.as_str());
                if skip_exists_check || list_contains(&fs.dirs, primary.as_str()) {
                    Ok(primary)
                } else if list_contains(&fs.dirs, nested.as_str()) {
                    Ok(nested)
                } else {
                    Err(ConfigError::NotADirectory(owned("KOKORO_DATA_DIR"), primary))
                }
            },
        },
    }
}

/// The lexicon files found in the model directory `b`, joined by a comma.
pub open spec fn spec_found_lexicons(fs: FsView, b: Seq<char>) -> Option<Seq<char>> {
    let us = path_join(b, "lexicon-us-en.txt"@);
    let zh = path_join(b, "lexicon-zh.txt"@);
    if is_file(fs, us) && is_file(fs, zh) {
        Some(us + ","@ + zh)
    } else if is_file(fs, us) {
        Some(us)
    } else if is_file(fs, zh) {
        Some(zh)
    } else {
        None
    }
}

/// The lexicon list: `KOKORO_LEXICON` (each path must be a file), else the lexicon files
/// present in the model directory.
pub open spec fn spec_lexicon(env: Seq<(Seq<char>, Seq<char>)>, fs: FsView) -> Result<
    Option<Seq<char>>,
    ConfigErrorView,
> {
    match spec_optional_env(env, "KOKORO_LEXICON"@) {
        Some(_) => spec_optional_existing_file(env, fs, "KOKORO_LEXICON"@),
        None => match spec_model_base(env) {
            Some(b) => Ok(spec_found_lexicons(fs, b)),
            None => Ok(None),
        },
    }
}

/// The lexicon list.
pub fn lexicon_paths(env: &EnvVars, fs: &PathProbe) -> (r: Result<Option<String>, ConfigError>)
    ensures
        match spec_lexicon(env@, fs@) {
            Ok(v) => r matches Ok(x) && opt_view(x) == v,
            Err(e) => r matches Err(x) && x@ == e,
        },
{
    if optional_env(env, "KOKORO_LEXICON").is_some() {
        return optional_existing_file(env, fs, "KOKORO_LEXICON");
    }
    match model_base(env) {
        None => Ok(None),
        Some(b) => {
            let us = join_path(b.as_str(), "lexicon-us-en.txt");
            let zh = join_path(b.as_str(), "lexicon-zh.txt");
            let has_us = list_contains(&fs.files, us.as_str());
            let has_zh = list_contains(&fs.files, zh.as_str());
            if has_us && has_zh {
                let head = concat(us.as_str(), ",");
                Ok(Some(concat(head.as_str(), zh.as_str())))
            } else if has_us {
                Ok(Some(us))
            } else if has_zh {
                Ok(Some(zh))
            } else {
                Ok(None)
            }
        },
    }
}

/// The jieba dictionary directory: `KOKORO_DICT_DIR` (it must be a directory), else the
/// `dict` directory of the model directory where it exists.
pub open spec fn spec_dict_dir(env: Seq<(Seq<char>, Seq<char>)>, fs: FsView) -> Result<
    Option<Seq<char>>,
    ConfigErrorView,
> {
    match spec_optional_env(env, "KOKORO_DICT_DIR"@) {
        Some(_) => spec_optional_existing_dir(env, fs, "KOKORO_DICT_DIR"@),
        None => match spec_model_base(env) {
            Some(b) => if is_dir(fs, path_join(b, "dict"@)) {
                Ok(Some(path_join(b, "dict"@)))
            } else {
                Ok(None)
            },
            None => Ok(None),
        },
    }
}

/// The jieba dictionary directory.
pub fn dict_dir_path(env: &EnvVars, fs: &PathProbe) -> (r: Result<Option<String>, ConfigError>)
    ensures
        match spec_dict_dir(env@, fs@) {
            Ok(v) => r matches Ok(x) && opt_view(x) == v,
            Err(e) => r matches Err(x) && x@ == e,
        },
{
    if optional_env(env, "KOKORO_DICT_DIR").is_some() {
        return optional_existing_dir(env, fs, "KOKORO_DICT_DIR");
    }
    match model_base(env) {
        None => Ok(None),
        Some(b) => {
            let dict = join_path(b.as_str(), "dict");
            if list_contains(&fs.dirs, dict.as_str()) {
                Ok(Some(dict))
            } else {
                Ok(None)
            }
        },
    }
}

/// The Kokoro configuration: the model, voices and tokens files, the data directory,
/// the lexicon list and dictionary directory, the language, the provider (default
/// `cuda`), the thread count (default 1) and the debug flag (default false), in this
/// order of checking.
pub open spec fn spec_kokoro_config(env: Seq<(Seq<char>, Seq<char>)>, fs: FsView, mock: bool) -> Result<
    KokoroView,
    ConfigErrorView,
> {
    match spec_required_path(env, fs, mock, "KOKORO_MODEL"@, "KOKORO_MODEL_FILE"@, "model.onnx"@) {
        Err(e) => Err(e),
        Ok(model) => match spec_required_path(
            env,
            fs,
            mock,
            "KOKORO_VOICES"@,
            "KOKORO_VOICES_FILE"@,
            "voices.bin"@,
        ) {
            Err(e) => Err(e),
            Ok(voices) => match spec_required_path(
                env,
                fs,
                mock,
                "KOKORO_TOKENS"@,
                "KOKORO_TOKENS_FILE"@,
                "tokens.txt"@,
            ) {
                Err(e) => Err(e),
                Ok(tokens) => match spec_data_dir(env, fs, mock) {
                    Err(e) => Err(e),
                    Ok(data_dir) => match spec_lexicon(env, fs) {
                        Err(e) => Err(e),
                        Ok(lexicon) => match spec_dict_dir(env, fs) {
                            Err(e) => Err(e),
                            Ok(dict_dir) => match parse_i32_spec(
                                spec_env_or(env, "SHERPA_ONNX_NUM_THREADS"@, "1"@),
                            ) {
                                None => Err(ConfigErrorView::InvalidNumThreads),
                                Some(num_threads) => match parse_bool_spec(
                                    spec_env_or(env, "SHERPA_ONNX_DEBUG"@, "false"@),
                                ) {
                                    None => Err(ConfigErrorView::InvalidDebug),
                                    Some(debug) => Ok(
                                        KokoroView {
                                            model,
                                            voices,
                                            tokens,
                                            data_dir,
                                            lexicon,
                                            dict_dir,
                                            lang: spec_optional_env(env, "KOKORO_LANG"@),
                                            provider: spec_env_or(
                                                env,
                                                "SHERPA_ONNX_PROVIDER"@,
                                                "cuda"@,
                                            ),
                                            num_threads: num_threads as i32,
                                            debug,
                                        },
                                    ),
                                },
                            },
                        },
                    },
                },
            },
        },
    }
}

/// The Kokoro configuration; existence checks of the required files and of the data
/// directory are skipped when `mock`.
pub fn kokoro_config(env: &EnvVars, fs: &PathProbe, mock: bool) -> (r: Result<
    KokoroConfig,
    ConfigError,
>)
    ensures
        match spec_kokoro_config(env@, fs@, mock) {
            Ok(c) => r matches Ok(x) && x@ == c,
            Err(e) => r matches Err(x) && x@ == e,
        },
{
    let model = match required_path(env, fs, mock, "KOKORO_MODEL", "KOKORO_MODEL_FILE", "model.onnx") {
        Ok(p) => p,
        Err(e) => {
            return Err(e);
        },
    };
    let voices = match required_path(env, fs, mock, "KOKORO_VOICES", "KOKORO_VOICES_FILE", "voices.bin") {
        Ok(p) => p,
        Err(e) => {
            return Err(e);
        },
    };
    let tokens = match required_path(env, fs, mock, "KOKORO_TOKENS", "KOKORO_TOKENS_FILE", "tokens.txt") {
        Ok(p) => p,
        Err(e) => {
            return Err(e);
        },
    };
    let data_dir = match data_dir_path(env, fs, mock) {
        Ok(p) => p,
        Err(e) => {
            return Err(e);
        },
    };
    let lexicon = match lexicon_paths(env, fs) {
        Ok(p) => p,
        Err(e) => {
            return Err(e);
        },
    };
    let dict_dir = match dict_dir_path(env, fs) {
        Ok(p) => p,
        Err(e) => {
            return Err(e);
        },
    };
    let lang = optional_env(env, "KOKORO_LANG");
    let provider = env_or(env, "SHERPA_ONNX_PROVIDER", "cuda");
    let threads_text = env_or(env, "SHERPA_ONNX_NUM_THREADS", "1");
    let num_threads = match parse_i32(threads_text.as_str()) {
        Some(n) => n,
        None => {
            return Err(ConfigError::InvalidNumThreads);
        },
    };
    let debug_text = env_or(env, "SHERPA_ONNX_DEBUG", "false");
    let debug = match parse_bool(debug_text.as_str()) {
        Some(b) => b,
        None => {
            return Err(ConfigError::InvalidDebug);
        },
    };
    Ok(
        KokoroConfig {
            model,
            voices,
            tokens,
            data_dir,
            lexicon,
            dict_dir,
            lang,
            provider,
            num_threads,
            debug,
        },
    )
}

/// What `serde_json::from_str` gives for a JSON object of names to `i32` ids, as its
/// entries in key order; `None` where the text is not such an object.
pub uninterp spec fn voice_map_json(raw: Seq<char>) -> Option<Seq<(Seq<char>, i32)>>;

#[verifier::external_type_specification]
#[verifier::external_body]
pub struct ExJsonError(serde_json::Error);

/// Calls `serde_json::from_str` for a map of names to `i32` ids (a `BTreeMap`, so the
/// entries come out in key order); the result is named `voice_map_json` of the text.
#[verifier::external_body]
fn parse_voice_map_json(raw: &str) -> (r: Result<Vec<(String, i32)>, serde_json::Error>)
    ensures
        match r {
            Ok(v) => voice_map_json(raw@) == Some(entries_view(v@)),
            Err(_) => voice_map_json(raw@) is None,
        },
{
    serde_json::from_str::<std::collections::BTreeMap<String, i32>>(raw).map(
        |m| m.into_iter().collect(),
    )
}

/// `m` with each entry inserted in order.
pub open spec fn insert_all(m: Map<Seq<char>, i32>, entries: Seq<(Seq<char>, i32)>) -> Map<
    Seq<char>,
    i32,
>
    decreases entries.len(),
{
    if entries.len() == 0 {
        m
    } else {
        insert_all(m, entries.drop_last()).insert(entries.last().0, entries.last().1)
    }
}

/// `map` with each configured (name, id) entry set in turn under its lowercased name.
pub fn merge_voice_entries(map: VoiceMap, configured: &Vec<(String, i32)>) -> (r: VoiceMap)
    ensures
        r@ == insert_all(map@, lowercase_entries(entries_view(configured@))),
{
    let mut map = map;
    let ghost start = map@;
    let ghost entries = entries_view(configured@);
    let n = configured.len();
    let mut i: usize = 0;
    proof {
        assert(lowercase_entries(entries).take(0) =~= Seq::<(Seq<char>, i32)>::empty());
    }
    while i < n
        invariant
            n == configured@.len(),
            entries == entries_view(configured@),
            i <= n,
            map@ == insert_all(start, lowercase_entries(entries).take(i as int)),
        decreases n - i,
    {
        let name = crate::text::to_lowercase(configured[i].0.as_str());
        let id = configured[i].1;
        proof {
            let l = lowercase_entries(entries);
            assert(l.take(i + 1).drop_last() =~= l.take(i as int));
            assert(entries[i as int] == (configured@[i as int].0@, id));
            assert(l.take(i + 1).last() == (name@, id));
        }
        map.insert(name, id);
        i = i + 1;
    }
    proof {
        assert(lowercase_entries(entries).take(n as int) =~= lowercase_entries(entries));
    }
    map
}

/// The voice table: the built-in one, overridden and extended by `VOICE_MAP_JSON` with
/// its names lowercased.
pub open spec fn spec_load_voice_map(env: Seq<(Seq<char>, Seq<char>)>) -> Result<
    Map<Seq<char>, i32>,
    ConfigErrorView,
> {
    match spec_optional_env(env, "VOICE_MAP_JSON"@) {
        None => Ok(spec_default_voices()),
        Some(raw) => match voice_map_json(raw) {
            None => Err(ConfigErrorView::InvalidVoiceMapJson),
            Some(entries) => Ok(insert_all(spec_default_voices(), lowercase_entries(entries))),
        },
    }
}

/// The voice table: the built-in one, overridden and extended by `VOICE_MAP_JSON`.
pub fn load_voice_map(env: &EnvVars) -> (r: Result<VoiceMap, ConfigError>)
    ensures
        match spec_load_voice_map(env@) {
            Ok(m) => r matches Ok(x) && x@ == m,
            Err(e) => r matches Err(x) && x@ == e,
        },
{
    let map = default_voice_map();
    let raw = match optional_env(env, "VOICE_MAP_JSON") {
        None => {
            return Ok(map);
        },
        Some(raw) => raw,
    };
    let configured = match parse_voice_map_json(raw.as_str()) {
        Ok(v) => v,
        Err(_) => {
            return Err(ConfigError::InvalidVoiceMapJson);
        },
    };
    Ok(merge_voice_entries(map, &configured))
}

/// The aliases served when `MODEL_ALIASES` is unset.
pub open spec fn spec_default_models() -> Seq<Seq<char>> {
    seq!["tts-1"@, "tts-1-hd"@, "gpt-4o-mini-tts"@]
}

fn default_models() -> (r: Vec<String>)
    ensures
        strings_view(r@) == spec_default_models(),
{
    let mut v: Vec<String> = Vec::new();
    v.push(owned("tts-1"));
    v.push(owned("tts-1-hd"));
    v.push(owned("gpt-4o-mini-tts"));
    proof {
        assert(strings_view(v@) =~= spec_default_models());
    }
    v
}

/// Whether the Kokoro model is replaced by a mock (`MOCK_TTS` is exactly `true`).
pub open spec fn spec_mock_tts(env: Seq<(Seq<char>, Seq<char>)>) -> bool {
    env_raw(env, "MOCK_TTS"@) == Some("true"@)
}

/// The whole configuration, checked in this order: model aliases, voice table, maximum
/// concurrency, then the Kokoro configuration.
pub open spec fn spec_app_config(env: Seq<(Seq<char>, Seq<char>)>, fs: FsView) -> Result<
    ConfigView,
    ConfigErrorView,
> {
    let aliases = match spec_parse_csv_env(env, "MODEL_ALIASES"@) {
        Some(items) => items,
        None => spec_default_models(),
    };
    if aliases.len() == 0 {
        Err(ConfigErrorView::NoModelAliases)
    } else {
        match spec_load_voice_map(env) {
            Err(e) => Err(e),
            Ok(voices) => match parse_usize_spec(
                spec_env_or(env, "MAX_CONCURRENT_SYNTHESIS"@, "1"@),
            ) {
                None => Err(ConfigErrorView::InvalidMaxConcurrent),
                Some(n) => if n == 0 {
                    Err(ConfigErrorView::ZeroMaxConcurrent)
                } else {
                    match spec_kokoro_config(env, fs, spec_mock_tts(env)) {
                        Err(e) => Err(e),
                        Ok(tts) => Ok(
                            ConfigView {
                                bind_addr: spec_env_or(env, "BIND_ADDR"@, "0.0.0.0:8080"@),
                                api_key: spec_optional_env(env, "OPENAI_API_KEY"@),
                                model_aliases: aliases,
                                voices,
                                max_concurrent_synthesis: n as usize,
                                tts,
                            },
                        ),
                    }
                },
            },
        }
    }
}

impl AppConfig {
    /// The configuration from the environment and what is known of the file system
    /// (which must cover `probe_paths`).
    pub fn from_env(env: &EnvVars, fs: &PathProbe) -> (r: Result<AppConfig, ConfigError>)
        ensures
            match spec_app_config(env@, fs@) {
                Ok(c) => r matches Ok(x) && x@ == c,
                Err(e) => r matches Err(x) && x@ == e,
            },
    {
        let mock_tts = match env.raw("MOCK_TTS") {
            Some(v) => same_text(v.as_str(), "true"),
            None => false,
        };
        let bind_addr = env_or(env, "BIND_ADDR", "0.0.0.0:8080");
        let api_key = optional_env(env, "OPENAI_API_KEY");
        let model_aliases = match parse_csv_env(env, "MODEL_ALIASES") {
            Some(items) => items,
            None => default_models(),
        };
        if model_aliases.len() == 0 {
            return Err(ConfigError::NoModelAliases);
        }
        let voice_map = match load_voice_map(env) {
            Ok(m) => m,
            Err(e) => {
                return Err(e);
            },
        };
        let max_text = env_or(env, "MAX_CONCURRENT_SYNTHESIS", "1");
        let max_concurrent_synthesis = match parse_usize(max_text.as_str()) {
            Some(n) => n,
            None => {
                return Err(ConfigError::InvalidMaxConcurrent);
            },
        };
        if max_concurrent_synthesis == 0 {
            return Err(ConfigError::ZeroMaxConcurrent);
        }
        let tts = match kokoro_config(env, fs, mock_tts) {
            Ok(t) => t,
            Err(e) => {
                return Err(e);
            },
        };
        Ok(AppConfig { bind_addr, api_key, model_aliases, voice_map, max_concurrent_synthesis, tts })
    }
}


/// A path as a list of none or one path.
pub open spec fn opt_seq(o: Option<Seq<char>>) -> Seq<Seq<char>> {
    match o {
        Some(p) => seq![p],
        None => Seq::<Seq<char>>::empty(),
    }
}

/// The directories that the data directory may be taken from.
pub open spec fn spec_data_dir_candidates(env: Seq<(Seq<char>, Seq<char>)>) -> Seq<Seq<char>> {
    match env_raw(env, "KOKORO_DATA_DIR"@) {
        Some(p) => seq![p],
        None => match spec_model_base(env) {
            None => Seq::<Seq<char>>::empty(),
            Some(b) => {
                let name = spec_env_or(env, "KOKORO_DATA_DIR_NAME"@, "espeak-ng-data"@);
                seq![path_join(b, name), path_join(path_join(b, "data"@), name)]
            },
        },
    }
}

/// The files that the lexicon list may be made of.
pub open spec fn spec_lexicon_candidates(env: Seq<(Seq<char>, Seq<char>)>) -> Seq<Seq<char>> {
    match spec_optional_env(env, "KOKORO_LEXICON"@) {
        Some(v) => split_commas(v),
        None => match spec_model_base(env) {
            None => Seq::<Seq<char>>::empty(),
            Some(b) => seq![path_join(b, "lexicon-us-en.txt"@), path_join(b, "lexicon-zh.txt"@)],
        },
    }
}

/// The directories that the dictionary directory may be taken from.
pub open spec fn spec_dict_candidates(env: Seq<(Seq<char>, Seq<char>)>) -> Seq<Seq<char>> {
    match spec_optional_env(env, "KOKORO_DICT_DIR"@) {
        Some(p) => seq![p],
        None => match spec_model_base(env) {
            None => Seq::<Seq<char>>::empty(),
            Some(b) => seq![path_join(b, "dict"@)],
        },
    }
}

/// Every path whose kind (file or directory) the configuration depends on.
pub open spec fn spec_probe_paths(env: Seq<(Seq<char>, Seq<char>)>) -> Seq<Seq<char>> {
    opt_seq(spec_path_candidate(env, "KOKORO_MODEL"@, "KOKORO_MODEL_FILE"@, "model.onnx"@))
        + opt_seq(spec_path_candidate(env, "KOKORO_VOICES"@, "KOKORO_VOICES_FILE"@, "voices.bin"@))
        + opt_seq(spec_path_candidate(env, "KOKORO_TOKENS"@, "KOKORO_TOKENS_FILE"@, "tokens.txt"@))
        + spec_data_dir_candidates(env) + spec_lexicon_candidates(env) + spec_dict_candidates(env)
}

fn push_opt(out: &mut Vec<String>, o: Option<String>)
    ensures
        strings_view(final(out)@) == strings_view(old(out)@) + opt_seq(opt_view(o)),
{
    let ghost before = out@;
    match o {
        Some(p) => {
            out.push(p);
            proof {
                assert(strings_view(out@) =~= strings_view(before) + opt_seq(opt_view(o)));
            }
        },
        None => {
            proof {
                assert(strings_view(out@) =~= strings_view(before) + opt_seq(opt_view(o)));
            }
        },
    }
}

fn push_all(out: &mut Vec<String>, items: Vec<String>)
    ensures
        strings_view(final(out)@) == strings_view(old(out)@) + strings_view(items@),
{
    let ghost before = strings_view(out@);
    let n = items.len();
    let mut i: usize = 0;
    while i < n
        invariant
            n == items@.len(),
            i <= n,
            strings_view(out@) == before + strings_view(items@).take(i as int),
        decreases n - i,
    {
        let ghost prev = out@;
        let item = items[i].clone();
        out.push(item);
        proof {
            assert(strings_view(out@) =~= strings_view(prev).push(items@[i as int]@));
            assert(strings_view(items@).take(i + 1) =~= strings_view(items@).take(i as int).push(
                items@[i as int]@,
            ));
            assert(strings_view(out@) =~= before + strings_view(items@).take(i + 1));
        }
        i = i + 1;
    }
    proof {
        assert(strings_view(items@).take(n as int) =~= strings_view(items@));
    }
}

impl AppConfig {
    /// Every path whose kind the configuration depends on: these are the paths that the
    /// file system must be asked about before `from_env`.
    pub fn probe_paths(env: &EnvVars) -> (r: Vec<String>)
        ensures
            strings_view(r@) == spec_probe_paths(env@),
    {
        let mut out: Vec<String> = Vec::new();
        proof {
            assert(strings_view(out@) =~= Seq::<Seq<char>>::empty());
        }
        push_opt(&mut out, path_candidate(env, "KOKORO_MODEL", "KOKORO_MODEL_FILE", "model.onnx"));
        push_opt(&mut out, path_candidate(env, "KOKORO_VOICES", "KOKORO_VOICES_FILE", "voices.bin"));
        push_opt(&mut out, path_candidate(env, "KOKORO_TOKENS", "KOKORO_TOKENS_FILE", "tokens.txt"));
        let base = model_base(env);
        let mut data: Vec<String> = Vec::new();
        match env.raw("KOKORO_DATA_DIR") {
            Some(p) => data.push(p),
            None => match &base {
                None => {},
                Some(b) => {
                    let name = env_or(env, "KOKORO_DATA_DIR_NAME", "espeak-ng-data");
                    data.push(join_path(b.as_str(), name.as_str()));
                    let nested = join_path(b.as_str(), "data");
                    data.push(join_path(nested.as_str(), name.as_str()));
                },
            },
        }
        proof {
            assert(strings_view(data@) =~= spec_data_dir_candidates(env@));
        }
        push_all(&mut out, data);
        let mut lexicons: Vec<String> = Vec::new();
        match optional_env(env, "KOKORO_LEXICON") {
            Some(v) => {
                lexicons = split_on_commas(v.as_str());
            },
            None => match &base {
                None => {},
                Some(b) => {
                    lexicons.push(join_path(b.as_str(), "lexicon-us-en.txt"));
                    lexicons.push(join_path(b.as_str(), "lexicon-zh.txt"));
                },
            },
        }
        proof {
            assert(strings_view(lexicons@) =~= spec_lexicon_candidates(env@));
        }
        push_all(&mut out, lexicons);
        let mut dicts: Vec<String> = Vec::new();
        match optional_env(env, "KOKORO_DICT_DIR") {
            Some(p) => dicts.push(p),
            None => match &base {
                None => {},
                Some(b) => dicts.push(join_path(b.as_str(), "dict")),
            },
        }
        proof {
            assert(strings_view(dicts@) =~= spec_dict_candidates(env@));
        }
        push_all(&mut out, dicts);
        out
    }
}

/// Two file systems that agree on which probe paths are files and which are directories.
pub open spec fn agree_on(fs1: FsView, fs2: FsView, paths: Seq<Seq<char>>) -> bool {
    forall|p: Seq<char>|
        #![trigger paths.contains(p)]
        paths.contains(p) ==> (is_file(fs1, p) == is_file(fs2, p) && is_dir(fs1, p) == is_dir(
            fs2,
            p,
        ))
}

proof fn lemma_agree_on_split(fs1: FsView, fs2: FsView, a: Seq<Seq<char>>, b: Seq<Seq<char>>)
    requires
        agree_on(fs1, fs2, a + b),
    ensures
        agree_on(fs1, fs2, a),
        agree_on(fs1, fs2, b),
{
    assert forall|p: Seq<char>| #![trigger a.contains(p)] a.contains(p) implies (is_file(fs1, p) == is_file(
        fs2,
        p,
    ) && is_dir(fs1, p) == is_dir(fs2, p)) by {
        let i = choose|i: int| 0 <= i < a.len() && a[i] == p;
        assert((a + b)[i] == p);
        assert((a + b).contains(p));
    }
    assert forall|p: Seq<char>| #![trigger b.contains(p)] b.contains(p) implies (is_file(fs1, p) == is_file(
        fs2,
        p,
    ) && is_dir(fs1, p) == is_dir(fs2, p)) by {
        let i = choose|i: int| 0 <= i < b.len() && b[i] == p;
        assert((a + b)[a.len() + i] == p);
        assert((a + b).contains(p));
    }
}

proof fn lemma_required_path_agree(
    env: Seq<(Seq<char>, Seq<char>)>,
    fs1: FsView,
    fs2: FsView,
    mock: bool,
    key: Seq<char>,
    file_key: Seq<char>,
    default_file: Seq<char>,
)
    requires
        agree_on(fs1, fs2, opt_seq(spec_path_candidate(env, key, file_key, default_file))),
    ensures
        spec_required_path(env, fs1, mock, key, file_key, default_file) == spec_required_path(
            env,
            fs2,
            mock,
            key,
            file_key,
            default_file,
        ),
{
    let o = spec_path_candidate(env, key, file_key, default_file);
    if let Some(p) = o {
        assert(opt_seq(o)[0] == p);
        assert(opt_seq(o).contains(p));
    }
}

proof fn lemma_data_dir_agree(env: Seq<(Seq<char>, Seq<char>)>, fs1: FsView, fs2: FsView, mock: bool)
    requires
        agree_on(fs1, fs2, spec_data_dir_candidates(env)),
    ensures
        spec_data_dir(env, fs1, mock) == spec_data_dir(env, fs2, mock),
{
    let d = spec_data_dir_candidates(env);
    assert(d.len() > 0 ==> d.contains(d[0]));
    assert(d.len() > 1 ==> d.contains(d[1]));
}

proof fn lemma_lexicon_agree(env: Seq<(Seq<char>, Seq<char>)>, fs1: FsView, fs2: FsView)
    requires
        agree_on(fs1, fs2, spec_lexicon_candidates(env)),
    ensures
        spec_lexicon(env, fs1) == spec_lexicon(env, fs2),
{
    let l = spec_lexicon_candidates(env);
    match spec_optional_env(env, "KOKORO_LEXICON"@) {
        Some(val) => {
            assert(all_files(fs1, val) == all_files(fs2, val)) by {
                assert forall|i: int| 0 <= i < split_commas(val).len() implies is_file(
                    fs1,
                    #[trigger] split_commas(val)[i],
                ) == is_file(fs2, split_commas(val)[i]) by {
                    assert(l[i] == split_commas(val)[i]);
                    assert(l.contains(l[i]));
                }
            }
        },
        None => {
            if let Some(b) = spec_model_base(env) {
                assert(l.contains(l[0]) && l.contains(l[1]));
                assert(spec_found_lexicons(fs1, b) == spec_found_lexicons(fs2, b));
            }
        },
    }
}

proof fn lemma_dict_agree(env: Seq<(Seq<char>, Seq<char>)>, fs1: FsView, fs2: FsView)
    requires
        agree_on(fs1, fs2, spec_dict_candidates(env)),
    ensures
        spec_dict_dir(env, fs1) == spec_dict_dir(env, fs2),
{
    let c = spec_dict_candidates(env);
    assert(c.len() > 0 ==> c.contains(c[0]));
}

proof fn lemma_kokoro_agree(env: Seq<(Seq<char>, Seq<char>)>, fs1: FsView, fs2: FsView, mock: bool)
    requires
        spec_required_path(env, fs1, mock, "KOKORO_MODEL"@, "KOKORO_MODEL_FILE"@, "model.onnx"@)
            == spec_required_path(env, fs2, mock, "KOKORO_MODEL"@, "KOKORO_MODEL_FILE"@, "model.onnx"@),
        spec_required_path(env, fs1, mock, "KOKORO_VOICES"@, "KOKORO_VOICES_FILE"@, "voices.bin"@)
            == spec_required_path(env, fs2, mock, "KOKORO_VOICES"@, "KOKORO_VOICES_FILE"@, "voices.bin"@),
        spec_required_path(env, fs1, mock, "KOKORO_TOKENS"@, "KOKORO_TOKENS_FILE"@, "tokens.txt"@)
            == spec_required_path(env, fs2, mock, "KOKORO_TOKENS"@, "KOKORO_TOKENS_FILE"@, "tokens.txt"@),
        spec_data_dir(env, fs1, mock) == spec_data_dir(env, fs2, mock),
        spec_lexicon(env, fs1) == spec_lexicon(env, fs2),
        spec_dict_dir(env, fs1) == spec_dict_dir(env, fs2),
    ensures
        spec_kokoro_config(env, fs1, mock) == spec_kokoro_config(env, fs2, mock),
{
}

/// Which paths are files or directories matters to the configuration only at the probe
/// paths: two file systems that agree there give the same configuration or error.
pub proof fn lemma_config_depends_only_on_probe_paths(
    env: Seq<(Seq<char>, Seq<char>)>,
    fs1: FsView,
    fs2: FsView,
)
    requires
        agree_on(fs1, fs2, spec_probe_paths(env)),
    ensures
        spec_app_config(env, fs1) == spec_app_config(env, fs2),
{
    let m = opt_seq(spec_path_candidate(env, "KOKORO_MODEL"@, "KOKORO_MODEL_FILE"@, "model.onnx"@));
    let v = opt_seq(spec_path_candidate(env, "KOKORO_VOICES"@, "KOKORO_VOICES_FILE"@, "voices.bin"@));
    let t = opt_seq(spec_path_candidate(env, "KOKORO_TOKENS"@, "KOKORO_TOKENS_FILE"@, "tokens.txt"@));
    let d = spec_data_dir_candidates(env);
    let l = spec_lexicon_candidates(env);
    let c = spec_dict_candidates(env);
    lemma_agree_on_split(fs1, fs2, m + v + t + d + l, c);
    lemma_agree_on_split(fs1, fs2, m + v + t + d, l);
    lemma_agree_on_split(fs1, fs2, m + v + t, d);
    lemma_agree_on_split(fs1, fs2, m + v, t);
    lemma_agree_on_split(fs1, fs2, m, v);
    let mock = spec_mock_tts(env);
    lemma_required_path_agree(env, fs1, fs2, mock, "KOKORO_MODEL"@, "KOKORO_MODEL_FILE"@, "model.onnx"@);
    lemma_required_path_agree(env, fs1, fs2, mock, "KOKORO_VOICES"@, "KOKORO_VOICES_FILE"@, "voices.bin"@);
    lemma_required_path_agree(env, fs1, fs2, mock, "KOKORO_TOKENS"@, "KOKORO_TOKENS_FILE"@, "tokens.txt"@);
    lemma_data_dir_agree(env, fs1, fs2, mock);
    lemma_lexicon_agree(env, fs1, fs2);
    lemma_dict_agree(env, fs1, fs2);
    lemma_kokoro_agree(env, fs1, fs2, mock);
}

/// The paths that a lexicon list names.
pub open spec fn listed_paths(list: Option<Seq<char>>) -> Seq<Seq<char>> {
    match list {
        None => Seq::<Seq<char>>::empty(),
        Some(v) => split_commas(v),
    }
}

/// A path, listed when it is an existing file.
pub open spec fn if_file(fs: FsView, p: Seq<char>) -> Seq<Seq<char>> {
    if is_file(fs, p) {
        seq![p]
    } else {
        Seq::<Seq<char>>::empty()
    }
}

/// With `KOKORO_LEXICON` unset, the lexicon list names exactly the lexicon files present
/// in the model directory, English before Chinese; it is absent only when neither is
/// there, and absent when there is no model directory. (A directory whose name holds a
/// comma would make the list ambiguous, so it is left out.)
pub proof fn lemma_inferred_lexicons_are_the_present_files(
    env: Seq<(Seq<char>, Seq<char>)>,
    fs: FsView,
)
    requires
        spec_optional_env(env, "KOKORO_LEXICON"@) is None,
        spec_model_base(env) matches Some(b) ==> !b.contains(','),
    ensures
        spec_lexicon(env, fs) is Ok,
        spec_model_base(env) is None ==> spec_lexicon(env, fs) == Ok::<
            Option<Seq<char>>,
            ConfigErrorView,
        >(None),
        spec_model_base(env) matches Some(b) ==> {
            let us = path_join(b, "lexicon-us-en.txt"@);
            let zh = path_join(b, "lexicon-zh.txt"@);
            &&& listed_paths(spec_lexicon(env, fs)->Ok_0) == if_file(fs, us) + if_file(fs, zh)
            &&& (spec_lexicon(env, fs)->Ok_0 is None <==> (!is_file(fs, us) && !is_file(fs, zh)))
        },
{
    if let Some(b) = spec_model_base(env) {
        let us = path_join(b, "lexicon-us-en.txt"@);
        let zh = path_join(b, "lexicon-zh.txt"@);
        reveal_strlit("lexicon-us-en.txt");
        reveal_strlit("lexicon-zh.txt");
        reveal_strlit(",");
        assert(!"lexicon-us-en.txt"@.contains(',')) by {
            assert forall|i: int| 0 <= i < "lexicon-us-en.txt"@.len() implies "lexicon-us-en.txt"@[i]
                != ',' by {}
        }
        assert(!"lexicon-zh.txt"@.contains(',')) by {
            assert forall|i: int| 0 <= i < "lexicon-zh.txt"@.len() implies "lexicon-zh.txt"@[i]
                != ',' by {}
        }
        lemma_path_join_no_comma(b, "lexicon-us-en.txt"@);
        lemma_path_join_no_comma(b, "lexicon-zh.txt"@);
        assert(","@ =~= seq![',']);
        if is_file(fs, us) && is_file(fs, zh) {
            lemma_split_pair(us, zh);
            assert(if_file(fs, us) + if_file(fs, zh) =~= seq![us, zh]);
        } else if is_file(fs, us) {
            lemma_split_single(us);
            assert(if_file(fs, us) + if_file(fs, zh) =~= seq![us]);
        } else if is_file(fs, zh) {
            lemma_split_single(zh);
            assert(if_file(fs, us) + if_file(fs, zh) =~= seq![zh]);
        } else {
            assert(if_file(fs, us) + if_file(fs, zh) =~= Seq::<Seq<char>>::empty());
        }
    }
}

} // verus!

use crate::text::{join_path, join_path_spec};
use vstd::prelude::*;

verus! {

/// Application settings: whether first-run setup is done and which model
/// files were chosen.
#[derive(Clone, Debug)]
pub struct AppConfig {
    pub setup_complete: bool,
    pub whisper_model: Option<String>,
    pub llm_model: Option<String>,
}

impl Default for AppConfig {
    fn default() -> (r: Self)
        ensures
            !r.setup_complete,
            r.whisper_model is None,
            r.llm_model is None,
    {
        AppConfig { setup_complete: false, whisper_model: None, llm_model: None }
    }
}

/// The application's data directory under the platform directory `base`,
/// or under the working directory when there is none.
pub open spec fn data_dir_spec(base: Option<Seq<char>>) -> Seq<char> {
    join_path_spec(
        match base {
            Some(b) => b,
            None => "."@,
        },
        "meeting-recorder"@,
    )
}

/// Relies on `dirs::data_local_dir`: the user's local data directory, when
/// the platform and the environment name one.
#[verifier::external_body]
fn local_data_dir() -> (r: Option<String>) {
    dirs::data_local_dir().map(|p| p.to_string_lossy().into_owned())
}

/// The path of a chosen model file under `models_dir`.
pub open spec fn model_path_spec(models_dir: Seq<char>, name: Option<String>) -> Option<Seq<char>> {
    match name {
        Some(n) => Some(join_path_spec(models_dir, n@)),
        None => None,
    }
}

impl AppConfig {
    /// The application's data directory inside the platform directory
    /// `base`.
    pub fn data_dir_in(base: &Option<String>) -> (r: String)
        ensures
            r@ == data_dir_spec(
                match base {
                    Some(b) => Some(b@),
                    None => None,
                },
            ),
    {
        match base {
            Some(b) => join_path(b.as_str(), "meeting-recorder"),
            None => join_path(".", "meeting-recorder"),
        }
    }

    /// The application's data directory.
    pub fn data_dir() -> (r: String)
        ensures
            exists|base: Option<Seq<char>>| r@ == data_dir_spec(base),
    {
        let base = local_data_dir();
        Self::data_dir_in(&base)
    }

    /// Where model files are kept.
    pub fn models_dir() -> (r: String)
        ensures
            exists|base: Option<Seq<char>>| r@ == join_path_spec(data_dir_spec(base), "models"@),
    {
        let d = Self::data_dir();
        join_path(d.as_str(), "models")
    }

    /// Where the settings are stored.
    pub fn config_path() -> (r: String)
        ensures
            exists|base: Option<Seq<char>>| r@ == join_path_spec(
                data_dir_spec(base),
                "config.json"@,
            ),
    {
        let d = Self::data_dir();
        join_path(d.as_str(), "config.json")
    }

    /// Whether first-run setup still has to be done.
    pub fn needs_setup(&self) -> (r: bool)
        ensures
            r == !self.setup_complete,
    {
        !self.setup_complete
    }

    /// The path of the file `name` (if a model was chosen) under `models_dir`.
    pub fn model_path_in(models_dir: &str, name: &Option<String>) -> (r: Option<String>)
        ensures
            match model_path_spec(models_dir@, *name) {
                Some(p) => r is Some && r->0@ == p,
                None => r is None,
            },
    {
        match name {
            Some(n) => Some(join_path(models_dir, n.as_str())),
            None => None,
        }
    }

    /// Where the chosen speech-recognition model is stored, whether or not it
    /// has been downloaded yet; none when no model was chosen.
    pub fn whisper_model_path(&self) -> (r: Option<String>)
        ensures
            self.whisper_model is None ==> r is None,
            self.whisper_model is Some ==> r is Some && exists|base: Option<Seq<char>>|
                r->0@ == join_path_spec(
                    join_path_spec(data_dir_spec(base), "models"@),
                    self.whisper_model->0@,
                ),
    {
        let dir = Self::models_dir();
        Self::model_path_in(dir.as_str(), &self.whisper_model)
    }

    /// Where the chosen language model is stored, whether or not it has been
    /// downloaded yet; none when no model was chosen.
    pub fn llm_model_path(&self) -> (r: Option<String>)
        ensures
            self.llm_model is None ==> r is None,
            self.llm_model is Some ==> r is Some && exists|base: Option<Seq<char>>|
                r->0@ == join_path_spec(
                    join_path_spec(data_dir_spec(base), "models"@),
                    self.llm_model->0@,
                ),
    {
        let dir = Self::models_dir();
        Self::model_path_in(dir.as_str(), &self.llm_model)
    }
}

/// A model file that can be downloaded.
#[derive(Clone, Debug)]
pub struct ModelInfo {
    pub id: String,
    pub name: String,
    pub size_bytes: u64,
    pub url: String,
    pub filename: String,
}

/// `m` carries exactly these fields.
pub open spec fn info_is(
    m: ModelInfo,
    id: Seq<char>,
    name: Seq<char>,
    size_bytes: u64,
    url: Seq<char>,
    filename: Seq<char>,
) -> bool {
    &&& m.id@ == id
    &&& m.name@ == name
    &&& m.size_bytes == size_bytes
    &&& m.url@ == url
    &&& m.filename@ == filename
}

impl ModelInfo {
    fn make(id: &str, name: &str, size_bytes: u64, url: &str, filename: &str) -> (r: Self)
        ensures
            info_is(r, id@, name@, size_bytes, url@, filename@),
    {
        ModelInfo {
            id: String::from_str(id),
            name: String::from_str(name),
            size_bytes,
            url: String::from_str(url),
            filename: String::from_str(filename),
        }
    }

    /// The speech-recognition models on offer; with `dev_mode`, one tiny test
    /// file instead.
    pub fn whisper_models(dev_mode: bool) -> (r: Vec<Self>)
        ensures
            dev_mode ==> r@.len() == 1 && info_is(
                    r@[0],
                    "whisper-dev"@,
                    "[DEV] Tiny Test File"@,
                    1_000,
                    "https://httpbin.org/bytes/1000"@,
                    "whisper-dev.bin"@,
                ),
            !dev_mode ==> r@.len() == 3 && info_is(
                    r@[0],
                    "whisper-base-en"@,
                    "Whisper Base (English)"@,
                    148_000_000,
                    "https://huggingface.co/ggerganov/whisper.cpp/resolve/main/ggml-base.en.bin"@,
                    "ggml-base.en.bin"@,
                ) && info_is(
                    r@[1],
                    "whisper-small-en"@,
                    "Whisper Small (English)"@,
                    488_000_000,
                    "https://huggingface.co/ggerganov/whisper.cpp/resolve/main/ggml-small.en.bin"@,
                    "ggml-small.en.bin"@,
                ) && info_is(
                    r@[2],
                    "whisper-medium-en"@,
                    "Whisper Medium (English)"@,
                    1_533_000_000,
                    "https://huggingface.co/ggerganov/whisper.cpp/resolve/main/ggml-medium.en.bin"@,
                    "ggml-medium.en.bin"@,
                ),
    {
        if dev_mode {
            return vec![
                ModelInfo::make(
                    "whisper-dev",
                    "[DEV] Tiny Test File",
                    1_000,
                    "https://httpbin.org/bytes/1000",
                    "whisper-dev.bin",
                ),
            ];
        }
        vec![
                ModelInfo::make(
                    "whisper-base-en",
                    "Whisper Base (English)",
                    148_000_000,
                    "https://huggingface.co/ggerganov/whisper.cpp/resolve/main/ggml-base.en.bin",
                    "ggml-base.en.bin",
                ),
                ModelInfo::make(
                    "whisper-small-en",
                    "Whisper Small (English)",
                    488_000_000,
                    "https://huggingface.co/ggerganov/whisper.cpp/resolve/main/ggml-small.en.bin",
                    "ggml-small.en.bin",
                ),
                ModelInfo::make(
                    "whisper-medium-en",
                    "Whisper Medium (English)",
                    1_533_000_000,
                    "https://huggingface.co/ggerganov/whisper.cpp/resolve/main/ggml-medium.en.bin",
                    "ggml-medium.en.bin",
                ),
            ]
    }

    /// The language models on offer; with `dev_mode`, one tiny test file
    /// instead.
    pub fn llm_models(dev_mode: bool) -> (r: Vec<Self>)
        ensures
            dev_mode ==> r@.len() == 1 && info_is(
                    r@[0],
                    "llm-dev"@,
                    "[DEV] Tiny Test File"@,
                    1_000,
                    "https://httpbin.org/bytes/1000"@,
                    "llm-dev.bin"@,
                ),
            !dev_mode ==> r@.len() == 2 && info_is(
                    r@[0],
                    "qwen3-1.7b"@,
                    "Qwen 3 1.7B (Recommended)"@,
                    1_730_000_000,
                    "https://huggingface.co/Qwen/Qwen3-1.7B-GGUF/resolve/main/Qwen3-1.7B-Q8_0.gguf"@,
                    "Qwen3-1.7B-Q8_0.gguf"@,
                ) && info_is(
                    r@[1],
                    "qwen3-4b"@,
                    "Qwen 3 4B (More accurate)"@,
                    4_300_000_000,
                    "https://huggingface.co/Qwen/Qwen3-4B-GGUF/resolve/main/Qwen3-4B-Q8_0.gguf"@,
                    "Qwen3-4B-Q8_0.gguf"@,
                ),
    {
        if dev_mode {
            return vec![
                ModelInfo::make(
                    "llm-dev",
                    "[DEV] Tiny Test File",
                    1_000,
                    "https://httpbin.org/bytes/1000",
                    "llm-dev.bin",
                ),
            ];
        }
        vec![
                ModelInfo::make(
                    "qwen3-1.7b",
                    "Qwen 3 1.7B (Recommended)",
                    1_730_000_000,
                    "https://huggingface.co/Qwen/Qwen3-1.7B-GGUF/resolve/main/Qwen3-1.7B-Q8_0.gguf",
                    "Qwen3-1.7B-Q8_0.gguf",
                ),
                ModelInfo::make(
                    "qwen3-4b",
                    "Qwen 3 4B (More accurate)",
                    4_300_000_000,
                    "https://huggingface.co/Qwen/Qwen3-4B-GGUF/resolve/main/Qwen3-4B-Q8_0.gguf",
                    "Qwen3-4B-Q8_0.gguf",
                ),
            ]
    }
}

} // verus!

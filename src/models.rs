//! Recognizer model registry and credential resolution.

use vstd::prelude::*;

verus! {

pub const PARAFORMER_MODEL_ID: &'static str = "sherpa-onnx-paraformer-zh-small-2024-03-09";
pub const SENSEVOICE_MODEL_ID: &'static str = "sherpa-onnx-sense-voice-zh-en-ja-ko-yue-int8-2025-09-09";
pub const DEFAULT_MODEL_ID: &'static str = PARAFORMER_MODEL_ID;

/// The local recognizer families.
#[derive(Clone, Copy, Debug, PartialEq, Eq, Structural)]
pub enum RecognizerKind {
    Paraformer,
    SenseVoice,
}

impl RecognizerKind {
    /// The family for a model id; anything but the SenseVoice id runs Paraformer.
    pub fn from_model_id(model_id: &str) -> (r: RecognizerKind)
        ensures
            r == (if model_id@ == SENSEVOICE_MODEL_ID@ {
                RecognizerKind::SenseVoice
            } else {
                RecognizerKind::Paraformer
            }),
    {
        if crate::history::str_equals(model_id, SENSEVOICE_MODEL_ID) {
            RecognizerKind::SenseVoice
        } else {
            RecognizerKind::Paraformer
        }
    }
}

/// The text with leading and trailing whitespace removed.
pub uninterp spec fn trimmed(s: Seq<char>) -> Seq<char>;

/// Relies on `str::trim`: the result is the input without leading and
/// trailing Unicode whitespace, so never longer than it.
#[verifier::external_body]
pub(crate) fn trim_text(s: &str) -> (r: String)
    ensures
        r@ == trimmed(s@),
        r@.len() <= s@.len(),
{
    s.trim().to_string()
}

/// A credential value after trimming: present only when something remains.
pub open spec fn sanitized(value: Option<String>) -> Option<Seq<char>> {
    match value {
        Some(v) => if trimmed(v@).len() > 0 { Some(trimmed(v@)) } else { None },
        None => None,
    }
}

/// An already-trimmed value kept only when it is not empty.
pub fn non_empty(trimmed_value: String) -> (r: Option<String>)
    ensures
        trimmed_value@.len() == 0 ==> r is None,
        trimmed_value@.len() > 0 ==> r == Some(trimmed_value),
{
    if trimmed_value.unicode_len() == 0 {
        None
    } else {
        Some(trimmed_value)
    }
}

/// Trims a user-supplied key; blank keys count as absent.
pub fn sanitize_api_key(value: Option<String>) -> (r: Option<String>)
    ensures
        match sanitized(value) {
            Some(k) => r matches Some(s) && s@ == k,
            None => r is None,
        },
{
    match value {
        Some(v) => non_empty(trim_text(v.as_str())),
        None => None,
    }
}

/// No usable credential was configured anywhere.
#[derive(Clone, Copy, Debug, PartialEq, Eq, Structural)]
pub enum CredentialError {
    Missing,
}

/// The first present value among the sources, in priority order.
pub open spec fn first_present(sources: Seq<Option<Seq<char>>>) -> Option<Seq<char>>
    decreases sources.len(),
{
    if sources.len() == 0 {
        None
    } else if sources[0] is Some {
        sources[0]
    } else {
        first_present(sources.drop_first())
    }
}

/// Resolves an API key: an explicit override, then the stored setting, then
/// the provider's environment variable, then the default environment
/// variable. The first value that is not blank wins, trimmed.
pub fn resolve_api_key(
    api_key_override: Option<String>,
    entry_value: Option<String>,
    provider_env_value: Option<String>,
    default_env_value: Option<String>,
) -> (r: Result<String, CredentialError>)
    ensures
        ({
            let chain = seq![
                sanitized(api_key_override),
                sanitized(entry_value),
                sanitized(provider_env_value),
                sanitized(default_env_value),
            ];
            match first_present(chain) {
                Some(k) => r matches Ok(s) && s@ == k,
                None => r == Err::<String, CredentialError>(CredentialError::Missing),
            }
        }),
{
    let ghost chain = seq![
        sanitized(api_key_override),
        sanitized(entry_value),
        sanitized(provider_env_value),
        sanitized(default_env_value),
    ];
    proof {
        assert(chain.drop_first() =~= seq![sanitized(entry_value), sanitized(provider_env_value), sanitized(default_env_value)]);
        assert(chain.drop_first().drop_first() =~= seq![sanitized(provider_env_value), sanitized(default_env_value)]);
        assert(chain.drop_first().drop_first().drop_first() =~= seq![sanitized(default_env_value)]);
        assert(chain.drop_first().drop_first().drop_first().drop_first() =~= Seq::<Option<Seq<char>>>::empty());
        reveal_with_fuel(first_present, 5);
    }
    if let Some(k) = sanitize_api_key(api_key_override) {
        return Ok(k);
    }
    if let Some(k) = sanitize_api_key(entry_value) {
        return Ok(k);
    }
    if let Some(k) = sanitize_api_key(provider_env_value) {
        return Ok(k);
    }
    if let Some(k) = sanitize_api_key(default_env_value) {
        return Ok(k);
    }
    Err(CredentialError::Missing)
}

/// Readiness of one local model's files.
#[derive(Clone, Debug)]
pub struct OfflineAsrModelStatus {
    pub id: String,
    pub title: String,
    pub ready: bool,
    pub missing_files: Vec<String>,
    pub install_dir: String,
}

/// Readiness of every local model.
#[derive(Clone, Debug)]
pub struct OfflineModelsStatus {
    pub ready: bool,
    pub missing_files: Vec<String>,
    pub install_dir: String,
    pub models: Vec<OfflineAsrModelStatus>,
}

/// Progress of a model download.
#[derive(Clone, Debug)]
pub struct OfflineModelDownloadProgress {
    pub model_id: String,
    pub received_bytes: u64,
    pub total_bytes: Option<u64>,
}

/// A local model: its id, title and required files as (file, description).
#[derive(Clone, Debug)]
pub struct LocalModelSpec {
    pub id: String,
    pub title: String,
    pub required_files: Vec<(String, String)>,
}

pub open spec fn is_local_model(model_id: Seq<char>) -> bool {
    model_id == PARAFORMER_MODEL_ID@ || model_id == SENSEVOICE_MODEL_ID@
}

/// The local model with the given id, if any. Both need the weights and the
/// vocabulary.
pub fn get_spec(model_id: &str) -> (r: Option<LocalModelSpec>)
    ensures
        r is Some <==> is_local_model(model_id@),
        r matches Some(s) ==> {
            &&& s.id@ == model_id@
            &&& s.required_files@.len() == 2
            &&& s.required_files@[0].0@ == "model.int8.onnx"@
            &&& s.required_files@[0].1@ == "ASR 模型文件"@
            &&& s.required_files@[1].0@ == "tokens.txt"@
            &&& s.required_files@[1].1@ == "词表文件"@
        },
{
    let title = if crate::history::str_equals(model_id, PARAFORMER_MODEL_ID) {
        "Paraformer 小尺寸离线识别"
    } else if crate::history::str_equals(model_id, SENSEVOICE_MODEL_ID) {
        "SenseVoice 多语种离线识别"
    } else {
        return None;
    };
    let mut files: Vec<(String, String)> = Vec::new();
    files.push(("model.int8.onnx".to_owned(), "ASR 模型文件".to_owned()));
    files.push(("tokens.txt".to_owned(), "词表文件".to_owned()));
    Some(LocalModelSpec { id: model_id.to_owned(), title: title.to_owned(), required_files: files })
}

/// How a missing file is listed: its description, then `id/file` in brackets.
pub open spec fn missing_label(id: Seq<char>, file: Seq<char>, description: Seq<char>) -> Seq<char> {
    description + "（"@ + id + "/"@ + file + "）"@
}

/// Whether flag `i` says the file exists; absent flags mean absent files.
pub open spec fn present_at(present: Seq<bool>, i: int) -> bool {
    0 <= i < present.len() && present[i]
}

/// The labels of the required files that do not exist, in order.
pub open spec fn absent_labels(id: Seq<char>, files: Seq<(String, String)>, present: Seq<bool>) -> Seq<Seq<char>>
    decreases files.len(),
{
    if files.len() == 0 {
        Seq::empty()
    } else {
        let head = absent_labels(id, files.drop_last(), present);
        if present_at(present, files.len() - 1) {
            head
        } else {
            head.push(missing_label(id, files.last().0@, files.last().1@))
        }
    }
}

/// Builds a model's status from which of its required files exist (flag `i`
/// for file `i`): each missing file is listed, and the model is ready
/// exactly when none is missing.
pub fn status_for_spec(spec: &LocalModelSpec, present: &Vec<bool>, install_dir: String) -> (r: OfflineAsrModelStatus)
    ensures
        r.id == spec.id,
        r.title == spec.title,
        r.install_dir == install_dir,
        r.missing_files@.map_values(|s: String| s@) == absent_labels(spec.id@, spec.required_files@, present@),
        r.ready == (r.missing_files@.len() == 0),
        r.ready <==> forall|i: int| 0 <= i < spec.required_files@.len() ==> present_at(present@, i),
{
    let files = &spec.required_files;
    let mut missing: Vec<String> = Vec::new();
    let n = files.len();
    let mut i: usize = 0;
    while i < n
        invariant
            n == files@.len(),
            files == spec.required_files,
            i <= n,
            missing@.map_values(|s: String| s@) == absent_labels(spec.id@, files@.subrange(0, i as int), present@),
            (missing@.len() == 0) <==> forall|k: int| 0 <= k < i ==> present_at(present@, k),
        decreases n - i,
    {
        proof {
            assert(files@.subrange(0, i + 1).drop_last() =~= files@.subrange(0, i as int));
        }
        let here = i < present.len() && present[i];
        if !here {
            let (file, description) = &files[i];
            let mut label = description.clone();
            label.append("（");
            label.append(spec.id.as_str());
            label.append("/");
            label.append(file.as_str());
            label.append("）");
            missing.push(label);
        }
        i = i + 1;
        assert(missing@.map_values(|s: String| s@) =~= absent_labels(spec.id@, files@.subrange(0, i as int), present@));
    }
    proof {
        assert(files@.subrange(0, n as int) =~= files@);
    }
    let ready = missing.len() == 0;
    OfflineAsrModelStatus { id: spec.id.clone(), title: spec.title.clone(), ready, missing_files: missing, install_dir }
}

/// Why a local model cannot be used yet.
#[derive(Clone, Debug)]
pub enum ModelError {
    /// The model id is not one of the local models.
    UnknownModel { model_id: String },
    /// Required files are absent.
    NotReady { missing_files: Vec<String> },
}

/// The labels a local model with id `id` lists as missing, given which of
/// its two files exist.
pub open spec fn expected_missing(id: Seq<char>, present: Seq<bool>) -> Seq<Seq<char>> {
    (if present_at(present, 0) {
        Seq::<Seq<char>>::empty()
    } else {
        seq![missing_label(id, "model.int8.onnx"@, "ASR 模型文件"@)]
    }) + (if present_at(present, 1) {
        Seq::<Seq<char>>::empty()
    } else {
        seq![missing_label(id, "tokens.txt"@, "词表文件"@)]
    })
}

/// Checked before recognition starts: an unknown model id is refused, and
/// so is a model with missing files, naming them. `present` says, file by
/// file in the order of `get_spec`, which files exist.
pub fn ensure_model_ready(model_id: &str, present: &Vec<bool>) -> (r: Result<(), ModelError>)
    ensures
        !is_local_model(model_id@) ==> (r matches Err(ModelError::UnknownModel { model_id: m }) && m@ == model_id@),
        is_local_model(model_id@) ==> {
            let ok = present_at(present@, 0) && present_at(present@, 1);
            &&& ok ==> r is Ok
            &&& !ok ==> (r matches Err(ModelError::NotReady { missing_files }) && missing_files@.map_values(
                |s: String| s@,
            ) == expected_missing(model_id@, present@))
        },
{
    match get_spec(model_id) {
        None => Err(ModelError::UnknownModel { model_id: model_id.to_owned() }),
        Some(spec) => {
            let status = status_for_spec(&spec, present, String::new());
            proof {
                let files = spec.required_files@;
                reveal_with_fuel(absent_labels, 3);
                assert(files.drop_last().drop_last() =~= Seq::<(String, String)>::empty());
                assert(files.drop_last().last() == files[0]);
                assert(absent_labels(spec.id@, files, present@) =~= expected_missing(model_id@, present@));
                if !(present_at(present@, 0) && present_at(present@, 1)) {
                    assert(!status.ready);
                }
            }
            if status.ready {
                Ok(())
            } else {
                Err(ModelError::NotReady { missing_files: status.missing_files })
            }
        },
    }
}

/// A provider through which a text model is reached.
#[derive(Clone, Debug)]
pub struct LlmProviderConfig {
    pub id: String,
    pub name: String,
    pub model: Option<String>,
    pub api_key_url: Option<String>,
    pub api_base_url: Option<String>,
    pub api_key_env: Option<String>,
}

/// A text model and its providers.
#[derive(Clone, Debug)]
pub struct LlmModelConfig {
    pub id: String,
    pub title: String,
    pub providers: Vec<LlmProviderConfig>,
}

/// A provider of a speech recognition model.
#[derive(Clone, Debug)]
pub struct AsrProviderConfig {
    pub id: String,
    pub name: String,
    pub model: Option<String>,
}

/// A speech recognition model and its providers.
#[derive(Clone, Debug)]
pub struct AsrModelConfig {
    pub id: String,
    pub title: String,
    pub offline: bool,
    pub size: String,
    pub providers: Vec<AsrProviderConfig>,
}

/// Every model the application knows.
#[derive(Clone, Debug)]
pub struct SupportedModels {
    pub llm_models: Vec<LlmModelConfig>,
    pub asr_models: Vec<AsrModelConfig>,
}

/// Stored state of one text-model variant: its key and usage counters.
#[derive(Clone, Debug)]
pub struct LlmModelStore {
    pub id: String,
    pub text_model_id: String,
    pub provider: String,
    pub api_key: Option<String>,
    pub free_total_requests: u32,
    pub free_total_token_usage: u32,
    pub total_requests: u32,
    pub total_token_usage: u32,
    pub active: bool,
    pub usage_date: Option<String>,
}

fn llm_provider(id: &str, name: &str, model: &str, key_url: &str, base_url: &str, key_env: &str) -> (r: LlmProviderConfig)
    ensures
        r.id@ == id@,
        r.name@ == name@,
        r.model matches Some(m) && m@ == model@,
        r.api_key_url matches Some(u) && u@ == key_url@,
        r.api_base_url matches Some(u) && u@ == base_url@,
        r.api_key_env matches Some(e) && e@ == key_env@,
{
    LlmProviderConfig {
        id: id.to_owned(),
        name: name.to_owned(),
        model: Some(model.to_owned()),
        api_key_url: Some(key_url.to_owned()),
        api_base_url: Some(base_url.to_owned()),
        api_key_env: Some(key_env.to_owned()),
    }
}

fn local_asr_model(id: &str, title: &str, size: &str) -> (r: AsrModelConfig)
    ensures
        r.id@ == id@,
        r.offline,
        r.providers@.len() == 1,
{
    let mut providers: Vec<AsrProviderConfig> = Vec::new();
    providers.push(AsrProviderConfig { id: "local".to_owned(), name: "本地".to_owned(), model: None });
    AsrModelConfig { id: id.to_owned(), title: title.to_owned(), offline: true, size: size.to_owned(), providers }
}

/// The built-in catalogue: two text models (DeepSeek through two providers,
/// Qwen through one) and the two local recognizers.
pub fn supported_models() -> (r: SupportedModels)
    ensures
        r.llm_models@.len() == 2,
        r.llm_models@[0].id@ == "deepseek"@,
        r.llm_models@[0].providers@.len() == 2,
        r.llm_models@[0].providers@[0].id@ == "deepseek"@,
        r.llm_models@[0].providers@[0].model matches Some(m) && m@ == "deepseek-chat"@,
        r.llm_models@[0].providers@[0].api_base_url matches Some(u) && u@
            == "https://api.deepseek.com/v1/chat/completions"@,
        r.llm_models@[0].providers@[0].api_key_env matches Some(e) && e@ == "DEEPSEEK_API_KEY"@,
        r.llm_models@[0].providers@[1].id@ == "modelscope"@,
        r.llm_models@[0].providers@[1].api_key_env matches Some(e) && e@ == "MODELSCOPE_ACCESS_TOKEN"@,
        r.llm_models@[1].providers@[0].id@ == "modelscope"@,
        r.llm_models@[1].providers@[0].model matches Some(m) && m@ == "Qwen/Qwen3-32B"@,
        r.llm_models@[1].id@ == "qwen"@,
        r.llm_models@[1].providers@.len() == 1,
        r.asr_models@.len() == 2,
        r.asr_models@[0].id@ == PARAFORMER_MODEL_ID@,
        r.asr_models@[1].id@ == SENSEVOICE_MODEL_ID@,
        r.asr_models@[0].offline && r.asr_models@[1].offline,
{
    let mut deepseek_providers: Vec<LlmProviderConfig> = Vec::new();
    deepseek_providers.push(llm_provider(
        "deepseek",
        "DeepSeek",
        "deepseek-chat",
        "https://platform.deepseek.com/api_keys",
        "https://api.deepseek.com/v1/chat/completions",
        "DEEPSEEK_API_KEY",
    ));
    deepseek_providers.push(llm_provider(
        "modelscope",
        "魔搭社区",
        "deepseek-ai/DeepSeek-V3.2-Exp",
        "https://modelscope.cn/my/myaccesstoken",
        "https://api-inference.modelscope.cn/v1/chat/completions",
        "MODELSCOPE_ACCESS_TOKEN",
    ));
    let mut qwen_providers: Vec<LlmProviderConfig> = Vec::new();
    qwen_providers.push(llm_provider(
        "modelscope",
        "魔搭社区",
        "Qwen/Qwen3-32B",
        "https://modelscope.cn/my/myaccesstoken",
        "https://api-inference.modelscope.cn/v1/chat/completions",
        "MODELSCOPE_ACCESS_TOKEN",
    ));
    let mut llm_models: Vec<LlmModelConfig> = Vec::new();
    llm_models.push(LlmModelConfig { id: "deepseek".to_owned(), title: "DeepSeek".to_owned(), providers: deepseek_providers });
    llm_models.push(LlmModelConfig { id: "qwen".to_owned(), title: "通义千问".to_owned(), providers: qwen_providers });
    let mut asr_models: Vec<AsrModelConfig> = Vec::new();
    asr_models.push(local_asr_model(PARAFORMER_MODEL_ID, "Paraformer 中文通用离线轻量版", "83.4 MB"));
    asr_models.push(local_asr_model(SENSEVOICE_MODEL_ID, "SenseVoice 中英日韩粤语离线轻量版", "244 MB"));
    SupportedModels { llm_models, asr_models }
}

/// The provider a stored text-model entry runs through, as indices into the
/// catalogue: the first model with the entry's id, and within it the first
/// provider with the entry's provider id, else its first provider. `None`
/// when no model has the id, or that model lists no provider.
pub fn select_provider(catalogue: &SupportedModels, text_model_id: &str, provider_id: &str) -> (r: Option<(usize, usize)>)
    ensures
        r matches Some((i, j)) ==> {
            let ps = catalogue.llm_models@[i as int].providers@;
            &&& i < catalogue.llm_models@.len()
            &&& catalogue.llm_models@[i as int].id@ == text_model_id@
            &&& forall|k: int| 0 <= k < i ==> (#[trigger] catalogue.llm_models@[k]).id@ != text_model_id@
            &&& j < ps.len()
            &&& ps[j as int].id@ == provider_id@ ==> forall|k: int| 0 <= k < j ==> (#[trigger] ps[k]).id@ != provider_id@
            &&& ps[j as int].id@ != provider_id@ ==> j == 0 && forall|k: int| 0 <= k < ps.len() ==> (#[trigger] ps[k]).id@ != provider_id@
        },
        r is None ==> forall|i: int| 0 <= i < catalogue.llm_models@.len() && (#[trigger] catalogue.llm_models@[i]).id@
            == text_model_id@ ==> catalogue.llm_models@[i].providers@.len() == 0 || exists|k: int| 0 <= k < i
            && (#[trigger] catalogue.llm_models@[k]).id@ == text_model_id@,
{
    let n = catalogue.llm_models.len();
    let mut i: usize = 0;
    while i < n
        invariant
            n == catalogue.llm_models@.len(),
            i <= n,
            forall|k: int| 0 <= k < i ==> (#[trigger] catalogue.llm_models@[k]).id@ != text_model_id@,
        decreases n - i,
    {
        let model = &catalogue.llm_models[i];
        if crate::history::str_equals(model.id.as_str(), text_model_id) {
            let m = model.providers.len();
            let mut j: usize = 0;
            while j < m
                invariant
                    n == catalogue.llm_models@.len(),
                    i < n,
                    forall|k: int| 0 <= k < i ==> (#[trigger] catalogue.llm_models@[k]).id@ != text_model_id@,
                    model.id@ == text_model_id@,
                    *model == catalogue.llm_models@[i as int],
                    m == model.providers@.len(),
                    j <= m,
                    forall|k: int| 0 <= k < j ==> (#[trigger] model.providers@[k]).id@ != provider_id@,
                decreases m - j,
            {
                if crate::history::str_equals(model.providers[j].id.as_str(), provider_id) {
                    let ghost ps = catalogue.llm_models@[i as int].providers@;
                    assert(ps[j as int].id@ == provider_id@);
                    assert forall|k: int| 0 <= k < j implies (#[trigger] ps[k]).id@ != provider_id@ by {
                        assert(ps[k] == model.providers@[k]);
                    }
                    return Some((i, j));
                }
                j = j + 1;
            }
            if m > 0 {
                proof {
                    let ps = catalogue.llm_models@[i as int].providers@;
                    assert forall|k: int| 0 <= k < ps.len() implies (#[trigger] ps[k]).id@ != provider_id@ by {
                        assert(ps[k] == model.providers@[k]);
                    }
                }
                return Some((i, 0));
            }
            return None;
        }
        i = i + 1;
    }
    None
}

/// The id of a model variant: the provider's model name, or `model::provider`.
pub fn resolve_variant_id(model: &LlmModelConfig, provider: &LlmProviderConfig) -> (r: String)
    ensures
        match provider.model {
            Some(m) => r@ == m@,
            None => r@ == model.id@ + "::"@ + provider.id@,
        },
{
    match &provider.model {
        Some(m) => m.clone(),
        None => {
            let mut id = model.id.clone();
            id.append("::");
            id.append(provider.id.as_str());
            id
        },
    }
}

} // verus!

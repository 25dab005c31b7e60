//! Chat-completion providers: their kinds, settings and registry rows.

use vstd::prelude::*;

use crate::text::{ascii_lower_str, cat3, str_eq, strip_prefix_text, strip_prefixes, strip_suffix_text, strip_suffixes, ascii_lower, trim, trim_str};

verus! {

#[derive(Debug, Clone, Copy, PartialEq, Eq, Hash, Structural)]
pub enum ProviderKind {
    Openrouter,
    Lmstudio,
    Ollama,
    LlamaCpp,
}

/// The name of each provider kind.
pub open spec fn kind_name(k: ProviderKind) -> Seq<char> {
    match k {
        ProviderKind::Openrouter => "openrouter"@,
        ProviderKind::Lmstudio => "lmstudio"@,
        ProviderKind::Ollama => "ollama"@,
        ProviderKind::LlamaCpp => "llama_cpp"@,
    }
}

/// The kind a provider name stands for, once trimmed and lowercased.
pub open spec fn kind_of_name(s: Seq<char>) -> Option<ProviderKind> {
    let k = ascii_lower(trim(s));
    if k == "openrouter"@ {
        Some(ProviderKind::Openrouter)
    } else if k == "lmstudio"@ || k == "lm_studio"@ {
        Some(ProviderKind::Lmstudio)
    } else if k == "ollama"@ {
        Some(ProviderKind::Ollama)
    } else if k == "llama_cpp"@ || k == "llamacpp"@ || k == "llama.cpp"@ {
        Some(ProviderKind::LlamaCpp)
    } else {
        None
    }
}

/// The base URL each provider kind uses unless configured otherwise.
pub open spec fn kind_base_url(k: ProviderKind) -> Seq<char> {
    match k {
        ProviderKind::Openrouter => "https://openrouter.ai/api/v1"@,
        ProviderKind::Lmstudio => "http://localhost:1234/v1"@,
        ProviderKind::Ollama => "http://localhost:11434"@,
        ProviderKind::LlamaCpp => "http://localhost:8080/v1"@,
    }
}

impl ProviderKind {
    pub fn as_str(self) -> (r: &'static str)
        ensures
            r@ == kind_name(self),
    {
        match self {
            ProviderKind::Openrouter => "openrouter",
            ProviderKind::Lmstudio => "lmstudio",
            ProviderKind::Ollama => "ollama",
            ProviderKind::LlamaCpp => "llama_cpp",
        }
    }

    pub fn parse(value: &str) -> (r: Option<ProviderKind>)
        ensures
            r == kind_of_name(value@),
    {
        let t = trim_str(value);
        let k = ascii_lower_str(t.as_str());
        let k = k.as_str();
        if str_eq(k, "openrouter") {
            Some(ProviderKind::Openrouter)
        } else if str_eq(k, "lmstudio") || str_eq(k, "lm_studio") {
            Some(ProviderKind::Lmstudio)
        } else if str_eq(k, "ollama") {
            Some(ProviderKind::Ollama)
        } else if str_eq(k, "llama_cpp") || str_eq(k, "llamacpp") || str_eq(k, "llama.cpp") {
            Some(ProviderKind::LlamaCpp)
        } else {
            None
        }
    }

    pub fn default_base_url(self) -> (r: &'static str)
        ensures
            r@ == kind_base_url(self),
    {
        match self {
            ProviderKind::Openrouter => "https://openrouter.ai/api/v1",
            ProviderKind::Lmstudio => "http://localhost:1234/v1",
            ProviderKind::Ollama => "http://localhost:11434",
            ProviderKind::LlamaCpp => "http://localhost:8080/v1",
        }
    }
}

#[derive(Debug, Clone, Copy, PartialEq, Eq, Structural)]
pub enum StreamProtocol {
    Sse,
    Ndjson,
    NoStream,
}

#[derive(Debug, Clone)]
pub struct ProviderCapabilities {
    pub supports_tools: bool,
    pub supports_images: bool,
    pub supports_json_schema: bool,
    pub max_context_tokens: Option<i64>,
    pub stream_protocol: StreamProtocol,
}

impl Default for ProviderCapabilities {
    fn default() -> (r: ProviderCapabilities)
        ensures
            !r.supports_tools && !r.supports_images && !r.supports_json_schema,
            r.max_context_tokens is None,
            r.stream_protocol == StreamProtocol::NoStream,
    {
        ProviderCapabilities {
            supports_tools: false,
            supports_images: false,
            supports_json_schema: false,
            max_context_tokens: None,
            stream_protocol: StreamProtocol::NoStream,
        }
    }
}

#[derive(Debug, Clone, Default)]
pub struct BasecampChatMetadata {
    pub camp_id: Option<String>,
    pub correlation_id: Option<String>,
    pub provider_kind: Option<ProviderKind>,
}

#[derive(Debug, Clone)]
pub struct ProviderHealthStatus {
    pub provider_kind: ProviderKind,
    pub ok: bool,
    pub status_code: Option<u16>,
    pub message: Option<String>,
    pub checked_at: i64,
}

#[derive(Debug, Clone)]
pub struct ProviderConfig {
    pub provider_kind: ProviderKind,
    pub base_url: String,
    pub enabled: bool,
}

#[derive(Debug, Clone)]
pub struct ProviderRuntimeSettings {
    pub config: ProviderConfig,
    pub api_key: Option<String>,
}

#[derive(Debug, Clone)]
pub struct ProviderRegistryRow {
    pub provider_kind: ProviderKind,
    pub base_url: String,
    pub enabled: bool,
    pub last_ok_at: Option<i64>,
    pub last_error: Option<String>,
}

/// The runtime configuration of a registry row.
pub fn provider_to_runtime_config(row: &ProviderRegistryRow) -> (r: ProviderConfig)
    ensures
        r.provider_kind == row.provider_kind,
        r.base_url == row.base_url,
        r.enabled == row.enabled,
{
    ProviderConfig { provider_kind: row.provider_kind, base_url: row.base_url.clone(), enabled: row.enabled }
}

/// The message of a provider that settings have switched off.
pub open spec fn disabled_message(k: ProviderKind) -> Seq<char> {
    "Provider `"@ + kind_name(k) + "` is disabled in Settings."@
}

/// Fails when the provider's settings switch it off.
pub fn ensure_provider_enabled(config: &ProviderConfig) -> (r: Result<(), String>)
    ensures
        r is Ok <==> config.enabled,
        r is Err ==> r->Err_0@ == disabled_message(config.provider_kind),
{
    if config.enabled {
        Ok(())
    } else {
        Err(cat3("Provider `", config.provider_kind.as_str(), "` is disabled in Settings."))
    }
}

/// The URL of `path` under `base_url`, with exactly one `/` between them.
pub open spec fn endpoint_url(base_url: Seq<char>, path: Seq<char>) -> Seq<char> {
    strip_suffixes(base_url, "/"@) + "/"@ + strip_prefixes(path, "/"@)
}

pub fn endpoint(base_url: &str, path: &str) -> (r: String)
    ensures
        r@ == endpoint_url(base_url@, path@),
{
    let base = strip_suffix_text(base_url, "/");
    let p = strip_prefix_text(path, "/");
    cat3(base.as_str(), "/", p.as_str())
}

/// Relies on `std::time::SystemTime::now`: milliseconds since the Unix epoch
/// (0 for a clock set before it).
#[verifier::external_body]
pub fn now_timestamp_ms() -> (r: i64) {
    std::time::SystemTime::now()
        .duration_since(std::time::UNIX_EPOCH)
        .unwrap_or_default()
        .as_millis() as i64
}

/// A provider speaking the OpenAI-compatible API of LM Studio.
pub struct LmStudioProvider;

impl LmStudioProvider {
    pub fn new() -> (r: LmStudioProvider) {
        LmStudioProvider
    }
}

/// A provider speaking Ollama's native API.
pub struct OllamaProvider;

impl OllamaProvider {
    pub fn new() -> (r: OllamaProvider) {
        OllamaProvider
    }
}

/// A provider speaking the OpenRouter API.
pub struct OpenRouterProvider;

impl OpenRouterProvider {
    pub fn new() -> (r: OpenRouterProvider) {
        OpenRouterProvider
    }
}

/// A llama.cpp server, reached through its OpenAI-compatible API.
pub struct LlamaCppProvider {
    pub inner: LmStudioProvider,
}

impl LlamaCppProvider {
    pub fn new() -> (r: LlamaCppProvider) {
        LlamaCppProvider { inner: LmStudioProvider::new() }
    }
}

/// One provider of each kind.
pub struct ProviderManager {
    pub openrouter: OpenRouterProvider,
    pub lmstudio: LmStudioProvider,
    pub ollama: OllamaProvider,
    pub llama_cpp: LlamaCppProvider,
}

impl ProviderManager {
    pub fn new() -> (r: ProviderManager) {
        ProviderManager {
            openrouter: OpenRouterProvider::new(),
            lmstudio: LmStudioProvider::new(),
            ollama: OllamaProvider::new(),
            llama_cpp: LlamaCppProvider::new(),
        }
    }
}

/// The API key of OpenRouter settings, trimmed; an error when it is missing or blank.
pub fn require_api_key(settings: &ProviderRuntimeSettings) -> (r: Result<String, String>)
    ensures
        match settings.api_key {
            Some(k) => trim(k@).len() > 0 ==> r is Ok && r->Ok_0@ == trim(k@),
            None => true,
        },
        r is Err <==> (settings.api_key is None || trim(settings.api_key->Some_0@).len() == 0),
        r is Err ==> r->Err_0@ == "OpenRouter API key is missing. Save it in Settings first."@,
{
    match &settings.api_key {
        Some(k) => {
            let t = trim_str(k.as_str());
            if t.unicode_len() == 0 {
                Err("OpenRouter API key is missing. Save it in Settings first.".to_string())
            } else {
                Ok(t)
            }
        },
        None => Err("OpenRouter API key is missing. Save it in Settings first.".to_string()),
    }
}

} // verus!

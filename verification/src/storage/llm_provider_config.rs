//! The LLM provider settings and how the effective values are resolved from
//! them and from the environment.

use vstd::prelude::*;

use crate::agent::agent_preset::DEFAULT_AGENT_MODEL;
use crate::text::{
    is_ws, lemma_trim_fixed, lemma_trim_idempotent, lemma_trim_shape, trim_seq, trim_str,
};

verus! {

pub const LLM_PROVIDER_CONFIG_PATH: &'static str = "preference/llm-provider.json";

pub const DEFAULT_OPENAI_BASE_URL: &'static str = "https://api.openai.com/v1";

pub const DEFAULT_PROVIDER_NAME: &'static str = "OpenAI compatible";

/// The environment variable read when the configured API key is empty.
pub const OPENAI_API_KEY_ENV: &'static str = "OPENAI_API_KEY";

/// The environment variable read when the configured base URL is empty.
pub const OPENAI_BASE_URL_ENV: &'static str = "OPENAI_BASE_URL";

/// The provider settings stored in `preference/llm-provider.json`.
#[derive(Debug, Clone)]
pub struct LlmProviderConfig {
    pub provider_name: String,
    pub base_url: String,
    pub api_key: String,
    pub default_model: String,
    pub models: Vec<LlmModelConfig>,
}

/// A model offered by the provider.
#[derive(Debug, Clone)]
pub struct LlmModelConfig {
    pub id: String,
    pub display_name: String,
}

/// Why a provider configuration cannot be used.
#[derive(Debug, Clone, Copy, PartialEq, Eq, Structural)]
pub enum ConfigError {
    /// No API key in the file and none in `OPENAI_API_KEY`.
    MissingApiKey,
    /// The resolved API key is blank.
    EmptyApiKey,
    /// The resolved base URL is blank.
    EmptyBaseUrl,
    /// The resolved default model is blank.
    EmptyDefaultModel,
}

impl ConfigError {
    /// The text the error is reported with.
    pub fn message(&self) -> (r: &'static str)
        ensures
            r@ == (match self {
                ConfigError::MissingApiKey => "OPENAI_API_KEY is required when llm-provider.json api_key is empty"@,
                ConfigError::EmptyApiKey => "LLM provider api_key cannot be empty"@,
                ConfigError::EmptyBaseUrl => "LLM provider base_url cannot be empty"@,
                ConfigError::EmptyDefaultModel => "LLM provider default_model cannot be empty"@,
            }),
    {
        match self {
            ConfigError::MissingApiKey => "OPENAI_API_KEY is required when llm-provider.json api_key is empty",
            ConfigError::EmptyApiKey => "LLM provider api_key cannot be empty",
            ConfigError::EmptyBaseUrl => "LLM provider base_url cannot be empty",
            ConfigError::EmptyDefaultModel => "LLM provider default_model cannot be empty",
        }
    }
}

/// The trimmed value when it is not blank, else the trimmed environment value
/// when that is present and not blank.
pub open spec fn non_empty_or_env_spec(value: Seq<char>, env: Option<Seq<char>>) -> Option<Seq<char>> {
    if trim_seq(value).len() > 0 {
        Some(trim_seq(value))
    } else {
        match env {
            Some(e) => if trim_seq(e).len() > 0 {
                Some(trim_seq(e))
            } else {
                None
            },
            None => None,
        }
    }
}

/// The API key in effect.
pub open spec fn resolved_api_key_spec(config: LlmProviderConfig, env: Option<Seq<char>>) -> Option<Seq<char>> {
    non_empty_or_env_spec(config.api_key@, env)
}

/// The base URL in effect.
pub open spec fn resolved_base_url_spec(config: LlmProviderConfig, env: Option<Seq<char>>) -> Seq<char> {
    match non_empty_or_env_spec(config.base_url@, env) {
        Some(u) => u,
        None => DEFAULT_OPENAI_BASE_URL@,
    }
}

/// The default model in effect.
pub open spec fn resolved_default_model_spec(config: LlmProviderConfig) -> Seq<char> {
    if trim_seq(config.default_model@).len() == 0 {
        DEFAULT_AGENT_MODEL@
    } else {
        trim_seq(config.default_model@)
    }
}

/// The view of an optional environment value.
pub open spec fn opt_view(v: Option<&str>) -> Option<Seq<char>> {
    match v {
        Some(s) => Some(s@),
        None => None,
    }
}

/// The trimmed value if it is not blank, else the trimmed environment value if
/// that is not blank.
pub fn non_empty_or_env(value: &str, env_value: Option<&str>) -> (r: Option<String>)
    ensures
        match r {
            Some(s) => non_empty_or_env_spec(value@, opt_view(env_value)) == Some(s@),
            None => non_empty_or_env_spec(value@, opt_view(env_value)) is None,
        },
{
    let v = trim_str(value);
    if v.as_str().is_empty() == false {
        return Some(v);
    }
    match env_value {
        Some(e) => {
            let t = trim_str(e);
            if t.as_str().is_empty() == false {
                Some(t)
            } else {
                None
            }
        },
        None => None,
    }
}

impl LlmModelConfig {
    /// An identical copy of the model entry.
    pub fn duplicate(&self) -> (r: Self)
        ensures
            r == *self,
    {
        LlmModelConfig { id: self.id.clone(), display_name: self.display_name.clone() }
    }
}

impl LlmProviderConfig {
    /// The configuration written on first start: an OpenAI-compatible
    /// provider with no key and the preset model as its only model.
    pub fn default_config() -> (r: Self)
        ensures
            r.provider_name@ == DEFAULT_PROVIDER_NAME@,
            r.base_url@ == DEFAULT_OPENAI_BASE_URL@,
            r.api_key@ == Seq::<char>::empty(),
            r.default_model@ == DEFAULT_AGENT_MODEL@,
            r.models@.len() == 1,
            r.models@[0].id@ == DEFAULT_AGENT_MODEL@,
            r.models@[0].display_name@ == DEFAULT_AGENT_MODEL@,
    {
        let mut models: Vec<LlmModelConfig> = Vec::new();
        models.push(
            LlmModelConfig {
                id: String::from_str(DEFAULT_AGENT_MODEL),
                display_name: String::from_str(DEFAULT_AGENT_MODEL),
            },
        );
        LlmProviderConfig {
            provider_name: String::from_str(DEFAULT_PROVIDER_NAME),
            base_url: String::from_str(DEFAULT_OPENAI_BASE_URL),
            api_key: String::new(),
            default_model: String::from_str(DEFAULT_AGENT_MODEL),
            models,
        }
    }

    /// The API key in effect: the configured key, or `OPENAI_API_KEY`
    /// (given as `env_api_key`) when the configured key is blank.
    pub fn resolved_api_key(&self, env_api_key: Option<&str>) -> (r: Result<String, ConfigError>)
        ensures
            match r {
                Ok(k) => resolved_api_key_spec(*self, opt_view(env_api_key)) == Some(k@),
                Err(e) => resolved_api_key_spec(*self, opt_view(env_api_key)) is None && e
                    == ConfigError::MissingApiKey,
            },
    {
        match non_empty_or_env(self.api_key.as_str(), env_api_key) {
            Some(k) => Ok(k),
            None => Err(ConfigError::MissingApiKey),
        }
    }

    /// The base URL in effect: the configured URL, else `OPENAI_BASE_URL`
    /// (given as `env_base_url`), else the OpenAI endpoint.
    pub fn resolved_base_url(&self, env_base_url: Option<&str>) -> (r: String)
        ensures
            r@ == resolved_base_url_spec(*self, opt_view(env_base_url)),
    {
        match non_empty_or_env(self.base_url.as_str(), env_base_url) {
            Some(u) => u,
            None => String::from_str(DEFAULT_OPENAI_BASE_URL),
        }
    }

    /// The default model in effect: the trimmed configured model, or the
    /// preset model when that is blank.
    pub fn resolved_default_model(&self) -> (r: String)
        ensures
            r@ == resolved_default_model_spec(*self),
    {
        let m = trim_str(self.default_model.as_str());
        if m.as_str().is_empty() {
            String::from_str(DEFAULT_AGENT_MODEL)
        } else {
            m
        }
    }

    /// Checks that the key, URL and model in effect are all usable. The only
    /// way this fails is a missing API key.
    pub fn validate_resolved(&self, env_api_key: Option<&str>, env_base_url: Option<&str>) -> (r:
        Result<(), ConfigError>)
        ensures
            r is Ok <==> resolved_api_key_spec(*self, opt_view(env_api_key)) is Some,
            r matches Err(e) ==> e == ConfigError::MissingApiKey,
    {
        let key = match self.resolved_api_key(env_api_key) {
            Ok(k) => k,
            Err(e) => return Err(e),
        };
        proof {
            lemma_resolved_not_blank(self.api_key@, opt_view(env_api_key));
        }
        if trim_str(key.as_str()).as_str().is_empty() {
            return Err(ConfigError::EmptyApiKey);
        }
        let url = self.resolved_base_url(env_base_url);
        proof {
            lemma_resolved_not_blank(self.base_url@, opt_view(env_base_url));
            lemma_default_url_not_blank();
        }
        if trim_str(url.as_str()).as_str().is_empty() {
            return Err(ConfigError::EmptyBaseUrl);
        }
        let model = self.resolved_default_model();
        proof {
            lemma_trim_shape(self.default_model@);
            lemma_trim_idempotent(self.default_model@);
            lemma_default_model_not_blank();
        }
        if trim_str(model.as_str()).as_str().is_empty() {
            return Err(ConfigError::EmptyDefaultModel);
        }
        Ok(())
    }
}

/// A value resolved from configuration or environment is not blank once
/// trimmed again.
pub proof fn lemma_resolved_not_blank(value: Seq<char>, env: Option<Seq<char>>)
    ensures
        non_empty_or_env_spec(value, env) matches Some(v) ==> trim_seq(v).len() > 0,
{
    lemma_trim_idempotent(value);
    if let Some(e) = env {
        lemma_trim_idempotent(e);
    }
}

proof fn lemma_default_url_not_blank()
    ensures
        trim_seq(DEFAULT_OPENAI_BASE_URL@).len() > 0,
{
    reveal_strlit("https://api.openai.com/v1");
    let s = DEFAULT_OPENAI_BASE_URL@;
    assert(!is_ws(s[0]));
    assert(!is_ws(s.last()));
    lemma_trim_fixed(s);
}

proof fn lemma_default_model_not_blank()
    ensures
        trim_seq(DEFAULT_AGENT_MODEL@).len() > 0,
        trim_seq(DEFAULT_AGENT_MODEL@) == DEFAULT_AGENT_MODEL@,
{
    reveal_strlit("mimo-v2.5");
    let s = DEFAULT_AGENT_MODEL@;
    assert(!is_ws(s[0]));
    assert(!is_ws(s.last()));
    lemma_trim_fixed(s);
}

/// The default model in effect is never blank.
pub proof fn resolved_default_model_not_blank(config: LlmProviderConfig)
    ensures
        trim_seq(resolved_default_model_spec(config)).len() > 0,
{
    lemma_default_model_not_blank();
    lemma_trim_idempotent(config.default_model@);
}

} // verus!

use vstd::prelude::*;

use crate::text::{chars_of, same_text, skip_trailing, span, strip_trailing};

verus! {

/// The model backend a run uses, and the settings of each provider.
#[derive(Debug, Clone)]
pub struct LlmConfig {
    /// `gemini` or `ollama`.
    pub provider: String,
    pub gemini: Option<GeminiConfig>,
    pub ollama: Option<OllamaConfig>,
}

#[derive(Debug, Clone)]
pub struct GeminiConfig {
    pub api_key: String,
    pub model: String,
}

#[derive(Debug, Clone)]
pub struct OllamaConfig {
    pub base_url: String,
    pub model: String,
}

/// The provider a configuration selects, with its settings.
#[derive(Debug, Clone)]
pub enum Backend {
    Gemini(GeminiConfig),
    Ollama(OllamaConfig),
}

/// A configuration that no run can start from.
#[derive(Debug, Clone)]
pub enum ConfigError {
    /// The provider is selected but its settings are missing.
    MissingSection(String),
    /// No provider of that name is known.
    UnknownProvider(String),
}

pub open spec fn gemini_name() -> Seq<char> {
    seq!['g', 'e', 'm', 'i', 'n', 'i']
}

pub open spec fn ollama_name() -> Seq<char> {
    seq!['o', 'l', 'l', 'a', 'm', 'a']
}

/// Picks the backend that the configuration names; an unknown provider, or one whose
/// settings are missing, is an error raised before any chapter is touched.
pub fn select_backend(config: &LlmConfig) -> (r: Result<Backend, ConfigError>)
    ensures
        config.provider@ == gemini_name() ==> match config.gemini {
            Some(g) => r matches Ok(Backend::Gemini(b)) && b.api_key@ == g.api_key@ && b.model@
                == g.model@,
            None => r matches Err(ConfigError::MissingSection(s)) && s@ == gemini_name(),
        },
        config.provider@ == ollama_name() ==> match config.ollama {
            Some(o) => r matches Ok(Backend::Ollama(b)) && b.base_url@ == o.base_url@ && b.model@
                == o.model@,
            None => r matches Err(ConfigError::MissingSection(s)) && s@ == ollama_name(),
        },
        config.provider@ != gemini_name() && config.provider@ != ollama_name() ==> (r matches Err(
            ConfigError::UnknownProvider(s),
        ) && s@ == config.provider@),
{
    let gemini = vec!['g', 'e', 'm', 'i', 'n', 'i'];
    let ollama = vec!['o', 'l', 'l', 'a', 'm', 'a'];
    let gemini_text = crate::text::string_of(&gemini);
    let ollama_text = crate::text::string_of(&ollama);
    assert(gemini@ =~= gemini_name());
    assert(ollama@ =~= ollama_name());
    if same_text(config.provider.as_str(), gemini_text.as_str()) {
        match &config.gemini {
            Some(g) => Ok(
                Backend::Gemini(GeminiConfig { api_key: g.api_key.clone(), model: g.model.clone() }),
            ),
            None => Err(ConfigError::MissingSection(gemini_text)),
        }
    } else if same_text(config.provider.as_str(), ollama_text.as_str()) {
        match &config.ollama {
            Some(o) => Ok(
                Backend::Ollama(
                    OllamaConfig { base_url: o.base_url.clone(), model: o.model.clone() },
                ),
            ),
            None => Err(ConfigError::MissingSection(ollama_text)),
        }
    } else {
        Err(ConfigError::UnknownProvider(config.provider.clone()))
    }
}

/// The address of a Gemini model's content generation call, with its key.
pub fn gemini_endpoint(config: &GeminiConfig) -> (r: String)
    ensures
        r@ == "https://generativelanguage.googleapis.com/v1beta/models/"@ + config.model@
            + ":generateContent?key="@ + config.api_key@,
{
    let mut r = String::from_str("https://generativelanguage.googleapis.com/v1beta/models/");
    r.append(config.model.as_str());
    r.append(":generateContent?key=");
    r.append(config.api_key.as_str());
    r
}

/// The address of an Ollama server's chat call: the base address without trailing
/// slashes, then `/api/chat`.
pub fn ollama_endpoint(config: &OllamaConfig) -> (r: String)
    ensures
        r@ == strip_trailing(config.base_url@, seq!['/']) + "/api/chat"@,
{
    let cs = chars_of(config.base_url.as_str());
    let slash = vec!['/'];
    assert(slash@ =~= seq!['/']);
    let end = skip_trailing(&cs, 0, cs.len(), &slash);
    assert(cs@.subrange(0, cs@.len() as int) =~= cs@);
    let mut r = span(&cs, 0, end);
    r.append("/api/chat");
    r
}

/// Why a model call gave no text.
#[derive(Debug, Clone)]
pub enum BackendError {
    /// The call could not be made or its reply not be read.
    Transport(String),
    /// The service answered with a failure status; its reply body is kept.
    Status(String),
    /// The reply holds no text where the provider puts it.
    MissingText,
}

/// The outcome of a model call from what came back: a failure status gives the body as
/// the error; otherwise the text found in the reply is the result.
pub fn interpret_reply(success: bool, body: String, text: Option<String>) -> (r: Result<
    String,
    BackendError,
>)
    ensures
        !success ==> (r matches Err(BackendError::Status(b)) && b == body),
        success && text is None ==> r matches Err(BackendError::MissingText),
        success && text is Some ==> r == Ok::<String, BackendError>(text->0),
{
    if !success {
        Err(BackendError::Status(body))
    } else {
        match text {
            Some(t) => Ok(t),
            None => Err(BackendError::MissingText),
        }
    }
}

} // verus!

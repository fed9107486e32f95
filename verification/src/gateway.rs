//! The dispatch gateway: selects the configured provider, builds its
//! request payload, and interprets its raw reply.
//!
//! The network call itself is the one suspension point of a request and is
//! performed by the surrounding process; this module makes every decision
//! around it.  A request is prepared (provider selection, credential check,
//! payload construction) before anything is sent, and the raw reply is
//! interpreted (text extraction, normalization) after; an unknown provider
//! or a missing credential therefore fails before any network attempt.

use vstd::prelude::*;
use crate::jsonval::{JsonValue, spec_gemini_text, spec_qwen_text, gemini_text, qwen_text};
use crate::model::{Provider, SendRequest};
use crate::normalize::{NormalizeOutcome, is_normalized, normalize};

verus! {

/// The uniform failure taxonomy of the gateway.
#[derive(Debug)]
pub enum GatewayError {
    /// The configured active provider has no matching adapter.
    UnknownProvider,
    /// The image-inline provider's credential is absent; reported before any
    /// network attempt.
    MissingCredential,
    /// Transport failure or non-success status from the backend; the
    /// underlying cause is kept for diagnostics.
    UpstreamUnavailable(String),
    /// The backend replied without a locatable text field at the expected
    /// structural path.
    NoTextFound,
}

/// Configuration of the image-inline (Gemini-style) provider.
pub struct ImageInlineConfig {
    pub api_base_url: String,
    pub api_version: String,
    pub model: String,
    /// Sampling temperature in fixed-point thousandths (500 stands for 0.5).
    pub temperature_milli: u32,
    /// Extended-reasoning budget; 0 disables extended reasoning.
    pub thinking_budget: u32,
}

/// Configuration of the local-inference (Qwen-style) provider.
pub struct LocalInferenceConfig {
    pub api_url: String,
    pub model: String,
    pub stream: bool,
}

/// Process-wide gateway configuration, loaded once and read-only thereafter.
pub struct GatewayConfig {
    /// Identifier of the active provider.
    pub active_model: String,
    pub gemini: ImageInlineConfig,
    pub qwen: LocalInferenceConfig,
}

/// A fully built upstream request, ready to be sent: the endpoint, an
/// optional credential to pass as the `key` query parameter, and the body.
pub struct PreparedRequest {
    pub url: String,
    pub auth_query_key: Option<String>,
    pub body: JsonValue,
}

/// Which adapter an active-provider identifier selects.
pub open spec fn spec_provider_for(id: Seq<char>) -> Option<Provider> {
    if id == "gemini"@ {
        Some(Provider::ImageInline)
    } else if id == "qwen"@ {
        Some(Provider::LocalInference)
    } else {
        None
    }
}

/// Exec mirror of [`spec_provider_for`].
pub fn provider_for(identifier: &str) -> (r: Option<Provider>)
    ensures
        r == spec_provider_for(identifier@),
{
    let id = String::from_str(identifier);
    if id == String::from_str("gemini") {
        Some(Provider::ImageInline)
    } else if id == String::from_str("qwen") {
        Some(Provider::LocalInference)
    } else {
        None
    }
}

/// A credential is missing when none was supplied or it is empty.
pub open spec fn spec_credential_missing(c: Option<String>) -> bool {
    match c {
        None => true,
        Some(k) => k@.len() == 0,
    }
}

/// The image-inline endpoint: `<base>/<version>/models/<model>:generateContent`.
pub open spec fn spec_gemini_url(cfg: ImageInlineConfig) -> Seq<char> {
    cfg.api_base_url@ + "/"@ + cfg.api_version@ + "/models/"@ + cfg.model@ + ":generateContent"@
}

fn gemini_url(cfg: &ImageInlineConfig) -> (r: String)
    ensures
        r@ == spec_gemini_url(*cfg),
{
    cfg.api_base_url.clone().concat("/").concat(cfg.api_version.as_str()).concat(
        "/models/",
    ).concat(cfg.model.as_str()).concat(":generateContent")
}

pub open spec fn is_text_field(f: (String, JsonValue), key: Seq<char>, val: Seq<char>) -> bool {
    f.0@ == key && match f.1 {
        JsonValue::Text(t) => t@ == val,
        _ => false,
    }
}

pub open spec fn is_inline_data_part(v: JsonValue, image: Seq<char>) -> bool {
    match v {
        JsonValue::Object(f) => f@.len() == 1 && f@[0].0@ == "inlineData"@ && match f@[0].1 {
            JsonValue::Object(g) => g@.len() == 2 && is_text_field(g@[0], "mimeType"@, "image/png"@)
                && is_text_field(g@[1], "data"@, image),
            _ => false,
        },
        _ => false,
    }
}

pub open spec fn is_text_part(v: JsonValue, prompt: Seq<char>) -> bool {
    match v {
        JsonValue::Object(f) => f@.len() == 1 && is_text_field(f@[0], "text"@, prompt),
        _ => false,
    }
}

pub open spec fn is_gemini_contents(v: JsonValue, image: Seq<char>, prompt: Seq<char>) -> bool {
    match v {
        JsonValue::Array(cs) => cs@.len() == 1 && match cs@[0] {
            JsonValue::Object(c0) => c0@.len() == 1 && c0@[0].0@ == "parts"@ && match c0@[0].1 {
                JsonValue::Array(ps) => ps@.len() == 2 && is_inline_data_part(ps@[0], image)
                    && is_text_part(ps@[1], prompt),
                _ => false,
            },
            _ => false,
        },
        _ => false,
    }
}

pub open spec fn is_gemini_gen_config(v: JsonValue, temperature_milli: u32, budget: u32) -> bool {
    match v {
        JsonValue::Object(f) => f@.len() == 2 && f@[0].0@ == "temperature"@ && (match f@[0].1 {
            JsonValue::Milli(m) => m == temperature_milli as i64,
            _ => false,
        }) && f@[1].0@ == "thinkingConfig"@ && match f@[1].1 {
            JsonValue::Object(g) => g@.len() == 1 && g@[0].0@ == "thinkingBudget"@ && match g@[0].1 {
                JsonValue::Int(b) => b == budget as i64,
                _ => false,
            },
            _ => false,
        },
        _ => false,
    }
}

/// The full shape of the image-inline payload: the image inline as base64
/// with its MIME type, the prompt text, and the generation parameters.
pub open spec fn is_gemini_payload(
    p: JsonValue,
    image: Seq<char>,
    prompt: Seq<char>,
    temperature_milli: u32,
    budget: u32,
) -> bool {
    match p {
        JsonValue::Object(top) => top@.len() == 2 && top@[0].0@ == "contents"@
            && is_gemini_contents(top@[0].1, image, prompt) && top@[1].0@ == "generationConfig"@
            && is_gemini_gen_config(top@[1].1, temperature_milli, budget),
        _ => false,
    }
}

/// The full shape of the local-inference payload: model name, prompt,
/// streaming flag, and the image as a single-element collection.
pub open spec fn is_qwen_payload(
    p: JsonValue,
    model: Seq<char>,
    prompt: Seq<char>,
    stream: bool,
    image: Seq<char>,
) -> bool {
    match p {
        JsonValue::Object(top) => top@.len() == 4 && is_text_field(top@[0], "model"@, model)
            && is_text_field(top@[1], "prompt"@, prompt) && top@[2].0@ == "stream"@ && (match top@[2].1 {
            JsonValue::Bool(b) => b == stream,
            _ => false,
        }) && top@[3].0@ == "images"@ && match top@[3].1 {
            JsonValue::Array(xs) => xs@.len() == 1 && match xs@[0] {
                JsonValue::Text(t) => t@ == image,
                _ => false,
            },
            _ => false,
        },
        _ => false,
    }
}

/// Builds the image-inline payload.
fn build_gemini_payload(req: &SendRequest, cfg: &ImageInlineConfig) -> (r: JsonValue)
    ensures
        is_gemini_payload(r, req.image_base64@, req.prompt@, cfg.temperature_milli, cfg.thinking_budget),
{
    let mut inline_fields: Vec<(String, JsonValue)> = Vec::new();
    inline_fields.push(
        (String::from_str("mimeType"), JsonValue::Text(String::from_str("image/png"))),
    );
    inline_fields.push((String::from_str("data"), JsonValue::Text(req.image_base64.clone())));
    let mut part0_fields: Vec<(String, JsonValue)> = Vec::new();
    part0_fields.push((String::from_str("inlineData"), JsonValue::Object(inline_fields)));
    let mut part1_fields: Vec<(String, JsonValue)> = Vec::new();
    part1_fields.push((String::from_str("text"), JsonValue::Text(req.prompt.clone())));
    let mut parts: Vec<JsonValue> = Vec::new();
    parts.push(JsonValue::Object(part0_fields));
    parts.push(JsonValue::Object(part1_fields));
    let mut content_fields: Vec<(String, JsonValue)> = Vec::new();
    content_fields.push((String::from_str("parts"), JsonValue::Array(parts)));
    let mut contents: Vec<JsonValue> = Vec::new();
    contents.push(JsonValue::Object(content_fields));
    let mut thinking_fields: Vec<(String, JsonValue)> = Vec::new();
    thinking_fields.push(
        (String::from_str("thinkingBudget"), JsonValue::Int(cfg.thinking_budget as i64)),
    );
    let mut gen_fields: Vec<(String, JsonValue)> = Vec::new();
    gen_fields.push(
        (String::from_str("temperature"), JsonValue::Milli(cfg.temperature_milli as i64)),
    );
    gen_fields.push((String::from_str("thinkingConfig"), JsonValue::Object(thinking_fields)));
    let mut top: Vec<(String, JsonValue)> = Vec::new();
    top.push((String::from_str("contents"), JsonValue::Array(contents)));
    top.push((String::from_str("generationConfig"), JsonValue::Object(gen_fields)));
    JsonValue::Object(top)
}

/// Builds the local-inference payload.
fn build_qwen_payload(req: &SendRequest, cfg: &LocalInferenceConfig) -> (r: JsonValue)
    ensures
        is_qwen_payload(r, cfg.model@, req.prompt@, cfg.stream, req.image_base64@),
{
    let mut images: Vec<JsonValue> = Vec::new();
    images.push(JsonValue::Text(req.image_base64.clone()));
    let mut top: Vec<(String, JsonValue)> = Vec::new();
    top.push((String::from_str("model"), JsonValue::Text(cfg.model.clone())));
    top.push((String::from_str("prompt"), JsonValue::Text(req.prompt.clone())));
    top.push((String::from_str("stream"), JsonValue::Bool(cfg.stream)));
    top.push((String::from_str("images"), JsonValue::Array(images)));
    JsonValue::Object(top)
}

/// Selects the configured adapter and builds the upstream request.
///
/// Fails with `UnknownProvider` when the active identifier matches no
/// adapter, and with `MissingCredential` when the image-inline provider has
/// no (or an empty) credential — in both cases before anything could be
/// sent.  Otherwise returns the endpoint, the credential to pass as a query
/// parameter (image-inline only), and the exact payload shape of the
/// selected provider.
pub fn prepare(req: &SendRequest, config: &GatewayConfig, credential: &Option<String>) -> (r:
    Result<PreparedRequest, GatewayError>)
    ensures
        match spec_provider_for(config.active_model@) {
            None => r matches Err(GatewayError::UnknownProvider),
            Some(Provider::ImageInline) => if spec_credential_missing(*credential) {
                r matches Err(GatewayError::MissingCredential)
            } else {
                (r matches Ok(pr) && pr.url@ == spec_gemini_url(config.gemini) && (
                pr.auth_query_key matches Some(k) && k@ == credential.unwrap()@)
                    && is_gemini_payload(
                    pr.body,
                    req.image_base64@,
                    req.prompt@,
                    config.gemini.temperature_milli,
                    config.gemini.thinking_budget,
                ))
            },
            Some(Provider::LocalInference) => (r matches Ok(pr) && pr.url@ == config.qwen.api_url@
                && pr.auth_query_key is None && is_qwen_payload(
                pr.body,
                config.qwen.model@,
                req.prompt@,
                config.qwen.stream,
                req.image_base64@,
            )),
        },
{
    match provider_for(config.active_model.as_str()) {
        None => Err(GatewayError::UnknownProvider),
        Some(Provider::ImageInline) => {
            match credential {
                None => Err(GatewayError::MissingCredential),
                Some(key) => {
                    if key.as_str().is_empty() {
                        Err(GatewayError::MissingCredential)
                    } else {
                        Ok(
                            PreparedRequest {
                                url: gemini_url(&config.gemini),
                                auth_query_key: Some(key.clone()),
                                body: build_gemini_payload(req, &config.gemini),
                            },
                        )
                    }
                },
            }
        },
        Some(Provider::LocalInference) => Ok(
            PreparedRequest {
                url: config.qwen.api_url.clone(),
                auth_query_key: None,
                body: build_qwen_payload(req, &config.qwen),
            },
        ),
    }
}

/// The reply text the selected provider's adapter locates in a raw reply.
pub open spec fn spec_reply_text(p: Provider, v: JsonValue) -> Option<Seq<char>> {
    match p {
        Provider::ImageInline => spec_gemini_text(v),
        Provider::LocalInference => spec_qwen_text(v),
    }
}

/// Interprets a backend's raw reply for the selected provider: locates the
/// reply text at the provider's structural path (failing with `NoTextFound`
/// when no link of it is present) and normalizes it into canonical
/// annotations or the raw-text fallback.
pub fn interpret_reply(provider: Provider, body: &JsonValue) -> (r: Result<
    NormalizeOutcome,
    GatewayError,
>)
    ensures
        match spec_reply_text(provider, *body) {
            None => r matches Err(GatewayError::NoTextFound),
            Some(t) => (r matches Ok(o) && is_normalized(o, t, provider)),
        },
{
    let text = match provider {
        Provider::ImageInline => gemini_text(body),
        Provider::LocalInference => qwen_text(body),
    };
    match text {
        None => Err(GatewayError::NoTextFound),
        Some(t) => Ok(normalize(t.as_str(), provider)),
    }
}

/// Maps a transport-level failure (connection error or non-success status)
/// into the uniform taxonomy, keeping the underlying cause for diagnostics.
pub fn transport_failure(cause: String) -> (e: GatewayError)
    ensures
        (e matches GatewayError::UpstreamUnavailable(c) && c@ == cause@),
{
    GatewayError::UpstreamUnavailable(cause)
}

} // verus!

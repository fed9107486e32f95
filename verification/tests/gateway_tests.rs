use vision_gateway::gateway::{
    interpret_reply, prepare, provider_for, transport_failure, GatewayConfig, GatewayError,
    ImageInlineConfig, LocalInferenceConfig,
};
use vision_gateway::jsonval::JsonValue;
use vision_gateway::model::{Provider, SendRequest};
use vision_gateway::normalize::NormalizeOutcome;

fn test_config(active: &str) -> GatewayConfig {
    GatewayConfig {
        active_model: active.to_string(),
        gemini: ImageInlineConfig {
            api_base_url: "https://example.invalid".to_string(),
            api_version: "v1beta".to_string(),
            model: "vision-model".to_string(),
            temperature_milli: 500,
            thinking_budget: 0,
        },
        qwen: LocalInferenceConfig {
            api_url: "http://localhost:11434/api/generate".to_string(),
            model: "qwen-vl".to_string(),
            stream: false,
        },
    }
}

fn test_request() -> SendRequest {
    SendRequest {
        image_base64: "aGVsbG8=".to_string(),
        prompt: "find the cups".to_string(),
    }
}

#[test]
fn provider_selection_matches_identifiers() {
    assert!(matches!(provider_for("gemini"), Some(Provider::ImageInline)));
    assert!(matches!(provider_for("qwen"), Some(Provider::LocalInference)));
    assert!(provider_for("").is_none());
    assert!(provider_for("llava").is_none());
}

#[test]
fn unknown_provider_fails_before_any_payload_is_built() {
    let r = prepare(
        &test_request(),
        &test_config("llava"),
        &Some("secret".to_string()),
    );
    assert!(matches!(r, Err(GatewayError::UnknownProvider)));
}

#[test]
fn image_inline_without_credential_fails() {
    let r = prepare(&test_request(), &test_config("gemini"), &None);
    assert!(matches!(r, Err(GatewayError::MissingCredential)));
}

#[test]
fn image_inline_with_empty_credential_fails() {
    let r = prepare(&test_request(), &test_config("gemini"), &Some(String::new()));
    assert!(matches!(r, Err(GatewayError::MissingCredential)));
}

#[test]
fn image_inline_prepares_url_key_and_payload() {
    let r = prepare(
        &test_request(),
        &test_config("gemini"),
        &Some("secret".to_string()),
    )
    .expect("prepare should succeed");
    assert_eq!(
        r.url,
        "https://example.invalid/v1beta/models/vision-model:generateContent"
    );
    assert_eq!(r.auth_query_key.as_deref(), Some("secret"));
    let top = match r.body {
        JsonValue::Object(fs) => fs,
        _ => panic!("payload should be an object"),
    };
    assert_eq!(top.len(), 2);
    assert_eq!(top[0].0, "contents");
    assert_eq!(top[1].0, "generationConfig");
    let contents = match &top[0].1 {
        JsonValue::Array(cs) => cs,
        _ => panic!("contents should be an array"),
    };
    assert_eq!(contents.len(), 1);
    let parts = match &contents[0] {
        JsonValue::Object(c0) => match &c0[0].1 {
            JsonValue::Array(ps) => ps,
            _ => panic!("parts should be an array"),
        },
        _ => panic!("candidate content should be an object"),
    };
    assert_eq!(parts.len(), 2);
    match &parts[0] {
        JsonValue::Object(f) => match &f[0].1 {
            JsonValue::Object(g) => {
                assert_eq!(g[0].0, "mimeType");
                assert!(matches!(&g[0].1, JsonValue::Text(m) if m == "image/png"));
                assert_eq!(g[1].0, "data");
                assert!(matches!(&g[1].1, JsonValue::Text(d) if d == "aGVsbG8="));
            }
            _ => panic!("inlineData should be an object"),
        },
        _ => panic!("first part should be an object"),
    }
    match &parts[1] {
        JsonValue::Object(f) => {
            assert_eq!(f[0].0, "text");
            assert!(matches!(&f[0].1, JsonValue::Text(p) if p == "find the cups"));
        }
        _ => panic!("second part should be an object"),
    }
    match &top[1].1 {
        JsonValue::Object(g) => {
            assert_eq!(g[0].0, "temperature");
            assert!(matches!(g[0].1, JsonValue::Milli(500)));
            assert_eq!(g[1].0, "thinkingConfig");
            match &g[1].1 {
                JsonValue::Object(t) => {
                    assert_eq!(t[0].0, "thinkingBudget");
                    assert!(matches!(t[0].1, JsonValue::Int(0)));
                }
                _ => panic!("thinkingConfig should be an object"),
            }
        }
        _ => panic!("generationConfig should be an object"),
    }
}

#[test]
fn local_inference_prepares_without_credential() {
    let r = prepare(&test_request(), &test_config("qwen"), &None).expect("prepare should succeed");
    assert_eq!(r.url, "http://localhost:11434/api/generate");
    assert!(r.auth_query_key.is_none());
    let top = match r.body {
        JsonValue::Object(fs) => fs,
        _ => panic!("payload should be an object"),
    };
    assert_eq!(top.len(), 4);
    assert_eq!(top[0].0, "model");
    assert!(matches!(&top[0].1, JsonValue::Text(m) if m == "qwen-vl"));
    assert_eq!(top[1].0, "prompt");
    assert!(matches!(&top[1].1, JsonValue::Text(p) if p == "find the cups"));
    assert_eq!(top[2].0, "stream");
    assert!(matches!(top[2].1, JsonValue::Bool(false)));
    assert_eq!(top[3].0, "images");
    match &top[3].1 {
        JsonValue::Array(xs) => {
            assert_eq!(xs.len(), 1);
            assert!(matches!(&xs[0], JsonValue::Text(i) if i == "aGVsbG8="));
        }
        _ => panic!("images should be an array"),
    }
}

fn gemini_reply(text: &str) -> JsonValue {
    JsonValue::Object(vec![(
        "candidates".to_string(),
        JsonValue::Array(vec![JsonValue::Object(vec![(
            "content".to_string(),
            JsonValue::Object(vec![(
                "parts".to_string(),
                JsonValue::Array(vec![JsonValue::Object(vec![(
                    "text".to_string(),
                    JsonValue::Text(text.to_string()),
                )])]),
            )]),
        )])]),
    )])
}

#[test]
fn image_inline_reply_text_is_found_and_normalized() {
    let reply = gemini_reply("[{\"point\":[7,9],\"label\":\"mug\"}]");
    let out = interpret_reply(Provider::ImageInline, &reply).expect("text should be found");
    match out {
        NormalizeOutcome::Annotations(v) => {
            assert_eq!(v.len(), 1);
            assert_eq!(v[0].point, [7, 9]);
            assert_eq!(v[0].label, "mug");
        }
        NormalizeOutcome::RawText(t) => panic!("expected annotations, got raw text: {}", t),
    }
}

#[test]
fn missing_candidates_yields_no_text_found() {
    let reply = JsonValue::Object(vec![(
        "error".to_string(),
        JsonValue::Text("quota".to_string()),
    )]);
    let r = interpret_reply(Provider::ImageInline, &reply);
    assert!(matches!(r, Err(GatewayError::NoTextFound)));
}

#[test]
fn empty_candidates_list_yields_no_text_found() {
    let reply = JsonValue::Object(vec![("candidates".to_string(), JsonValue::Array(Vec::new()))]);
    let r = interpret_reply(Provider::ImageInline, &reply);
    assert!(matches!(r, Err(GatewayError::NoTextFound)));
}

#[test]
fn local_inference_reply_is_swapped() {
    let reply = JsonValue::Object(vec![(
        "response".to_string(),
        JsonValue::Text("sure: [{\"point\":[1,2],\"label\":\"cup\"}] done".to_string()),
    )]);
    let out = interpret_reply(Provider::LocalInference, &reply).expect("text should be found");
    match out {
        NormalizeOutcome::Annotations(v) => {
            assert_eq!(v.len(), 1);
            assert_eq!(v[0].point, [2, 1]);
            assert_eq!(v[0].label, "cup");
        }
        NormalizeOutcome::RawText(t) => panic!("expected annotations, got raw text: {}", t),
    }
}

#[test]
fn local_inference_reply_without_response_field_yields_no_text_found() {
    let reply = JsonValue::Object(vec![(
        "output".to_string(),
        JsonValue::Text("hello".to_string()),
    )]);
    let r = interpret_reply(Provider::LocalInference, &reply);
    assert!(matches!(r, Err(GatewayError::NoTextFound)));
}

#[test]
fn unparseable_reply_text_is_returned_raw() {
    let reply = gemini_reply("I could not find anything.");
    let out = interpret_reply(Provider::ImageInline, &reply).expect("text should be found");
    match out {
        NormalizeOutcome::RawText(t) => assert_eq!(t, "I could not find anything."),
        NormalizeOutcome::Annotations(_) => panic!("expected raw text"),
    }
}

#[test]
fn transport_failure_keeps_the_cause() {
    let e = transport_failure("connection refused".to_string());
    assert!(matches!(e, GatewayError::UpstreamUnavailable(c) if c == "connection refused"));
}

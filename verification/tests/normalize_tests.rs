use vision_gateway::model::Provider;
use vision_gateway::normalize::{normalize, NormalizeOutcome};

fn expect_annotations(o: NormalizeOutcome) -> Vec<([u32; 2], String)> {
    match o {
        NormalizeOutcome::Annotations(v) => {
            v.into_iter().map(|d| (d.point, d.label)).collect()
        }
        NormalizeOutcome::RawText(t) => panic!("expected annotations, got raw text: {}", t),
    }
}

fn expect_raw(o: NormalizeOutcome) -> String {
    match o {
        NormalizeOutcome::Annotations(_) => panic!("expected raw text, got annotations"),
        NormalizeOutcome::RawText(t) => t,
    }
}

#[test]
fn direct_array_image_inline_keeps_order() {
    let out = normalize(
        "[{\"point\":[1,2],\"label\":\"cup\"}]",
        Provider::ImageInline,
    );
    assert_eq!(expect_annotations(out), vec![([1, 2], "cup".to_string())]);
}

#[test]
fn direct_array_local_inference_swaps_axes() {
    let out = normalize(
        "[{\"point\":[1,2],\"label\":\"cup\"}]",
        Provider::LocalInference,
    );
    assert_eq!(expect_annotations(out), vec![([2, 1], "cup".to_string())]);
}

#[test]
fn embedded_array_in_prose_is_recovered() {
    let text = "Here are detections: [{\"point\":[1,2],\"label\":\"cup\"}] thanks";
    let out = normalize(text, Provider::ImageInline);
    assert_eq!(expect_annotations(out), vec![([1, 2], "cup".to_string())]);
    let out = normalize(text, Provider::LocalInference);
    assert_eq!(expect_annotations(out), vec![([2, 1], "cup".to_string())]);
}

#[test]
fn no_recoverable_array_returns_text_unchanged() {
    let text = "the model refused to answer";
    let out = normalize(text, Provider::ImageInline);
    assert_eq!(expect_raw(out), text);
}

#[test]
fn reversed_brackets_fall_back_without_panicking() {
    let text = "] oops [";
    let out = normalize(text, Provider::LocalInference);
    assert_eq!(expect_raw(out), text);
}

#[test]
fn empty_array_is_valid_and_distinct_from_fallback() {
    let out = normalize("[]", Provider::ImageInline);
    assert_eq!(expect_annotations(out), Vec::new());
    let out = normalize("  [ ]  ", Provider::LocalInference);
    assert_eq!(expect_annotations(out), Vec::new());
}

#[test]
fn whitespace_key_order_and_escapes_are_accepted() {
    let text = "[ { \"label\" : \"a\\\"b\\\\c\" , \"point\" : [ 3 , 4 ] } ]";
    let out = normalize(text, Provider::ImageInline);
    assert_eq!(expect_annotations(out), vec![([3, 4], "a\"b\\c".to_string())]);
}

#[test]
fn several_items_keep_their_order_and_duplicates() {
    let text = "[{\"point\":[5,6],\"label\":\"x\"},{\"point\":[5,6],\"label\":\"x\"},{\"point\":[0,0],\"label\":\"\"}]";
    let out = normalize(text, Provider::ImageInline);
    assert_eq!(
        expect_annotations(out),
        vec![
            ([5, 6], "x".to_string()),
            ([5, 6], "x".to_string()),
            ([0, 0], String::new()),
        ]
    );
}

#[test]
fn coordinate_too_large_for_u32_falls_back() {
    let text = "[{\"point\":[4294967296,0],\"label\":\"big\"}]";
    let out = normalize(text, Provider::ImageInline);
    assert_eq!(expect_raw(out), text);
}

#[test]
fn negative_coordinate_falls_back() {
    let text = "[{\"point\":[-1,2],\"label\":\"neg\"}]";
    let out = normalize(text, Provider::ImageInline);
    assert_eq!(expect_raw(out), text);
}

#[test]
fn largest_coordinate_is_kept() {
    let text = "[{\"point\":[4294967295,0],\"label\":\"max\"}]";
    let out = normalize(text, Provider::ImageInline);
    assert_eq!(expect_annotations(out), vec![([4294967295, 0], "max".to_string())]);
}

#[test]
fn embedded_array_after_markdown_fence_is_recovered() {
    let text = "```json\n[\n  {\"point\": [10, 20], \"label\": \"bottle\"}\n]\n```";
    let out = normalize(text, Provider::LocalInference);
    assert_eq!(expect_annotations(out), vec![([20, 10], "bottle".to_string())]);
}

#[test]
fn object_with_extra_member_falls_back() {
    let text = "[{\"point\":[1,2],\"label\":\"cup\",\"score\":1}]";
    let out = normalize(text, Provider::ImageInline);
    assert_eq!(expect_raw(out), text);
}

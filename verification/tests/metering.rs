//! Usage in the body of a completion.
use ktesio_engine::metering::parse_openai_usage;

#[test]
fn parses_a_well_formed_completion_body() {
    let body = br#"{
            "id": "chatcmpl-abc",
            "object": "chat.completion",
            "model": "gpt-4o",
            "choices": [{"index": 0, "message": {"role": "assistant", "content": "hi"}}],
            "usage": {"prompt_tokens": 128, "completion_tokens": 512, "total_tokens": 640}
        }"#;
    assert_eq!(parse_openai_usage(body), Some((128, 512)));
}

#[test]
fn maps_prompt_to_input_and_completion_to_output() {
    let body = br#"{"usage": {"prompt_tokens": 7, "completion_tokens": 3}}"#;
    let (input, output) = parse_openai_usage(body).expect("well-formed");
    assert_eq!(input, 7, "prompt_tokens maps to input");
    assert_eq!(output, 3, "completion_tokens maps to output");
}

#[test]
fn tolerates_extra_and_unknown_fields() {
    let body = br#"{
            "system_fingerprint": "fp_x",
            "service_tier": "default",
            "usage": {
                "prompt_tokens": 11,
                "completion_tokens": 22,
                "total_tokens": 33,
                "prompt_tokens_details": {"cached_tokens": 0},
                "completion_tokens_details": {"reasoning_tokens": 4}
            }
        }"#;
    assert_eq!(parse_openai_usage(body), Some((11, 22)));
}

#[test]
fn a_body_with_no_usage_object_is_skipped() {
    let body = br#"{"id": "x", "choices": [{"index": 0}]}"#;
    assert_eq!(parse_openai_usage(body), None);
}

#[test]
fn a_usage_missing_a_field_is_skipped() {
    let only_prompt = br#"{"usage": {"prompt_tokens": 5}}"#;
    assert_eq!(parse_openai_usage(only_prompt), None);
    let only_completion = br#"{"usage": {"completion_tokens": 5}}"#;
    assert_eq!(parse_openai_usage(only_completion), None);
}

#[test]
fn a_malformed_or_partial_body_is_skipped_not_panicked() {
    for bad in [
        &b"not json at all"[..],
        &b"{\"usage\": {\"prompt_tokens\": 1,"[..],
        &b""[..],
        &b"data: {\"usage\":{}}\n\n"[..],
    ] {
        assert_eq!(parse_openai_usage(bad), None, "must skip: {bad:?}");
    }
}

#[test]
fn a_negative_or_non_integer_count_is_skipped() {
    let negative = br#"{"usage": {"prompt_tokens": -1, "completion_tokens": 2}}"#;
    assert_eq!(parse_openai_usage(negative), None);
    let float = br#"{"usage": {"prompt_tokens": 1.5, "completion_tokens": 2}}"#;
    assert_eq!(parse_openai_usage(float), None);
    let string = br#"{"usage": {"prompt_tokens": "10", "completion_tokens": 2}}"#;
    assert_eq!(parse_openai_usage(string), None);
}

#[test]
fn zero_counts_are_valid() {
    let body = br#"{"usage": {"prompt_tokens": 0, "completion_tokens": 0}}"#;
    assert_eq!(parse_openai_usage(body), Some((0, 0)));
}

#[test]
fn a_large_count_within_u64_parses() {
    let body = br#"{"usage": {"prompt_tokens": 9007199254740993, "completion_tokens": 1}}"#;
    assert_eq!(parse_openai_usage(body), Some((9_007_199_254_740_993, 1)));
}

#[test]
fn a_usage_that_is_no_object_is_skipped() {
    for body in [&br#"{"usage": null}"#[..], &br#"{"usage": 7}"#[..], &br#"[1, 2]"#[..]] {
        assert_eq!(parse_openai_usage(body), None, "{body:?}");
    }
}

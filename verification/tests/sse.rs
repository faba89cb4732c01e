use llm_chat::decode::Decoder;
use llm_chat::response::{Choice, Content, Response};
use llm_chat::sse::{chunk_payloads, data_payloads};
use llm_chat::{Completion, Usage};

fn text_of(value: &serde_json::Value) -> Option<String> {
    value.as_str().map(str::to_owned)
}

fn content_of(value: &serde_json::Value) -> Option<Content> {
    if value.is_object() {
        Some(Content {
            content: text_of(&value["content"]),
            reasoning_content: text_of(&value["reasoning_content"]),
        })
    } else {
        None
    }
}

fn count_of(value: &serde_json::Value) -> Option<i32> {
    value.as_i64().and_then(|n| i32::try_from(n).ok())
}

fn parse(payload: &str) -> Option<Response> {
    let value: serde_json::Value = serde_json::from_str(payload).ok()?;
    let choices = value.get("choices")?.as_array()?;
    let choices = choices
        .iter()
        .map(|choice| Choice {
            message: content_of(&choice["message"]),
            delta: content_of(&choice["delta"]),
        })
        .collect();
    let usage = match value.get("usage") {
        Some(usage) if usage.is_object() => Some(Usage {
            prompt_tokens: count_of(&usage["prompt_tokens"])?,
            completion_tokens: count_of(&usage["completion_tokens"])?,
            total_tokens: count_of(&usage["total_tokens"])?,
        }),
        _ => None,
    };
    Some(Response { choices, usage })
}

fn decode(chunks: &[&[u8]]) -> Vec<Completion> {
    let mut decoder = Decoder::new();
    let mut out = Vec::new();
    for chunk in chunks {
        let parsed = chunk_payloads(chunk).iter().map(|payload| parse(payload)).collect();
        for record in decoder.accept(parsed) {
            out.push(record.into_completion());
        }
        if decoder.is_closed() {
            break;
        }
    }
    out
}

#[test]
fn one_data_record_gives_one_payload() {
    let body = "data: {\"choices\":[{\"delta\":{\"content\":\"你好\"}}]}\n\n";
    let payloads = chunk_payloads(body.as_bytes());
    assert_eq!(payloads, vec!["{\"choices\":[{\"delta\":{\"content\":\"你好\"}}]}"]);
}

#[test]
fn one_data_record_decodes_to_one_completion() {
    let body = "data: {\"choices\":[{\"delta\":{\"content\":\"你好\"}}]}\n\n";
    let completions = decode(&[body.as_bytes()]);
    assert_eq!(completions.len(), 1);
    assert_eq!(completions[0].content.as_deref(), Some("你好"));
    assert!(completions[0].reasoning_content.is_none());
    assert!(completions[0].usage.is_none());
}

#[test]
fn fragments_without_the_prefix_are_passed_over() {
    let text = ": heartbeat\n\ndata: a\n\nevent: ping\n\ndata: b";
    assert_eq!(data_payloads(text), vec!["a", "b"]);
}

#[test]
fn the_prefix_needs_its_space() {
    assert_eq!(data_payloads("data:a\n\ndata: \n\n data: b"), vec![""]);
}

#[test]
fn text_without_a_blank_line_is_one_fragment() {
    assert_eq!(data_payloads("data: a\ndata: b"), vec!["a\ndata: b"]);
    assert_eq!(data_payloads(""), Vec::<String>::new());
    assert_eq!(data_payloads("data: "), vec![""]);
}

#[test]
fn blank_lines_are_cut_from_the_left() {
    assert_eq!(data_payloads("data: a\n\n\ndata: b"), Vec::<String>::from(["a".to_owned()]));
    assert_eq!(data_payloads("data: a\n\n\n\ndata: b"), vec!["a", "b"]);
    assert_eq!(data_payloads("\n\ndata: a\n"), vec!["a\n"]);
}

#[test]
fn invalid_bytes_are_replaced_and_the_rest_is_kept() {
    let mut chunk = b"data: a".to_vec();
    chunk.push(0xff);
    chunk.extend_from_slice(b"b\n\ndata: c");
    assert_eq!(chunk_payloads(&chunk), vec!["a\u{fffd}b", "c"]);
}

#[test]
fn malformed_payload_ends_the_stream_without_an_error() {
    let first = "data: {\"choices\":[{\"delta\":{\"content\":\"a\"}}]}\n\ndata: [DONE]\n\ndata: {\"choices\":[{\"delta\":{\"content\":\"b\"}}]}\n\n";
    let second = "data: {\"choices\":[{\"delta\":{\"content\":\"c\"}}]}\n\n";
    let completions = decode(&[first.as_bytes(), second.as_bytes()]);
    assert_eq!(completions.len(), 1);
    assert_eq!(completions[0].content.as_deref(), Some("a"));
}

#[test]
fn source_that_ends_with_a_fragment_that_is_no_json_just_ends() {
    let first = "data: {\"choices\":[{\"delta\":{\"content\":\"a\"}}]}\n\n";
    let second = "data: {\"choices\":[{\"delta\":{\"content\":\"b\"}}]}\n\ndata: {\"choi";
    let completions = decode(&[first.as_bytes(), second.as_bytes()]);
    assert_eq!(completions.len(), 2);
    assert_eq!(completions[0].content.as_deref(), Some("a"));
    assert_eq!(completions[1].content.as_deref(), Some("b"));
}

#[test]
fn decoder_hands_on_records_up_to_the_first_failure() {
    let mut decoder = Decoder::new();
    assert!(!decoder.is_closed());
    assert_eq!(decoder.accept(vec![Some(1), Some(2)]), vec![1, 2]);
    assert!(!decoder.is_closed());
    assert_eq!(decoder.accept(Vec::<Option<i32>>::new()), Vec::<i32>::new());
    assert!(!decoder.is_closed());
    assert_eq!(decoder.accept(vec![Some(3), None, Some(4)]), vec![3]);
    assert!(decoder.is_closed());
    assert_eq!(decoder.accept(vec![Some(5)]), Vec::<i32>::new());
    assert!(decoder.is_closed());
}

#[test]
fn usage_only_record_maps_to_usage_alone() {
    let body = "data: {\"choices\":[],\"usage\":{\"prompt_tokens\":5,\"completion_tokens\":2,\"total_tokens\":7}}\n\n";
    let completions = decode(&[body.as_bytes()]);
    assert_eq!(completions.len(), 1);
    assert!(completions[0].content.is_none());
    assert!(completions[0].reasoning_content.is_none());
    assert_eq!(
        completions[0].usage,
        Some(Usage { prompt_tokens: 5, completion_tokens: 2, total_tokens: 7 })
    );
}

#[test]
fn openai_test_der_response() {
    let json = r#"{"choices":[{"finish_reason":"stop","delta":{"content":"你好"},"index":0,"logprobs":null}],"object":"chat.completion.chunk","usage":null,"created":1762759403,"system_fingerprint":null,"model":"qwen-turbo-latest","id":"chatcmpl-770e00d6-1452-496c-9792-3379d10d6c01"}"#;
    let response = parse(json).unwrap();
    println!("{response:?}");
    assert_eq!(response.content().map(String::as_str), Some("你好"));
    assert!(response.usage.is_none());
}

#[test]
fn response_test_der_response() {
    let json = r#"{"choices":[{"finish_reason":"stop","delta":{"content":"你好"},"index":0,"logprobs":null}],"object":"chat.completion.chunk","usage":null,"created":1762759403,"system_fingerprint":null,"model":"qwen-turbo-latest","id":"chatcmpl-770e00d6-1452-496c-9792-3379d10d6c01"}"#;
    let response: llm_chat::response::ChatResponse = parse(json).unwrap();
    println!("{response:?}");
    let completion = Completion::from(response);
    assert_eq!(completion.content.as_deref(), Some("你好"));
    assert!(completion.reasoning_content.is_none());
    assert!(completion.usage.is_none());
}

use llm_chat::accumulate::{collect, Accumulator};
use llm_chat::text_stream::{join_texts, text_completion, text_stream, TextAccumulator};
use llm_chat::{Completion, Usage};

fn content(text: &str) -> Completion {
    Completion::new(Some(text.to_owned()), None, None)
}

fn reasoning(text: &str) -> Completion {
    Completion::new(None, Some(text.to_owned()), None)
}

fn usage(prompt_tokens: i32, completion_tokens: i32, total_tokens: i32) -> Completion {
    Completion::new(None, None, Some(Usage { prompt_tokens, completion_tokens, total_tokens }))
}

fn sentinel() -> Completion {
    Completion::new(None, None, None)
}

#[test]
fn collect_joins_content_and_keeps_usage() {
    let completion = collect(vec![content("He"), content("llo"), usage(5, 2, 7)]);
    assert_eq!(completion.content.as_deref(), Some("Hello"));
    assert_eq!(completion.reasoning_content, None);
    assert_eq!(
        completion.usage,
        Some(Usage { prompt_tokens: 5, completion_tokens: 2, total_tokens: 7 })
    );
}

#[test]
fn collect_of_nothing_holds_nothing() {
    let completion = collect(Vec::new());
    assert!(completion.content.is_none());
    assert!(completion.reasoning_content.is_none());
    assert!(completion.usage.is_none());
}

#[test]
fn collect_joins_reasoning_on_its_own() {
    let completion = collect(vec![
        reasoning("a"),
        reasoning("b"),
        content("x"),
        Completion::new(Some("y".to_owned()), Some("c".to_owned()), None),
    ]);
    assert_eq!(completion.content.as_deref(), Some("xy"));
    assert_eq!(completion.reasoning_content.as_deref(), Some("abc"));
}

#[test]
fn collect_keeps_the_last_usage() {
    let completion = collect(vec![usage(1, 1, 2), content("a"), usage(5, 2, 7)]);
    assert_eq!(
        completion.usage,
        Some(Usage { prompt_tokens: 5, completion_tokens: 2, total_tokens: 7 })
    );
    assert_eq!(completion.content.as_deref(), Some("a"));
}

#[test]
fn collect_stops_at_the_first_chunk_that_carries_nothing() {
    let completion = collect(vec![content("a"), sentinel(), content("b"), usage(1, 2, 3)]);
    assert_eq!(completion.content.as_deref(), Some("a"));
    assert!(completion.usage.is_none());
}

#[test]
fn usage_only_chunk_does_not_end_the_fold() {
    let completion = collect(vec![content("a"), usage(5, 2, 7), content("b")]);
    assert_eq!(completion.content.as_deref(), Some("ab"));
    assert!(completion.reasoning_content.is_none());
    assert_eq!(
        completion.usage,
        Some(Usage { prompt_tokens: 5, completion_tokens: 2, total_tokens: 7 })
    );
}

#[test]
fn empty_text_is_content_and_not_a_sentinel() {
    let completion = collect(vec![content(""), content("a")]);
    assert_eq!(completion.content.as_deref(), Some("a"));
    let only_empty = collect(vec![content("")]);
    assert_eq!(only_empty.content.as_deref(), Some(""));
}

#[test]
fn accumulator_fed_chunk_by_chunk_agrees_with_collect() {
    let chunks = vec![reasoning("r"), content("He"), content("llo"), usage(5, 2, 7), sentinel(), content("!")];
    let mut accumulator = Accumulator::new();
    let mut answers = Vec::new();
    for chunk in chunks.clone() {
        answers.push(accumulator.push(chunk));
    }
    assert_eq!(answers, vec![true, true, true, true, false, false]);
    assert!(accumulator.is_done());
    let fed = accumulator.finish();
    let whole = collect(chunks);
    assert_eq!(fed.content, whole.content);
    assert_eq!(fed.reasoning_content, whole.reasoning_content);
    assert_eq!(fed.usage, whole.usage);
    assert_eq!(fed.content.as_deref(), Some("Hello"));
    assert_eq!(fed.reasoning_content.as_deref(), Some("r"));
}

#[test]
fn new_accumulator_is_open_and_empty() {
    let accumulator = Accumulator::new();
    assert!(!accumulator.is_done());
    let completion = accumulator.finish();
    assert!(completion.content.is_none() && completion.reasoning_content.is_none());
    assert!(completion.usage.is_none());
}

#[test]
fn text_stream_wraps_reasoning_in_markers() {
    let texts = text_stream(vec![reasoning("why"), content("answer")]);
    assert_eq!(texts, vec!["<think>", "why", "</think>", "answer"]);
}

#[test]
fn text_stream_opens_once_per_run_of_reasoning() {
    let texts = text_stream(vec![reasoning("a"), reasoning("b"), content("x"), content("y")]);
    assert_eq!(texts, vec!["<think>", "a", "b", "</think>", "x", "y"]);
}

#[test]
fn text_stream_of_one_chunk_with_both_texts() {
    let texts = text_stream(vec![Completion::new(
        Some("answer".to_owned()),
        Some("why".to_owned()),
        None,
    )]);
    assert_eq!(texts, vec!["<think>", "why", "</think>", "answer"]);
}

#[test]
fn text_stream_reopens_for_reasoning_after_an_answer() {
    let texts = text_stream(vec![reasoning("a"), content("x"), reasoning("b"), content("y")]);
    assert_eq!(texts, vec!["<think>", "a", "</think>", "x", "<think>", "b", "</think>", "y"]);
}

#[test]
fn text_stream_leaves_an_unanswered_block_open() {
    let texts = text_stream(vec![reasoning("a")]);
    assert_eq!(texts, vec!["<think>", "a"]);
}

#[test]
fn text_stream_passes_over_usage_and_stops_at_a_sentinel() {
    let texts = text_stream(vec![content("a"), usage(1, 2, 3), content("b"), sentinel(), content("c")]);
    assert_eq!(texts, vec!["a", "b"]);
}

#[test]
fn text_accumulator_fed_chunk_by_chunk() {
    let mut accumulator = TextAccumulator::new();
    assert!(!accumulator.is_done());
    assert_eq!(accumulator.push(reasoning("why")), vec!["<think>", "why"]);
    assert_eq!(accumulator.push(usage(1, 2, 3)), Vec::<String>::new());
    assert_eq!(accumulator.push(content("answer")), vec!["</think>", "answer"]);
    assert_eq!(accumulator.push(content("!")), vec!["!"]);
    assert!(!accumulator.is_done());
    assert_eq!(accumulator.push(sentinel()), Vec::<String>::new());
    assert!(accumulator.is_done());
    assert_eq!(accumulator.push(content("late")), Vec::<String>::new());
}

#[test]
fn join_texts_joins_in_order() {
    let texts = vec!["<think>".to_owned(), "why".to_owned(), "</think>".to_owned(), "answer".to_owned()];
    assert_eq!(join_texts(&texts), "<think>why</think>answer");
    assert_eq!(join_texts(&Vec::new()), "");
}

#[test]
fn display_text_of_the_fold_is_the_joined_text_view() {
    let chunks = vec![
        content(""),
        reasoning("wh"),
        reasoning("y"),
        Completion::new(Some("ans".to_owned()), None, None),
        usage(5, 2, 7),
        content("wer"),
    ];
    let joined = text_completion(chunks.clone());
    let folded = collect(chunks);
    assert_eq!(joined, "<think>why</think>answer");
    assert_eq!(folded.to_string(), joined);
}

#[test]
fn display_text_and_text_view_differ_when_reasoning_follows_an_answer() {
    let chunks = vec![reasoning("a"), content("x"), reasoning("b"), content("y")];
    assert_eq!(text_completion(chunks.clone()), "<think>a</think>x<think>b</think>y");
    assert_eq!(collect(chunks).to_string(), "<think>ab</think>xy");
}

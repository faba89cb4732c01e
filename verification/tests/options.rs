use llm_chat::options::{BorrowedModelOptions, ModelOptions, OpenAIModelOptions};
use llm_chat::Model;

struct Qwen {
    options: ModelOptions,
}

impl Qwen {
    fn new() -> Self {
        Self {
            options: OpenAIModelOptions::new()
                .model("qwen-vl-plus-2025-08-15")
                .base_url("https://dashscope.aliyuncs.com/compatible-mode/v1/chat/completions")
                .api_key("")
                .into(),
        }
    }
}

impl Model for Qwen {
    fn options(&self) -> &ModelOptions {
        &self.options
    }
}

#[test]
fn merge_is_left_biased_per_field() {
    let base = OpenAIModelOptions::new().base_url("a");
    let over = OpenAIModelOptions::new().model("m");
    let merged = base.merge(&over);
    assert_eq!(merged.base_url, Some("a"));
    assert_eq!(merged.model, Some("m"));
    assert_eq!(merged.api_key, None);
}

#[test]
fn merge_override_wins_where_both_are_set() {
    let base = OpenAIModelOptions::new().base_url("a").model("base").api_key("k1");
    let over = OpenAIModelOptions::new().model("over").api_key("k2");
    let merged = base.merge(&over);
    assert_eq!(merged.base_url, Some("a"));
    assert_eq!(merged.model, Some("over"));
    assert_eq!(merged.api_key, Some("k2"));
}

#[test]
fn merge_twice_with_the_same_override_changes_nothing() {
    let base = OpenAIModelOptions::new().base_url("a").model("base");
    let over = OpenAIModelOptions::new().model("over").api_key("k");
    let once = base.merge(&over);
    let once_owned = OpenAIModelOptions {
        base_url: once.base_url.map(str::to_owned),
        model: once.model.map(str::to_owned),
        api_key: once.api_key.map(str::to_owned),
    };
    let twice = once_owned.merge(&over);
    assert_eq!(twice.base_url, once.base_url);
    assert_eq!(twice.model, once.model);
    assert_eq!(twice.api_key, once.api_key);
}

#[test]
fn new_options_have_no_field_set() {
    let options = OpenAIModelOptions::new();
    assert!(options.base_url.is_none());
    assert!(options.model.is_none());
    assert!(options.api_key.is_none());
    let same = ModelOptions::openai();
    assert!(same.base_url.is_none() && same.model.is_none() && same.api_key.is_none());
}

#[test]
fn builders_set_one_field_each() {
    let options = OpenAIModelOptions::new()
        .model("qwen-vl-plus-2025-08-15")
        .base_url("https://dashscope.aliyuncs.com/compatible-mode/v1/chat/completions")
        .api_key("");
    assert_eq!(options.model.as_deref(), Some("qwen-vl-plus-2025-08-15"));
    assert_eq!(
        options.base_url.as_deref(),
        Some("https://dashscope.aliyuncs.com/compatible-mode/v1/chat/completions")
    );
    assert_eq!(options.api_key.as_deref(), Some(""));
}

#[test]
fn borrow_keeps_every_field() {
    let options = OpenAIModelOptions::new().model("m").api_key("k");
    let borrowed = options.borrow();
    assert_eq!(borrowed.model, Some("m"));
    assert_eq!(borrowed.base_url, None);
    assert_eq!(borrowed.api_key, Some("k"));
}

#[test]
fn default_options_are_whatever() {
    assert!(matches!(ModelOptions::default(), ModelOptions::Whatever));
}

#[test]
fn whatever_leaves_the_other_side_as_it_is() {
    let model: ModelOptions = OpenAIModelOptions::new().base_url("a").model("m").into();
    let call = ModelOptions::default();
    match model.merge(&call) {
        BorrowedModelOptions::OpenAI(options) => {
            assert_eq!(options.base_url, Some("a"));
            assert_eq!(options.model, Some("m"));
            assert_eq!(options.api_key, None);
        }
        BorrowedModelOptions::Whatever => panic!("the model's options were lost"),
    }
    match call.merge(&model) {
        BorrowedModelOptions::OpenAI(options) => {
            assert_eq!(options.base_url, Some("a"));
            assert_eq!(options.model, Some("m"));
        }
        BorrowedModelOptions::Whatever => panic!("the call's options were lost"),
    }
    assert!(matches!(call.merge(&ModelOptions::Whatever), BorrowedModelOptions::Whatever));
}

#[test]
fn merge_of_two_openai_options_goes_field_by_field() {
    let model: ModelOptions = OpenAIModelOptions::new().base_url("a").model("m").into();
    let call: ModelOptions = OpenAIModelOptions::new().model("n").api_key("k").into();
    let merged = model.merge(&call).into_openai().unwrap();
    assert_eq!(merged.base_url, Some("a"));
    assert_eq!(merged.model, Some("n"));
    assert_eq!(merged.api_key, Some("k"));
}

#[test]
fn into_openai_is_none_for_whatever() {
    let nothing = ModelOptions::Whatever;
    assert!(nothing.borrow().into_openai().is_none());
    let some: ModelOptions = OpenAIModelOptions::new().into();
    assert!(some.borrow().into_openai().is_some());
}

#[test]
fn a_call_merges_its_options_over_those_of_the_model() {
    let qwen = Qwen::new();
    let call: ModelOptions = OpenAIModelOptions::new().model("qwen-turbo-latest").into();
    let effective = qwen.options().merge(&call).into_openai().unwrap();
    assert_eq!(effective.model, Some("qwen-turbo-latest"));
    assert_eq!(
        effective.base_url,
        Some("https://dashscope.aliyuncs.com/compatible-mode/v1/chat/completions")
    );
    assert_eq!(effective.api_key, Some(""));
    let plain = ModelOptions::default();
    let unchanged = qwen.options().merge(&plain).into_openai().unwrap();
    assert_eq!(unchanged.model, Some("qwen-vl-plus-2025-08-15"));
}

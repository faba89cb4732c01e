use llm_chat::message::{Media, MediaMessage, TextMessage};
use llm_chat::prompt::Prompt;
use llm_chat::wire::{decode_media, MediaEntry, MediaError, MediaField, MediaFields};
use llm_chat::{Message, Role};

fn url_of(value: &serde_json::Value) -> String {
    value["url"].as_str().unwrap().to_owned()
}

fn entry_of(field: MediaField, value: &serde_json::Value) -> MediaEntry {
    match field {
        MediaField::Type => MediaEntry::Type(value.as_str().unwrap().to_owned()),
        MediaField::Text => MediaEntry::Text(value.as_str().unwrap().to_owned()),
        MediaField::ImageUrl => MediaEntry::ImageUrl(url_of(value)),
        MediaField::Video => MediaEntry::Video(
            value.as_array().unwrap().iter().map(|url| url.as_str().unwrap().to_owned()).collect(),
        ),
        MediaField::VideoUrl => MediaEntry::VideoUrl(url_of(value)),
    }
}

fn media_of(value: &serde_json::Value) -> Result<Media, MediaError> {
    let mut fields = MediaFields::new();
    for (key, value) in value.as_object().unwrap() {
        let field = MediaField::from_name(key).unwrap();
        fields.put(entry_of(field, value))?;
    }
    fields.finish()
}

fn role_of(value: &serde_json::Value) -> Role {
    match value.as_str().unwrap() {
        "system" => Role::System,
        "user" => Role::User,
        "assistant" => Role::Assistant,
        other => panic!("unknown role {other}"),
    }
}

fn message_of(json: &str) -> Message {
    let value: serde_json::Value = serde_json::from_str(json).unwrap();
    let role = role_of(&value["role"]);
    match &value["content"] {
        serde_json::Value::String(text) => Message::text(role, text),
        serde_json::Value::Array(parts) => {
            let content = parts.iter().map(|part| media_of(part).unwrap()).collect();
            Message::media(role).content(content).into()
        }
        other => panic!("unknown content {other}"),
    }
}

#[test]
fn test_der_message() {
    let json = r#"{"role":"user","content":[{"type":"image_url","image_url":{"url":"https://www.baidu.com/img/bd_logo.png"}},{"type":"text","text":"这是什么"}]}"#;
    let message = message_of(json);
    if let Message::Media(MediaMessage { content, .. }) = message {
        if let Media::ImageUrl(url) = &content[0] {
            assert_eq!(url, "https://www.baidu.com/img/bd_logo.png");
        } else {
            panic!("'content[0]' is not 'Media::ImageUrl'");
        }
        if let Media::Text(text) = &content[1] {
            assert_eq!(text, "这是什么");
        } else {
            panic!("'content[1]' is not 'Media::Text'");
        }
    } else {
        panic!("'message' is not 'Message::Media'");
    }
}

#[test]
fn text_message_is_read_as_text() {
    let message = message_of(r#"{"role":"assistant","content":"hello"}"#);
    match message {
        Message::Text(TextMessage { role, content }) => {
            assert_eq!(role, Role::Assistant);
            assert_eq!(content, "hello");
        }
        Message::Media(_) => panic!("'message' is not 'Message::Text'"),
    }
}

#[test]
fn media_builders_append_in_order() {
    let message = Message::media(Role::User)
        .image_url("https://www.baidu.com/img/bd_logo.png")
        .text("这是什么")
        .video(vec!["a.png", "b.png"])
        .video_url("v.mp4");
    assert_eq!(message.role, Role::User);
    assert_eq!(
        message.content,
        vec![
            Media::ImageUrl("https://www.baidu.com/img/bd_logo.png".to_owned()),
            Media::Text("这是什么".to_owned()),
            Media::Video(vec!["a.png".to_owned(), "b.png".to_owned()]),
            Media::VideoUrl("v.mp4".to_owned()),
        ]
    );
}

#[test]
fn media_content_replaces_the_parts() {
    let message = MediaMessage::new(Role::System)
        .text("old")
        .content(vec![Media::Text("new".to_owned())]);
    assert_eq!(message.role, Role::System);
    assert_eq!(message.content, vec![Media::Text("new".to_owned())]);
}

#[test]
fn media_equality_goes_by_kind_and_value() {
    assert_eq!(Media::Text("a".to_owned()), Media::Text("a".to_owned()));
    assert_ne!(Media::Text("a".to_owned()), Media::Text("b".to_owned()));
    assert_ne!(Media::ImageUrl("a".to_owned()), Media::VideoUrl("a".to_owned()));
    assert_ne!(Media::Text("a".to_owned()), Media::ImageUrl("a".to_owned()));
    assert_eq!(
        Media::Video(vec!["a".to_owned(), "b".to_owned()]),
        Media::Video(vec!["a".to_owned(), "b".to_owned()])
    );
    assert_ne!(
        Media::Video(vec!["a".to_owned(), "b".to_owned()]),
        Media::Video(vec!["a".to_owned()])
    );
    assert_ne!(
        Media::Video(vec!["a".to_owned(), "b".to_owned()]),
        Media::Video(vec!["a".to_owned(), "c".to_owned()])
    );
    assert_eq!(Media::Video(Vec::new()), Media::Video(Vec::new()));
}

#[test]
fn text_message_keeps_role_and_content() {
    let message = TextMessage::new(Role::System, "be brief");
    assert_eq!(message.role, Role::System);
    assert_eq!(message.content, "be brief");
}

#[test]
fn prompt_builders_keep_conversation_order() {
    let prompt = Prompt::new()
        .system("先分析图片中的所有元素，再回答用户的问题。")
        .user("u")
        .assistant("a")
        .message(
            Message::media(Role::User)
                .image_url("https://qwenlm.github.io/img/logo.png")
                .text("这是什么")
                .into(),
        );
    let messages = prompt.messages();
    assert_eq!(messages.len(), 4);
    match &messages[0] {
        Message::Text(TextMessage { role, content }) => {
            assert_eq!(*role, Role::System);
            assert_eq!(content, "先分析图片中的所有元素，再回答用户的问题。");
        }
        Message::Media(_) => panic!("the first message is not text"),
    }
    match &messages[1] {
        Message::Text(TextMessage { role, content }) => {
            assert_eq!(*role, Role::User);
            assert_eq!(content, "u");
        }
        Message::Media(_) => panic!("the second message is not text"),
    }
    match &messages[2] {
        Message::Text(TextMessage { role, content }) => {
            assert_eq!(*role, Role::Assistant);
            assert_eq!(content, "a");
        }
        Message::Media(_) => panic!("the third message is not text"),
    }
    match &messages[3] {
        Message::Media(MediaMessage { role, content }) => {
            assert_eq!(*role, Role::User);
            assert_eq!(content.len(), 2);
        }
        Message::Text(_) => panic!("the fourth message is not media"),
    }
    assert!(prompt.is_media());
}

#[test]
fn prompt_of_texts_is_not_media() {
    assert!(!Prompt::new().is_media());
    assert!(!Prompt::create("hi").system("s").is_media());
    assert!(Prompt::new().message(Message::media(Role::User).into()).user("x").is_media());
}

#[test]
fn prompt_create_holds_one_user_message() {
    let messages = Prompt::create("hi").into_messages();
    assert_eq!(messages.len(), 1);
    match &messages[0] {
        Message::Text(TextMessage { role, content }) => {
            assert_eq!(*role, Role::User);
            assert_eq!(content, "hi");
        }
        Message::Media(_) => panic!("the message is not text"),
    }
}

#[test]
fn prompt_from_messages_keeps_them() {
    let prompt = Prompt::from(vec![Message::text(Role::User, "a"), Message::text(Role::User, "b")]);
    assert_eq!(prompt.messages().len(), 2);
}

#[test]
fn field_names_read_back() {
    let fields = [
        (MediaField::Type, "type"),
        (MediaField::Text, "text"),
        (MediaField::ImageUrl, "image_url"),
        (MediaField::Video, "video"),
        (MediaField::VideoUrl, "video_url"),
    ];
    for (field, name) in fields {
        assert_eq!(field.name(), name);
        assert_eq!(MediaField::from_name(name), Some(field));
    }
    assert_eq!(MediaField::from_name("audio"), None);
    assert_eq!(MediaField::from_name(""), None);
    assert_eq!(MediaField::from_name("Type"), None);
    assert_eq!(MediaField::from_name("text "), None);
}

#[test]
fn entries_of_each_kind_read_back() {
    let all = [
        Media::Text("t".to_owned()),
        Media::ImageUrl("i".to_owned()),
        Media::Video(vec!["a".to_owned(), "b".to_owned()]),
        Media::VideoUrl("v".to_owned()),
    ];
    for media in all {
        let entries = media.entries();
        assert_eq!(entries.len(), 2);
        assert_eq!(entries[0].field(), MediaField::Type);
        assert_eq!(entries[1].field(), media.kind());
        match &entries[0] {
            MediaEntry::Type(name) => assert_eq!(name, media.kind().name()),
            other => panic!("the first entry is {other:?}"),
        }
        assert_eq!(decode_media(entries).unwrap(), media);
    }
}

#[test]
fn type_may_come_after_the_value() {
    let media = decode_media(vec![
        MediaEntry::Text("t".to_owned()),
        MediaEntry::Type("text".to_owned()),
    ]);
    assert_eq!(media.unwrap(), Media::Text("t".to_owned()));
}

#[test]
fn missing_type_is_an_error() {
    match decode_media(vec![MediaEntry::Text("t".to_owned())]) {
        Err(MediaError::MissingField(MediaField::Type)) => {}
        other => panic!("got {other:?}"),
    }
    match decode_media(Vec::new()) {
        Err(MediaError::MissingField(MediaField::Type)) => {}
        other => panic!("got {other:?}"),
    }
}

#[test]
fn missing_value_is_an_error_named_by_the_type() {
    let kinds = [
        ("text", MediaField::Text),
        ("image_url", MediaField::ImageUrl),
        ("video", MediaField::Video),
        ("video_url", MediaField::VideoUrl),
    ];
    for (name, field) in kinds {
        match decode_media(vec![MediaEntry::Type(name.to_owned())]) {
            Err(MediaError::MissingField(missing)) => assert_eq!(missing, field),
            other => panic!("got {other:?}"),
        }
    }
}

#[test]
fn duplicate_key_is_an_error() {
    match decode_media(vec![
        MediaEntry::Type("text".to_owned()),
        MediaEntry::Text("a".to_owned()),
        MediaEntry::Text("b".to_owned()),
    ]) {
        Err(MediaError::DuplicateField(MediaField::Text)) => {}
        other => panic!("got {other:?}"),
    }
    match decode_media(vec![
        MediaEntry::Type("text".to_owned()),
        MediaEntry::Type("video".to_owned()),
        MediaEntry::Text("a".to_owned()),
        MediaEntry::Text("b".to_owned()),
    ]) {
        Err(MediaError::DuplicateField(MediaField::Type)) => {}
        other => panic!("got {other:?}"),
    }
}

#[test]
fn the_two_url_keys_share_one_slot() {
    match decode_media(vec![
        MediaEntry::Type("image_url".to_owned()),
        MediaEntry::ImageUrl("i".to_owned()),
        MediaEntry::VideoUrl("v".to_owned()),
    ]) {
        Err(MediaError::DuplicateField(MediaField::VideoUrl)) => {}
        other => panic!("got {other:?}"),
    }
    let media = decode_media(vec![
        MediaEntry::Type("image_url".to_owned()),
        MediaEntry::VideoUrl("v".to_owned()),
    ]);
    assert_eq!(media.unwrap(), Media::ImageUrl("v".to_owned()));
}

#[test]
fn unknown_type_is_an_error() {
    match decode_media(vec![
        MediaEntry::Type("audio".to_owned()),
        MediaEntry::Text("a".to_owned()),
    ]) {
        Err(MediaError::UnknownVariant(name)) => assert_eq!(name, "audio"),
        other => panic!("got {other:?}"),
    }
}

#[test]
fn fields_say_which_slot_is_filled() {
    let mut fields = MediaFields::new();
    assert!(!fields.holds(MediaField::Type));
    assert!(!fields.holds(MediaField::ImageUrl));
    assert!(fields.put(MediaEntry::ImageUrl("i".to_owned())).is_ok());
    assert!(fields.holds(MediaField::ImageUrl));
    assert!(fields.holds(MediaField::VideoUrl));
    assert!(!fields.holds(MediaField::Video));
    assert!(!fields.holds(MediaField::Text));
    assert!(fields.put(MediaEntry::VideoUrl("v".to_owned())).is_err());
    assert!(fields.put(MediaEntry::Type("image_url".to_owned())).is_ok());
    assert_eq!(fields.finish().unwrap(), Media::ImageUrl("i".to_owned()));
}

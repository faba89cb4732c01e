use crate::text::texts_view;
use vstd::prelude::*;
use vstd::std_specs::cmp::PartialEqSpecImpl;
use vstd::string::*;

verus! {

/// Who speaks in a message.
#[derive(Clone, Copy, Debug, PartialEq, Eq, Structural)]
pub enum Role {
    System,
    User,
    Assistant,
}

/// One part of a multi-part message.
#[derive(Clone, Debug)]
pub enum Media {
    Text(String),
    ImageUrl(String),
    Video(Vec<String>),
    VideoUrl(String),
}

/// The mathematical value of a [`Media`].
pub enum MediaView {
    Text(Seq<char>),
    ImageUrl(Seq<char>),
    Video(Seq<Seq<char>>),
    VideoUrl(Seq<char>),
}

impl View for Media {
    type V = MediaView;

    open spec fn view(&self) -> MediaView {
        match self {
            Media::Text(text) => MediaView::Text(text@),
            Media::ImageUrl(url) => MediaView::ImageUrl(url@),
            Media::Video(urls) => MediaView::Video(texts_view(urls@)),
            Media::VideoUrl(url) => MediaView::VideoUrl(url@),
        }
    }
}

/// Whether two lists hold the same texts in the same order.
fn same_texts(a: &Vec<String>, b: &Vec<String>) -> (equal: bool)
    ensures
        equal == (texts_view(a@) == texts_view(b@)),
{
    if a.len() != b.len() {
        assert(texts_view(a@).len() != texts_view(b@).len());
        return false;
    }
    let mut i: usize = 0;
    while i < a.len()
        invariant
            a.len() == b.len(),
            i <= a.len(),
            forall|j: int| 0 <= j < i ==> a@[j]@ == b@[j]@,
        decreases a.len() - i,
    {
        if !(a[i] == b[i]) {
            assert(texts_view(a@)[i as int] != texts_view(b@)[i as int]);
            return false;
        }
        i += 1;
    }
    assert(texts_view(a@) =~= texts_view(b@));
    true
}

impl PartialEq for Media {
    fn eq(&self, other: &Self) -> (equal: bool) {
        match (self, other) {
            (Media::Text(a), Media::Text(b)) => *a == *b,
            (Media::ImageUrl(a), Media::ImageUrl(b)) => *a == *b,
            (Media::Video(a), Media::Video(b)) => same_texts(a, b),
            (Media::VideoUrl(a), Media::VideoUrl(b)) => *a == *b,
            _ => false,
        }
    }
}

impl PartialEqSpecImpl for Media {
    open spec fn obeys_eq_spec() -> bool {
        true
    }

    open spec fn eq_spec(&self, other: &Media) -> bool {
        self@ == other@
    }
}

/// A message whose content is one text.
#[derive(Clone, Debug)]
pub struct TextMessage {
    pub role: Role,
    pub content: String,
}

/// A message whose content is a list of parts, in order.
#[derive(Clone, Debug)]
pub struct MediaMessage {
    pub role: Role,
    pub content: Vec<Media>,
}

/// One message of a conversation.
#[derive(Clone, Debug)]
pub enum Message {
    Text(TextMessage),
    Media(MediaMessage),
}

/// The mathematical value of a [`Message`].
pub enum MessageView {
    Text { role: Role, content: Seq<char> },
    Media { role: Role, parts: Seq<MediaView> },
}

/// The value of each part of a list.
pub open spec fn parts_view(parts: Seq<Media>) -> Seq<MediaView> {
    parts.map_values(|part: Media| part@)
}

impl View for TextMessage {
    type V = MessageView;

    open spec fn view(&self) -> MessageView {
        MessageView::Text { role: self.role, content: self.content@ }
    }
}

impl View for MediaMessage {
    type V = MessageView;

    open spec fn view(&self) -> MessageView {
        MessageView::Media { role: self.role, parts: parts_view(self.content@) }
    }
}

impl View for Message {
    type V = MessageView;

    open spec fn view(&self) -> MessageView {
        match self {
            Message::Text(message) => message@,
            Message::Media(message) => message@,
        }
    }
}

impl MessageView {
    /// The message with one more part at its end. A text message stays as it
    /// is.
    pub open spec fn with_part(self, part: MediaView) -> MessageView {
        match self {
            MessageView::Media { role, parts } => MessageView::Media {
                role,
                parts: parts.push(part),
            },
            MessageView::Text { .. } => self,
        }
    }
}

impl TextMessage {
    pub fn new(role: Role, content: &str) -> (message: Self)
        ensures
            message@ == (MessageView::Text { role, content: content@ }),
    {
        TextMessage { role, content: content.to_owned() }
    }
}

impl Message {
    pub fn text(role: Role, content: &str) -> (message: Self)
        ensures
            message@ == (MessageView::Text { role, content: content@ }),
    {
        Message::Text(TextMessage::new(role, content))
    }

    pub fn media(role: Role) -> (message: MediaMessage)
        ensures
            message@ == (MessageView::Media { role, parts: Seq::<MediaView>::empty() }),
    {
        MediaMessage::new(role)
    }
}

impl MediaMessage {
    pub fn new(role: Role) -> (message: Self)
        ensures
            message@ == (MessageView::Media { role, parts: Seq::<MediaView>::empty() }),
    {
        let message = MediaMessage { role, content: Vec::new() };
        assert(parts_view(message.content@) =~= Seq::<MediaView>::empty());
        message
    }

    /// Replaces the parts.
    pub fn content(self, content: Vec<Media>) -> (message: Self)
        ensures
            message@ == (MessageView::Media { role: self.role, parts: parts_view(content@) }),
    {
        let mut message = self;
        message.content = content;
        message
    }

    fn part(self, part: Media) -> (message: Self)
        ensures
            message@ == self@.with_part(part@),
    {
        let mut message = self;
        message.content.push(part);
        assert(parts_view(message.content@) =~= parts_view(self.content@).push(part@));
        message
    }

    pub fn text(self, content: &str) -> (message: Self)
        ensures
            message@ == self@.with_part(MediaView::Text(content@)),
    {
        self.part(Media::Text(content.to_owned()))
    }

    pub fn image_url(self, url: &str) -> (message: Self)
        ensures
            message@ == self@.with_part(MediaView::ImageUrl(url@)),
    {
        self.part(Media::ImageUrl(url.to_owned()))
    }

    pub fn video(self, urls: Vec<&str>) -> (message: Self)
        ensures
            message@ == self@.with_part(MediaView::Video(urls@.map_values(|url: &str| url@))),
    {
        let mut owned: Vec<String> = Vec::new();
        let mut i: usize = 0;
        while i < urls.len()
            invariant
                i <= urls.len(),
                owned.len() == i,
                forall|j: int| 0 <= j < i ==> owned@[j]@ == urls@[j]@,
            decreases urls.len() - i,
        {
            owned.push(urls[i].to_owned());
            i += 1;
        }
        assert(texts_view(owned@) =~= urls@.map_values(|url: &str| url@));
        self.part(Media::Video(owned))
    }

    pub fn video_url(self, url: &str) -> (message: Self)
        ensures
            message@ == self@.with_part(MediaView::VideoUrl(url@)),
    {
        self.part(Media::VideoUrl(url.to_owned()))
    }
}

impl From<MediaMessage> for Message {
    fn from(message: MediaMessage) -> (wrapped: Self) {
        Message::Media(message)
    }
}

impl vstd::std_specs::convert::FromSpecImpl<MediaMessage> for Message {
    open spec fn obeys_from_spec() -> bool {
        true
    }

    open spec fn from_spec(message: MediaMessage) -> Self {
        Message::Media(message)
    }
}

} // verus!

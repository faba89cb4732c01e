use crate::accumulate::{
    collected, is_sentinel, lemma_usage_only_chunk, meaningful_len,
};
use crate::completion::{rendered, Completion, CompletionView};
use crate::text::optional_text;
use crate::usage::Usage;
use vstd::prelude::*;
use vstd::string::*;

verus! {

/// The texts of one choice of a provider record.
#[derive(Clone, Debug)]
pub struct Content {
    pub content: Option<String>,
    pub reasoning_content: Option<String>,
}

/// One choice of a provider record: a whole message, as a single-shot call
/// answers, or a delta, as a stream carries.
#[derive(Clone, Debug)]
pub struct Choice {
    pub message: Option<Content>,
    pub delta: Option<Content>,
}

/// A record as an OpenAI-shaped provider sends it.
#[derive(Clone, Debug)]
pub struct Response {
    pub choices: Vec<Choice>,
    pub usage: Option<Usage>,
}

/// The record of a chat call, under the name that callers of the single-shot
/// path know it by.
pub type ChatResponse = Response;

/// The mathematical value of a [`Content`].
pub struct ContentView {
    pub content: Option<Seq<char>>,
    pub reasoning_content: Option<Seq<char>>,
}

/// The mathematical value of a [`Choice`].
pub struct ChoiceView {
    pub message: Option<ContentView>,
    pub delta: Option<ContentView>,
}

/// The mathematical value of a [`Response`].
pub struct ResponseView {
    pub choices: Seq<ChoiceView>,
    pub usage: Option<Usage>,
}

/// The characters of an optional borrowed text.
pub open spec fn optional_text_ref(text: Option<&String>) -> Option<Seq<char>> {
    match text {
        Some(s) => Some(s@),
        None => None,
    }
}

/// The value of optional texts of a choice.
pub open spec fn optional_content(content: Option<Content>) -> Option<ContentView> {
    match content {
        Some(c) => Some(c@),
        None => None,
    }
}

/// The value of optional borrowed texts of a choice.
pub open spec fn optional_content_ref(content: Option<&Content>) -> Option<ContentView> {
    match content {
        Some(c) => Some(c@),
        None => None,
    }
}

impl View for Content {
    type V = ContentView;

    open spec fn view(&self) -> ContentView {
        ContentView {
            content: optional_text(self.content),
            reasoning_content: optional_text(self.reasoning_content),
        }
    }
}

impl View for Choice {
    type V = ChoiceView;

    open spec fn view(&self) -> ChoiceView {
        ChoiceView {
            message: optional_content(self.message),
            delta: optional_content(self.delta),
        }
    }
}

impl View for Response {
    type V = ResponseView;

    open spec fn view(&self) -> ResponseView {
        ResponseView {
            choices: self.choices@.map_values(|choice: Choice| choice@),
            usage: self.usage,
        }
    }
}

impl ResponseView {
    /// The message of the first choice.
    pub open spec fn message(self) -> Option<ContentView> {
        if self.choices.len() > 0 {
            self.choices[0].message
        } else {
            None
        }
    }

    /// The delta of the first choice.
    pub open spec fn delta(self) -> Option<ContentView> {
        if self.choices.len() > 0 {
            self.choices[0].delta
        } else {
            None
        }
    }

    /// Where the texts of the record are read from: the message of the first
    /// choice where it has one, else its delta. Only the first choice counts.
    pub open spec fn source(self) -> Option<ContentView> {
        if self.message() is Some {
            self.message()
        } else {
            self.delta()
        }
    }

    /// The answer text of the record.
    pub open spec fn content(self) -> Option<Seq<char>> {
        match self.source() {
            Some(texts) => texts.content,
            None => None,
        }
    }

    /// The reasoning text of the record.
    pub open spec fn reasoning_content(self) -> Option<Seq<char>> {
        match self.source() {
            Some(texts) => texts.reasoning_content,
            None => None,
        }
    }

    /// The completion that the record maps to: its two texts and its usage,
    /// each as it is.
    pub open spec fn completion(self) -> CompletionView {
        CompletionView {
            content: self.content(),
            reasoning_content: self.reasoning_content(),
            usage: self.usage,
        }
    }

    /// The display text of a single-shot record: where its first choice has
    /// a message, the display text of the completion that the record maps
    /// to; and nothing where it has none.
    pub open spec fn display(self) -> Seq<char> {
        if self.message() is Some {
            rendered(self.completion())
        } else {
            Seq::<char>::empty()
        }
    }
}

/// The texts that a record is read from, as the record holds them.
pub open spec fn picked(response: Response) -> Option<Content> {
    if response.choices@.len() > 0 {
        let first = response.choices@[0];
        if first.message is Some {
            first.message
        } else {
            first.delta
        }
    } else {
        None
    }
}

/// The completion that a record maps to, with the texts as the record holds
/// them. Its value is `completion` of the record's value.
pub open spec fn mapped(response: Response) -> Completion {
    Completion {
        content: match picked(response) {
            Some(texts) => texts.content,
            None => None,
        },
        reasoning_content: match picked(response) {
            Some(texts) => texts.reasoning_content,
            None => None,
        },
        usage: response.usage,
    }
}

/// The completion that a record maps to has the value that the value of the
/// record maps to.
pub proof fn lemma_mapped_view(response: Response)
    ensures
        mapped(response)@ == response@.completion(),
{
    if response.choices@.len() > 0 {
        assert(response@.choices[0] == response.choices@[0]@);
    }
}

impl Response {
    pub fn message(&self) -> (message: Option<&Content>)
        ensures
            optional_content_ref(message) == self@.message(),
    {
        if self.choices.len() > 0 {
            self.choices[0].message.as_ref()
        } else {
            None
        }
    }

    pub fn delta(&self) -> (delta: Option<&Content>)
        ensures
            optional_content_ref(delta) == self@.delta(),
    {
        if self.choices.len() > 0 {
            self.choices[0].delta.as_ref()
        } else {
            None
        }
    }

    /// The texts that the record is read from.
    fn source(&self) -> (source: Option<&Content>)
        ensures
            optional_content_ref(source) == self@.source(),
    {
        match self.message() {
            Some(message) => Some(message),
            None => self.delta(),
        }
    }

    pub fn content(&self) -> (content: Option<&String>)
        ensures
            optional_text_ref(content) == self@.content(),
    {
        match self.source() {
            Some(texts) => texts.content.as_ref(),
            None => None,
        }
    }

    pub fn reasoning_content(&self) -> (reasoning_content: Option<&String>)
        ensures
            optional_text_ref(reasoning_content) == self@.reasoning_content(),
    {
        match self.source() {
            Some(texts) => texts.reasoning_content.as_ref(),
            None => None,
        }
    }

    /// Gives up the record for the delta of its first choice.
    pub fn into_delta(self) -> (delta: Option<Content>)
        ensures
            optional_content(delta) == self@.delta(),
    {
        let mut choices = self.choices;
        if choices.len() > 0 {
            let first = choices.remove(0);
            first.delta
        } else {
            None
        }
    }

    /// Maps the record to a completion.
    pub fn into_completion(self) -> (completion: Completion)
        ensures
            completion@ == self@.completion(),
            completion == mapped(self),
    {
        proof {
            lemma_mapped_view(self);
        }
        let Response { choices, usage } = self;
        let mut choices = choices;
        let texts = if choices.len() > 0 {
            let first = choices.remove(0);
            match first.message {
                Some(message) => Some(message),
                None => first.delta,
            }
        } else {
            None
        };
        match texts {
            Some(texts) => Completion {
                content: texts.content,
                reasoning_content: texts.reasoning_content,
                usage,
            },
            None => Completion { content: None, reasoning_content: None, usage },
        }
    }

    /// The display text of a single-shot record.
    pub fn to_string(&self) -> (text: String)
        ensures
            text@ == self@.display(),
    {
        let mut text = String::new();
        match self.message() {
            Some(message) => {
                match &message.reasoning_content {
                    Some(reasoning) => {
                        text.append("<think>");
                        text.append(reasoning.as_str());
                        text.append("</think>");
                    },
                    None => {},
                }
                match &message.content {
                    Some(answer) => {
                        text.append(answer.as_str());
                    },
                    None => {},
                }
                assert(text@ =~= rendered(self@.completion()));
            },
            None => {},
        }
        text
    }
}

/// A record without choices that carries usage maps to a chunk of usage
/// alone. In a fold such a chunk replaces the usage, leaves both texts as
/// they were, and does not end the fold: the chunks after it are read.
pub proof fn lemma_usage_only_record(
    record: ResponseView,
    chunks: Seq<CompletionView>,
    rest: Seq<CompletionView>,
)
    requires
        record.choices.len() == 0,
        record.usage is Some,
        meaningful_len(chunks) == chunks.len(),
    ensures
        record.completion() == (CompletionView {
            content: None,
            reasoning_content: None,
            usage: record.usage,
        }),
        !is_sentinel(record.completion()),
        collected(chunks.push(record.completion())) == (CompletionView {
            usage: record.usage,
            ..collected(chunks)
        }),
        meaningful_len(chunks.push(record.completion()) + rest) == chunks.len() + 1
            + meaningful_len(rest),
{
    lemma_usage_only_chunk(chunks, record.usage->0, rest);
}

impl From<Response> for Completion {
    fn from(response: Response) -> (completion: Self) {
        response.into_completion()
    }
}

impl vstd::std_specs::convert::FromSpecImpl<Response> for Completion {
    open spec fn obeys_from_spec() -> bool {
        true
    }

    open spec fn from_spec(response: Response) -> Self {
        mapped(response)
    }
}

} // verus!

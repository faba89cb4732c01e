use crate::text::optional_text;
use crate::usage::Usage;
use vstd::prelude::*;
use vstd::string::*;

verus! {

/// The mathematical value of a [`Completion`]: each text as a sequence of
/// characters.
pub struct CompletionView {
    pub content: Option<Seq<char>>,
    pub reasoning_content: Option<Seq<char>>,
    pub usage: Option<Usage>,
}

/// The normalized result of a chat request, or one partial chunk of it.
#[derive(Clone, Debug)]
pub struct Completion {
    pub content: Option<String>,
    pub reasoning_content: Option<String>,
    pub usage: Option<Usage>,
}

/// The marker that opens a reasoning block in display text.
pub open spec fn think_open() -> Seq<char> {
    "<think>"@
}

/// The marker that closes a reasoning block in display text.
pub open spec fn think_close() -> Seq<char> {
    "</think>"@
}

/// Display text of a completion: the reasoning, if there is any, between the
/// two markers, then the answer.
pub open spec fn rendered(c: CompletionView) -> Seq<char> {
    let reasoning = match c.reasoning_content {
        Some(r) => think_open() + r + think_close(),
        None => Seq::<char>::empty(),
    };
    let answer = match c.content {
        Some(t) => t,
        None => Seq::<char>::empty(),
    };
    reasoning + answer
}

impl View for Completion {
    type V = CompletionView;

    open spec fn view(&self) -> CompletionView {
        CompletionView {
            content: optional_text(self.content),
            reasoning_content: optional_text(self.reasoning_content),
            usage: self.usage,
        }
    }
}

impl Completion {
    pub fn new(
        content: Option<String>,
        reasoning_content: Option<String>,
        usage: Option<Usage>,
    ) -> (completion: Self)
        ensures
            completion.content == content,
            completion.reasoning_content == reasoning_content,
            completion.usage == usage,
    {
        Self { content, reasoning_content, usage }
    }

    /// The display text: `rendered` of this completion.
    pub fn to_string(&self) -> (text: String)
        ensures
            text@ == rendered(self@),
    {
        let mut text = String::new();
        if let Some(reasoning_content) = &self.reasoning_content {
            text.append("<think>");
            text.append(reasoning_content.as_str());
            text.append("</think>");
        }
        if let Some(content) = &self.content {
            text.append(content.as_str());
        }
        text
    }
}

} // verus!

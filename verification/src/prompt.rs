use crate::message::{Message, MessageView, Role};
use vstd::prelude::*;

verus! {

/// The messages of a conversation, in conversation order.
#[derive(Clone, Debug)]
pub struct Prompt(pub Vec<Message>);

/// The value of each message of a list.
pub open spec fn messages_view(messages: Seq<Message>) -> Seq<MessageView> {
    messages.map_values(|message: Message| message@)
}

/// Whether one of the messages is made of parts.
pub open spec fn has_media(messages: Seq<MessageView>) -> bool {
    exists|i: int| 0 <= i < messages.len() && (#[trigger] messages[i]) is Media
}

impl View for Prompt {
    type V = Seq<MessageView>;

    open spec fn view(&self) -> Seq<MessageView> {
        messages_view(self.0@)
    }
}

impl Prompt {
    pub fn new() -> (prompt: Self)
        ensures
            prompt@ == Seq::<MessageView>::empty(),
    {
        let prompt = Prompt(Vec::new());
        assert(prompt@ =~= Seq::<MessageView>::empty());
        prompt
    }

    /// A prompt of one user message.
    pub fn create(content: &str) -> (prompt: Self)
        ensures
            prompt@ == seq![MessageView::Text { role: Role::User, content: content@ }],
    {
        Prompt::new().user(content)
    }

    /// The prompt with one more message at its end.
    pub fn message(self, message: Message) -> (prompt: Self)
        ensures
            prompt@ == self@.push(message@),
    {
        let mut prompt = self;
        prompt.0.push(message);
        assert(prompt@ =~= self@.push(message@));
        prompt
    }

    pub fn system(self, content: &str) -> (prompt: Self)
        ensures
            prompt@ == self@.push(MessageView::Text { role: Role::System, content: content@ }),
    {
        self.message(Message::text(Role::System, content))
    }

    pub fn user(self, content: &str) -> (prompt: Self)
        ensures
            prompt@ == self@.push(MessageView::Text { role: Role::User, content: content@ }),
    {
        self.message(Message::text(Role::User, content))
    }

    pub fn assistant(self, content: &str) -> (prompt: Self)
        ensures
            prompt@ == self@.push(MessageView::Text { role: Role::Assistant, content: content@ }),
    {
        self.message(Message::text(Role::Assistant, content))
    }

    /// Whether one of the messages is made of parts.
    pub fn is_media(self) -> (found: bool)
        ensures
            found == has_media(self@),
    {
        let mut i: usize = 0;
        while i < self.0.len()
            invariant
                i <= self.0.len(),
                forall|j: int| 0 <= j < i ==> !((#[trigger] self@[j]) is Media),
            decreases self.0.len() - i,
        {
            match &self.0[i] {
                Message::Media(_) => {
                    assert(self@[i as int] is Media);
                    return true;
                },
                Message::Text(_) => {},
            }
            i += 1;
        }
        false
    }

    /// The messages, in order.
    pub fn messages(&self) -> (messages: &Vec<Message>)
        ensures
            messages_view(messages@) == self@,
    {
        &self.0
    }

    /// Gives up the prompt for its messages.
    pub fn into_messages(self) -> (messages: Vec<Message>)
        ensures
            messages_view(messages@) == self@,
    {
        self.0
    }
}

impl From<Vec<Message>> for Prompt {
    fn from(messages: Vec<Message>) -> (prompt: Self) {
        Prompt(messages)
    }
}

impl vstd::std_specs::convert::FromSpecImpl<Vec<Message>> for Prompt {
    open spec fn obeys_from_spec() -> bool {
        true
    }

    open spec fn from_spec(messages: Vec<Message>) -> Self {
        Prompt(messages)
    }
}

} // verus!

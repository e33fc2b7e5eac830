use vstd::prelude::*;

verus! {

/// The role a message plays in a conversation.
#[derive(Clone, Copy, Debug, PartialEq, Eq, Structural)]
pub enum MessageType {
    System,
    Human,
    Ai,
    Tool,
}

/// One conversational message: a role and its text.
#[derive(Clone, Debug, PartialEq, Eq)]
pub struct Message {
    pub message_type: MessageType,
    pub content: String,
}

impl MessageType {
    /// The role's name, as backends spell it.
    pub fn as_str(&self) -> (r: &'static str)
        ensures
            r@ == self.name(),
    {
        match self {
            MessageType::System => "system",
            MessageType::Human => "human",
            MessageType::Ai => "ai",
            MessageType::Tool => "tool",
        }
    }

    pub open spec fn name(self) -> Seq<char> {
        match self {
            MessageType::System => "system"@,
            MessageType::Human => "human"@,
            MessageType::Ai => "ai"@,
            MessageType::Tool => "tool"@,
        }
    }
}

impl Message {
    pub fn new(message_type: MessageType, content: String) -> (r: Message)
        ensures
            r.message_type == message_type,
            r.content == content,
    {
        Message { message_type, content }
    }

    pub fn system(content: String) -> (r: Message)
        ensures
            r == (Message { message_type: MessageType::System, content }),
    {
        Message { message_type: MessageType::System, content }
    }

    pub fn human(content: String) -> (r: Message)
        ensures
            r == (Message { message_type: MessageType::Human, content }),
    {
        Message { message_type: MessageType::Human, content }
    }

    pub fn ai(content: String) -> (r: Message)
        ensures
            r == (Message { message_type: MessageType::Ai, content }),
    {
        Message { message_type: MessageType::Ai, content }
    }

    /// Whether this message is a system instruction, which is never recorded in history.
    pub open spec fn is_system(self) -> bool {
        self.message_type == MessageType::System
    }

    pub fn get_type(&self) -> (r: MessageType)
        ensures
            r == self.message_type,
    {
        self.message_type
    }

    pub fn get_content(&self) -> (r: String)
        ensures
            r == self.content,
    {
        self.content.clone()
    }

    /// An identical copy of this message.
    pub fn duplicate(&self) -> (r: Message)
        ensures
            r == *self,
    {
        Message { message_type: self.message_type, content: self.content.clone() }
    }
}

/// An identical copy of a sequence of messages.
pub fn duplicate_all(messages: &Vec<Message>) -> (r: Vec<Message>)
    ensures
        r@ == messages@,
{
    let mut r: Vec<Message> = Vec::new();
    let mut i: usize = 0;
    while i < messages.len()
        invariant
            i <= messages@.len(),
            r@ == messages@.subrange(0, i as int),
        decreases messages@.len() - i,
    {
        r.push(messages[i].duplicate());
        i = i + 1;
        assert(r@ =~= messages@.subrange(0, i as int));
    }
    assert(r@ =~= messages@);
    r
}

} // verus!

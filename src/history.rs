use vstd::prelude::*;

use crate::message::{duplicate_all, Message};

verus! {

/// An ordered, append-only log of the messages of one conversation.
#[derive(Clone, Debug)]
pub struct ChatMessageHistory {
    messages: Vec<Message>,
}

impl View for ChatMessageHistory {
    type V = Seq<Message>;

    closed spec fn view(&self) -> Seq<Message> {
        self.messages@
    }
}

impl ChatMessageHistory {
    /// An empty history.
    pub fn new() -> (r: ChatMessageHistory)
        ensures
            r@ == Seq::<Message>::empty(),
    {
        ChatMessageHistory { messages: Vec::new() }
    }

    /// A copy of every message recorded so far, oldest first.
    pub fn messages(&self) -> (r: Vec<Message>)
        ensures
            r@ == self@,
    {
        duplicate_all(&self.messages)
    }

    /// Records one more message at the end.
    pub fn add_message(&mut self, message: Message)
        ensures
            final(self)@ == old(self)@.push(message),
    {
        self.messages.push(message);
    }

    /// The number of messages recorded.
    pub fn len(&self) -> (r: usize)
        ensures
            r == self@.len(),
    {
        self.messages.len()
    }
}

} // verus!

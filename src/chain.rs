use vstd::prelude::*;

use crate::history::ChatMessageHistory;
use crate::message::{duplicate_all, Message, MessageType};

verus! {

/// Why a prompt could not be rendered into messages (an unresolved variable, say).
#[derive(Clone, Debug, PartialEq, Eq)]
pub struct PromptError {
    pub message: String,
}

/// The error that a chain run ends with.
#[derive(Clone, Debug, PartialEq, Eq)]
pub enum ApiError {
    /// The prompt did not render; the backend was not asked.
    PromptError(PromptError),
    /// The backend call failed (network, authentication, quota).
    RequestError(String),
}

/// Orchestrates one "assemble, call, record" exchange with a chat backend.
///
/// `P` is the prompt that renders the current turn and `L` the backend handle;
/// the chain carries both and leaves rendering and calling to its driver, which
/// hands the outcomes to `prepare` and `execute_with_response`.
pub struct LLMChain<P, L> {
    pub prompt: P,
    pub header_prompts: Option<Vec<Message>>,
    pub sandwich_prompts: Option<Vec<Message>>,
    pub llm: L,
    pub memory: Option<ChatMessageHistory>,
}

/// The view of an optional block of messages.
pub open spec fn block_view(block: Option<Vec<Message>>) -> Option<Seq<Message>> {
    match block {
        Some(v) => Some(v@),
        None => None,
    }
}

/// The views of a sequence of message groups.
pub open spec fn groups_view(groups: Seq<Vec<Message>>) -> Seq<Seq<Message>> {
    groups.map_values(|g: Vec<Message>| g@)
}

/// An optional fixed block as groups: one group when configured, none otherwise.
pub open spec fn optional_group(block: Option<Seq<Message>>) -> Seq<Seq<Message>> {
    match block {
        Some(b) => seq![b],
        None => Seq::empty(),
    }
}

/// The history slot: the whole history, or an empty group when none is attached.
pub open spec fn history_group(history: Option<Seq<Message>>) -> Seq<Message> {
    match history {
        Some(h) => h,
        None => Seq::empty(),
    }
}

/// The groups handed to the backend: header (if any), history (possibly empty),
/// sandwich (if any), then the current turn.
pub open spec fn ordered_groups(
    header: Option<Seq<Message>>,
    history: Option<Seq<Message>>,
    sandwich: Option<Seq<Message>>,
    turn: Seq<Message>,
) -> Seq<Seq<Message>> {
    optional_group(header) + seq![history_group(history)] + optional_group(sandwich) + seq![turn]
}

/// What one successful exchange adds to the history: the turn's non-system
/// messages in order, then the backend's response.
pub open spec fn recorded(turn: Seq<Message>, response: Message) -> Seq<Message> {
    turn.filter(non_system()).push(response)
}

/// Holds of the messages that history records: all but system instructions.
pub open spec fn non_system() -> spec_fn(Message) -> bool {
    |m: Message| !m.is_system()
}

/// The history after an exchange whose backend call came back with `response`:
/// unchanged on failure or when none is attached.
pub open spec fn history_after(
    history: Option<Seq<Message>>,
    turn: Seq<Message>,
    response: Result<Message, ApiError>,
) -> Option<Seq<Message>> {
    match (history, response) {
        (Some(h), Ok(m)) => Some(h + recorded(turn, m)),
        _ => history,
    }
}

/// How many messages an exchange adds to an attached history.
pub open spec fn added_count(turn: Seq<Message>, response: Result<Message, ApiError>) -> nat {
    match response {
        Ok(m) => recorded(turn, m).len(),
        Err(_) => 0,
    }
}

impl<P, L> LLMChain<P, L> {
    pub open spec fn header_view(&self) -> Option<Seq<Message>> {
        block_view(self.header_prompts)
    }

    pub open spec fn sandwich_view(&self) -> Option<Seq<Message>> {
        block_view(self.sandwich_prompts)
    }

    pub open spec fn history_view(&self) -> Option<Seq<Message>> {
        match self.memory {
            Some(h) => Some(h@),
            None => None,
        }
    }

    /// A chain with no history, no header and no sandwich.
    pub fn new(prompt: P, llm: L) -> (r: Self)
        ensures
            r.prompt == prompt,
            r.llm == llm,
            r.memory is None,
            r.header_view() is None,
            r.sandwich_view() is None,
    {
        LLMChain { prompt, llm, memory: None, header_prompts: None, sandwich_prompts: None }
    }

    /// Attaches a history, replacing any attached before.
    pub fn with_memory(self, memory: ChatMessageHistory) -> (r: Self)
        ensures
            r.history_view() == Some(memory@),
            r.prompt == self.prompt,
            r.llm == self.llm,
            r.header_prompts == self.header_prompts,
            r.sandwich_prompts == self.sandwich_prompts,
    {
        LLMChain { memory: Some(memory), ..self }
    }

    /// Sets the block that always comes first.
    pub fn with_header_prompts(self, header_prompts: Vec<Message>) -> (r: Self)
        ensures
            r.header_view() == Some(header_prompts@),
            r.prompt == self.prompt,
            r.llm == self.llm,
            r.memory == self.memory,
            r.sandwich_prompts == self.sandwich_prompts,
    {
        LLMChain { header_prompts: Some(header_prompts), ..self }
    }

    /// Sets the block that comes after the history and before the current turn.
    pub fn sandwich_prompts(self, sandwich_prompts: Vec<Message>) -> (r: Self)
        ensures
            r.sandwich_view() == Some(sandwich_prompts@),
            r.prompt == self.prompt,
            r.llm == self.llm,
            r.memory == self.memory,
            r.header_prompts == self.header_prompts,
    {
        LLMChain { sandwich_prompts: Some(sandwich_prompts), ..self }
    }

    /// Arranges the groups for the backend: the header block if configured, the
    /// whole attached history (an empty group when none is attached), the
    /// sandwich block if configured, and last the current turn's messages.
    pub fn order_messages(&self, prompt_messages: Vec<Message>) -> (r: Vec<Vec<Message>>)
        ensures
            groups_view(r@) == ordered_groups(
                self.header_view(),
                self.history_view(),
                self.sandwich_view(),
                prompt_messages@,
            ),
    {
        let mut all_messages: Vec<Vec<Message>> = Vec::new();
        match &self.header_prompts {
            Some(header) => all_messages.push(duplicate_all(header)),
            None => {},
        }
        let history = match &self.memory {
            Some(memory) => memory.messages(),
            None => Vec::new(),
        };
        all_messages.push(history);
        match &self.sandwich_prompts {
            Some(sandwich) => all_messages.push(duplicate_all(sandwich)),
            None => {},
        }
        all_messages.push(prompt_messages);
        assert(groups_view(all_messages@) =~= ordered_groups(
            self.header_view(),
            self.history_view(),
            self.sandwich_view(),
            prompt_messages@,
        ));
        all_messages
    }

    /// Takes the outcome of rendering the prompt for this turn. A rendering
    /// failure ends the run with a prompt error, and nothing is to be sent;
    /// otherwise hands back the turn's messages and the groups to send.
    pub fn prepare(&self, rendered: Result<Vec<Message>, PromptError>) -> (r: Result<
        (Vec<Message>, Vec<Vec<Message>>),
        ApiError,
    >)
        ensures
            match rendered {
                Err(e) => r == Err::<(Vec<Message>, Vec<Vec<Message>>), ApiError>(
                    ApiError::PromptError(e),
                ),
                Ok(turn) => r matches Ok((t, groups)) && t@ == turn@ && groups_view(groups@)
                    == ordered_groups(
                    self.header_view(),
                    self.history_view(),
                    self.sandwich_view(),
                    turn@,
                ),
            },
    {
        match rendered {
            Err(e) => Err(ApiError::PromptError(e)),
            Ok(turn) => {
                let groups = self.order_messages(duplicate_all(&turn));
                Ok((turn, groups))
            },
        }
    }

    /// Takes the backend's answer to this turn. A failure is passed on and
    /// changes nothing. On success, an attached history gets the turn's
    /// non-system messages in order and then the response, and the response's
    /// text is returned.
    pub fn execute_with_response(
        &mut self,
        prompt_messages: Vec<Message>,
        response: Result<Message, ApiError>,
    ) -> (r: Result<String, ApiError>)
        ensures
            match response {
                Ok(m) => r == Ok::<String, ApiError>(m.content),
                Err(e) => r == Err::<String, ApiError>(e) && *final(self) == *old(self),
            },
            final(self).history_view() == history_after(
                old(self).history_view(),
                prompt_messages@,
                response,
            ),
            old(self).memory is None ==> *final(self) == *old(self),
            final(self).prompt == old(self).prompt,
            final(self).llm == old(self).llm,
            final(self).header_prompts == old(self).header_prompts,
            final(self).sandwich_prompts == old(self).sandwich_prompts,
            final(self).memory is Some <==> old(self).memory is Some,
    {
        match response {
            Err(e) => Err(e),
            Ok(ai_response) => {
                let content = ai_response.get_content();
                match &mut self.memory {
                    Some(memory) => record_turn(memory, &prompt_messages, ai_response),
                    None => {},
                }
                Ok(content)
            },
        }
    }
}

/// Appends the turn's non-system messages, in order, and then the response.
fn record_turn(memory: &mut ChatMessageHistory, prompt_messages: &Vec<Message>, response: Message)
    ensures
        final(memory)@ == old(memory)@ + recorded(prompt_messages@, response),
{
    let ghost start = memory@;
    let ghost keep = non_system();
    let mut i: usize = 0;
    while i < prompt_messages.len()
        invariant
            i <= prompt_messages@.len(),
            keep == non_system(),
            memory@ == start + prompt_messages@.subrange(0, i as int).filter(keep),
        decreases prompt_messages@.len() - i,
    {
        let message = &prompt_messages[i];
        proof {
            lemma_filter_step(prompt_messages@, i as int, keep);
        }
        match message.get_type() {
            MessageType::System => {},
            _ => memory.add_message(message.duplicate()),
        }
        i = i + 1;
        assert(memory@ =~= start + prompt_messages@.subrange(0, i as int).filter(keep));
    }
    assert(prompt_messages@.subrange(0, i as int) =~= prompt_messages@);
    memory.add_message(response);
    assert(memory@ =~= start + recorded(prompt_messages@, response));
}

/// Filtering a prefix one element longer adds that element exactly when it is kept.
proof fn lemma_filter_step<A>(s: Seq<A>, i: int, keep: spec_fn(A) -> bool)
    requires
        0 <= i < s.len(),
    ensures
        s.subrange(0, i + 1).filter(keep) == if keep(s[i]) {
            s.subrange(0, i).filter(keep).push(s[i])
        } else {
            s.subrange(0, i).filter(keep)
        },
{
    let prefix = s.subrange(0, i + 1);
    assert(prefix.drop_last() =~= s.subrange(0, i));
    reveal(Seq::filter);
    assert(prefix.last() == s[i]);
}

/// The groups always come in the order header, history, sandwich, current turn:
/// an absent header or sandwich contributes no group at all, while the history
/// slot is always there, empty when no history is attached.
pub proof fn lemma_group_layout(
    header: Option<Seq<Message>>,
    history: Option<Seq<Message>>,
    sandwich: Option<Seq<Message>>,
    turn: Seq<Message>,
)
    ensures
        ({
            let groups = ordered_groups(header, history, sandwich, turn);
            let h: int = if header is Some { 1 } else { 0 };
            let s: int = if sandwich is Some { 1 } else { 0 };
            &&& groups.len() == 2 + h + s
            &&& header matches Some(b) ==> groups[0] == b
            &&& groups[h] == history_group(history)
            &&& history is None ==> groups[h].len() == 0
            &&& sandwich matches Some(b) ==> groups[h + 1] == b
            &&& groups.last() == turn
        }),
{
}

/// A successful exchange records exactly the turn's non-system messages, in
/// the order they came in, followed by the one response: no system message of
/// the turn is ever recorded.
pub proof fn lemma_recorded_turn(turn: Seq<Message>, response: Message)
    ensures
        recorded(turn, response).last() == response,
        recorded(turn, response).drop_last() == turn.filter(non_system()),
        forall|i: int|
            0 <= i < recorded(turn, response).len() - 1 ==> !(#[trigger] recorded(
                turn,
                response,
            )[i]).is_system() && turn.contains(recorded(turn, response)[i]),
        recorded(turn, response).len() == 1 + turn.filter(non_system()).len(),
        turn.filter(non_system()).len() <= turn.len(),
        (forall|i: int| 0 <= i < turn.len() ==> !(#[trigger] turn[i]).is_system())
            ==> recorded(turn, response) == turn.push(response),
{
    let kept = turn.filter(non_system());
    assert(recorded(turn, response).drop_last() =~= kept);
    turn.lemma_filter_len(non_system());
    assert forall|i: int| 0 <= i < kept.len() implies !(#[trigger] kept[i]).is_system()
        && turn.contains(kept[i]) by {
        turn.lemma_filter_pred(non_system(), i);
        assert(kept.contains(kept[i]));
        turn.lemma_filter_contains_rev(non_system(), kept[i]);
    }
    if forall|i: int| 0 <= i < turn.len() ==> !(#[trigger] turn[i]).is_system() {
        lemma_filter_keeps_all(turn, non_system());
    }
}

/// Filtering by a predicate that holds of every element changes nothing.
proof fn lemma_filter_keeps_all<A>(s: Seq<A>, keep: spec_fn(A) -> bool)
    requires
        forall|i: int| 0 <= i < s.len() ==> keep(#[trigger] s[i]),
    ensures
        s.filter(keep) == s,
    decreases s.len(),
{
    reveal(Seq::filter);
    if s.len() > 0 {
        let rest = s.drop_last();
        assert forall|i: int| 0 <= i < rest.len() implies keep(#[trigger] rest[i]) by {
            assert(rest[i] == s[i]);
        }
        lemma_filter_keeps_all(rest, keep);
        assert(keep(s[s.len() - 1]));
        assert(rest.push(s.last()) =~= s);
    }
}

/// Exchanges with an attached history only ever add to it: after a second
/// exchange the history extends the one after the first by exactly what the
/// second exchange added, so it is at least that much longer.
pub proof fn lemma_history_accumulates(
    history: Seq<Message>,
    turn1: Seq<Message>,
    response1: Result<Message, ApiError>,
    turn2: Seq<Message>,
    response2: Result<Message, ApiError>,
)
    ensures
        ({
            let after1 = history_after(Some(history), turn1, response1);
            let after2 = history_after(after1, turn2, response2);
            &&& after1 matches Some(h1)
            &&& after2 matches Some(h2)
            &&& h1.len() == history.len() + added_count(turn1, response1)
            &&& h2.len() == h1.len() + added_count(turn2, response2)
            &&& h2.len() >= h1.len() + added_count(turn2, response2)
            &&& h2.subrange(0, h1.len() as int) == h1
            &&& h1.subrange(0, history.len() as int) == history
        }),
{
    let h1 = history_after(Some(history), turn1, response1).unwrap();
    let h2 = history_after(Some(h1), turn2, response2).unwrap();
    assert(h1.subrange(0, history.len() as int) =~= history);
    assert(h2.subrange(0, h1.len() as int) =~= h1);
}

} // verus!

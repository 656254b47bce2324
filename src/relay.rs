use vstd::prelude::*;
use vstd::string::StringSliceAdditionalSpecFns;

use crate::ledger::{debited, TokenDispenser};
use crate::session::{
    after_exchange, answers, conversation_of, draw_below, resets, SessionView, State,
    ENGAGE_OUTCOMES,
};

verus! {

/// The instruction that opens every prompt.
pub const SYSTEM_PROMPT: &'static str = "You are a funny friend talking to a bunch of nerds";

/// The most tokens a reply of the model may take.
pub const MAX_RESPONSE_TOKENS: u64 = 120;

pub const ROLE_SYSTEM: &'static str = "system";

pub const ROLE_USER: &'static str = "user";

pub const ROLE_ASSISTANT: &'static str = "assistant";

pub const APOLOGY_OPENING: &'static str = "Sorry, but due to: ";

pub const APOLOGY_CLOSING: &'static str = ", I could not answer";

/// One message of a prompt, borrowed from the texts it is built from.
#[derive(Clone, Copy, Debug)]
pub struct MessageRef<'a, 'b> {
    pub role: &'a str,
    pub content: &'b str,
}

/// A message of the model's reply.
#[derive(Clone, Debug, Default, PartialEq, Eq)]
pub struct Message {
    pub role: String,
    pub content: String,
}

/// One of the replies the model offers.
#[derive(Clone, Debug, Default, PartialEq, Eq)]
pub struct Choice {
    pub index: u32,
    pub message: Message,
    pub finish_reason: String,
}

/// What a request cost, as the model reports it.
#[derive(Clone, Copy, Debug, Default, PartialEq, Eq)]
pub struct Usage {
    pub prompt_tokens: u32,
    pub completion_tokens: u32,
    pub total_tokens: u32,
}

/// The model's answer to a chat request.
#[derive(Clone, Debug, Default, PartialEq, Eq)]
pub struct ChatCompetitionResponse {
    pub id: String,
    pub object: String,
    pub created: u64,
    pub choices: Vec<Choice>,
    pub usage: Usage,
}

/// Why a message got no answer from the model.
#[derive(Clone, Copy, Debug, PartialEq, Eq, Structural)]
pub enum ChatError {
    /// The estimated cost is more than the ledger holds.
    InsufficientCredits,
    /// The request did not reach the model.
    RequestFailed,
    /// The model's response could not be read.
    ResponseParsingFailed,
}

/// The name of an error as the apology spells it.
pub open spec fn error_name(e: ChatError) -> Seq<char> {
    match e {
        ChatError::InsufficientCredits => "InsufficientCredits"@,
        ChatError::RequestFailed => "RequestFailed"@,
        ChatError::ResponseParsingFailed => "ResponseParsingFailed"@,
    }
}

/// The fixed apology sent for an error.
pub open spec fn apology_text(e: ChatError) -> Seq<char> {
    APOLOGY_OPENING@ + error_name(e) + APOLOGY_CLOSING@
}

impl ChatError {
    /// The name of the error.
    pub fn name(&self) -> (r: &'static str)
        ensures
            r@ == error_name(*self),
    {
        match self {
            ChatError::InsufficientCredits => "InsufficientCredits",
            ChatError::RequestFailed => "RequestFailed",
            ChatError::ResponseParsingFailed => "ResponseParsingFailed",
        }
    }

    /// The apology that tells the user why there is no answer.
    pub fn apology(&self) -> (r: String)
        ensures
            r@ == apology_text(*self),
    {
        let mut r = String::from_str(APOLOGY_OPENING);
        r.append(self.name());
        r.append(APOLOGY_CLOSING);
        r
    }
}

/// The role of the message at position `i` of a prompt: the instruction first,
/// then user and assistant in turn.
pub open spec fn role_at(i: int) -> Seq<char> {
    if i == 0 {
        ROLE_SYSTEM@
    } else if i % 2 == 1 {
        ROLE_USER@
    } else {
        ROLE_ASSISTANT@
    }
}

/// The texts of a prompt: the instruction, the conversation, the new message.
pub open spec fn prompt_texts(
    instruction: Seq<char>,
    history: Seq<Seq<char>>,
    text: Seq<char>,
) -> Seq<Seq<char>> {
    seq![instruction] + history + seq![text]
}

/// The texts of the messages of a prompt.
pub open spec fn contents_of(messages: Seq<MessageRef>) -> Seq<Seq<char>> {
    messages.map_values(|m: MessageRef| m.content@)
}

/// The estimated cost of one text: a token for every four bytes of its UTF-8
/// encoding, rounded down.
pub open spec fn text_cost(text: Seq<char>) -> int {
    vstd::utf8::encode_utf8(text).len() as int / 4
}

/// The estimated cost of all texts of a prompt.
pub open spec fn prompt_cost(texts: Seq<Seq<char>>) -> int
    decreases texts.len(),
{
    if texts.len() == 0 {
        0
    } else {
        prompt_cost(texts.drop_last()) + text_cost(texts.last())
    }
}

/// `x`, or the largest `u64` where `x` is larger.
pub open spec fn capped(x: int) -> int {
    if x <= u64::MAX {
        x
    } else {
        u64::MAX as int
    }
}

/// The estimated cost of a request: the reply's bound plus the prompt's cost.
pub open spec fn estimate(texts: Seq<Seq<char>>, max_response_tokens: int) -> int {
    capped(max_response_tokens + prompt_cost(texts))
}

/// Builds the prompt for `prompt` after `conversation_history`, opened by
/// `initial_prompt`, with each message's role given by its position.
pub fn build_prompt<'a>(
    initial_prompt: &'a str,
    conversation_history: &'a Vec<String>,
    prompt: &'a str,
) -> (r: Vec<MessageRef<'a, 'a>>)
    ensures
        r@.len() == conversation_history@.len() + 2,
        forall|i: int| 0 <= i < r@.len() ==> #[trigger] r@[i].role@ == role_at(i),
        contents_of(r@) == prompt_texts(
            initial_prompt@,
            conversation_history.deep_view(),
            prompt@,
        ),
{
    let ghost texts = prompt_texts(initial_prompt@, conversation_history.deep_view(), prompt@);
    let mut r: Vec<MessageRef<'a, 'a>> = Vec::new();
    r.push(MessageRef { role: ROLE_SYSTEM, content: initial_prompt });
    let n = conversation_history.len();
    let mut i: usize = 0;
    while i < n
        invariant
            n == conversation_history@.len(),
            i <= n,
            texts == prompt_texts(initial_prompt@, conversation_history.deep_view(), prompt@),
            r@.len() == i + 1,
            forall|j: int| 0 <= j < r@.len() ==> #[trigger] r@[j].role@ == role_at(j),
            forall|j: int| 0 <= j < r@.len() ==> #[trigger] r@[j].content@ == texts[j],
        decreases n - i,
    {
        let role = if i % 2 == 0 {
            ROLE_USER
        } else {
            ROLE_ASSISTANT
        };
        r.push(MessageRef { role, content: conversation_history[i].as_str() });
        i = i + 1;
    }
    let role = if n % 2 == 0 {
        ROLE_USER
    } else {
        ROLE_ASSISTANT
    };
    r.push(MessageRef { role, content: prompt });
    assert(contents_of(r@) =~= texts);
    r
}

/// Estimates what a request with `messages` costs, at most `u64::MAX`.
pub fn estimate_cost(messages: &Vec<MessageRef>, max_response_tokens: u64) -> (r: u64)
    ensures
        r == estimate(contents_of(messages@), max_response_tokens as int),
{
    let ghost texts = contents_of(messages@);
    let mut acc: u64 = max_response_tokens;
    let mut i: usize = 0;
    while i < messages.len()
        invariant
            i <= messages@.len(),
            texts == contents_of(messages@),
            acc == estimate(texts.take(i as int), max_response_tokens as int),
        decreases messages.len() - i,
    {
        let bytes = messages[i].content.as_bytes().len();
        let cost = (bytes / 4) as u64;
        proof {
            assert(texts.take(i + 1).drop_last() =~= texts.take(i as int));
            assert(texts[i as int] == messages@[i as int].content@);
        }
        acc = acc.saturating_add(cost);
        i = i + 1;
    }
    assert(texts.take(i as int) =~= texts);
    acc
}

/// The model of a plan.
pub enum PlanView {
    Silent,
    Refuse(Seq<char>),
    Consult(Seq<Seq<char>>, nat),
}

/// What to do about an inbound message once the session has decided.
#[derive(Debug, PartialEq, Eq)]
pub enum Plan {
    /// Send nothing.
    Silent,
    /// Send this text and stop.
    Refuse(String),
    /// Ask the model, with the conversation so far, at this estimated cost.
    Consult { history: Vec<String>, estimate: u64 },
}

impl View for Plan {
    type V = PlanView;

    open spec fn view(&self) -> PlanView {
        match self {
            Plan::Silent => PlanView::Silent,
            Plan::Refuse(text) => PlanView::Refuse(text@),
            Plan::Consult { history, estimate } => PlanView::Consult(
                history.deep_view(),
                *estimate as nat,
            ),
        }
    }
}

/// The estimated cost of answering `text` after `history`.
pub open spec fn reply_estimate(history: Seq<Seq<char>>, text: Seq<char>) -> int {
    estimate(prompt_texts(SYSTEM_PROMPT@, history, text), MAX_RESPONSE_TOKENS as int)
}

/// The plan for a message `text` that finds the session in `s` and the ledger at
/// `credits`, with the draw `draw`.
pub open spec fn plan_of(s: SessionView, credits: nat, text: Seq<char>, draw: u32) -> PlanView {
    if !answers(s, draw) {
        PlanView::Silent
    } else {
        let cost = reply_estimate(conversation_of(s), text);
        if credits >= cost {
            PlanView::Consult(conversation_of(s), cost as nat)
        } else {
            PlanView::Refuse(apology_text(ChatError::InsufficientCredits))
        }
    }
}

/// Decides what to do about the message `text`, given the draw `draw` that an
/// idle session engages on. The session changes only where the message finds
/// the conversation full (it then becomes idle); the ledger is only read.
pub fn handle_message_with_draw(
    state: &mut State,
    ledger: &TokenDispenser,
    text: &str,
    draw: u32,
) -> (plan: Plan)
    ensures
        plan@ == plan_of(old(state)@, ledger@, text@, draw),
        resets(old(state)@) ==> final(state)@ is Idle,
        !resets(old(state)@) ==> *final(state) == *old(state),
{
    let history = match state.on_message(draw) {
        None => return Plan::Silent,
        Some(history) => history,
    };
    let messages = build_prompt(SYSTEM_PROMPT, &history, text);
    let cost = estimate_cost(&messages, MAX_RESPONSE_TOKENS);
    if ledger.is_deductible(cost) {
        Plan::Consult { history, estimate: cost }
    } else {
        Plan::Refuse(ChatError::InsufficientCredits.apology())
    }
}

/// Decides what to do about the message `text`, drawing whether an idle session
/// engages.
pub fn handle_message(state: &mut State, ledger: &TokenDispenser, text: &str) -> (plan: Plan)
    ensures
        exists|draw: u32|
            draw < ENGAGE_OUTCOMES && plan@ == #[trigger] plan_of(
                old(state)@,
                ledger@,
                text@,
                draw,
            ),
        resets(old(state)@) ==> final(state)@ is Idle,
        !resets(old(state)@) ==> *final(state) == *old(state),
{
    let draw = draw_below(ENGAGE_OUTCOMES);
    let plan = handle_message_with_draw(state, ledger, text, draw);
    assert(draw < ENGAGE_OUTCOMES && plan@ == plan_of(old(state)@, ledger@, text@, draw));
    plan
}

/// The reply text and the reported cost in a response, where it holds a reply.
pub open spec fn answer_of(response: ChatCompetitionResponse) -> Option<(Seq<char>, nat)> {
    if response.choices@.len() > 0 {
        Some((response.choices@[0].message.content@, response.usage.total_tokens as nat))
    } else {
        None
    }
}

/// The reply text and the reported cost in an outcome, where it holds a reply.
pub open spec fn outcome_answer(outcome: Result<ChatCompetitionResponse, ChatError>) -> Option<
    (Seq<char>, nat),
> {
    match outcome {
        Ok(response) => answer_of(response),
        Err(_) => None,
    }
}

/// The error to apologise for where an outcome holds no reply.
pub open spec fn outcome_error(outcome: Result<ChatCompetitionResponse, ChatError>) -> ChatError {
    match outcome {
        Ok(_) => ChatError::ResponseParsingFailed,
        Err(e) => e,
    }
}

/// Finishes a consulted message with what the model gave. A reply is
/// remembered with `text` in the session, its reported cost is debited, and it
/// is returned to be sent. Otherwise the session and the ledger stay exactly as
/// they were and the apology is returned.
pub fn complete_reply(
    state: &mut State,
    ledger: &mut TokenDispenser,
    text: &str,
    outcome: Result<ChatCompetitionResponse, ChatError>,
) -> (reply: String)
    requires
        outcome_answer(outcome) is Some ==> old(ledger)@ > 0,
    ensures
        match outcome_answer(outcome) {
            Some((answer, cost)) => {
                &&& final(state)@ == after_exchange(old(state)@, text@, answer)
                &&& final(ledger)@ == debited(old(ledger)@ as int, cost as int)
                &&& reply@ == answer
            },
            None => {
                &&& *final(state) == *old(state)
                &&& *final(ledger) == *old(ledger)
                &&& reply@ == apology_text(outcome_error(outcome))
            },
        },
{
    match outcome {
        Ok(response) => {
            if response.choices.len() == 0 {
                return ChatError::ResponseParsingFailed.apology();
            }
            let answer = response.choices[0].message.content.clone();
            let reply = answer.clone();
            state.record_exchange(String::from_str(text), answer);
            ledger.subtract_credits(response.usage.total_tokens as u64);
            reply
        },
        Err(e) => e.apology(),
    }
}

proof fn lemma_prompt_cost_nonnegative(texts: Seq<Seq<char>>)
    ensures
        prompt_cost(texts) >= 0,
    decreases texts.len(),
{
    if texts.len() > 0 {
        lemma_prompt_cost_nonnegative(texts.drop_last());
    }
}

/// A message is sent to the model only where the ledger holds at least the
/// reply's bound, so the debit that follows finds the balance not exhausted and
/// leaves it non-negative.
pub proof fn lemma_consulted_ledger_can_be_debited(
    s: SessionView,
    credits: nat,
    text: Seq<char>,
    draw: u32,
    cost: nat,
)
    requires
        plan_of(s, credits, text, draw) is Consult,
    ensures
        credits >= MAX_RESPONSE_TOKENS,
        credits > 0,
        debited(credits as int, cost as int) >= 0,
{
    lemma_prompt_cost_nonnegative(prompt_texts(SYSTEM_PROMPT@, conversation_of(s), text));
}

/// The estimate is a function of the prompt's texts and the reply's bound alone:
/// prompts with the same texts cost the same, whatever their roles.
pub proof fn lemma_estimate_depends_on_texts(
    a: Seq<MessageRef>,
    b: Seq<MessageRef>,
    max_response_tokens: int,
)
    requires
        a.len() == b.len(),
        forall|i: int| 0 <= i < a.len() ==> #[trigger] a[i].content@ == b[i].content@,
    ensures
        estimate(contents_of(a), max_response_tokens) == estimate(
            contents_of(b),
            max_response_tokens,
        ),
{
    assert(contents_of(a) =~= contents_of(b));
}

} // verus!

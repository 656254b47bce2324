use vstd::prelude::*;

verus! {

/// The most messages a conversation holds; a message that finds it full resets
/// the session instead of being answered.
pub const CONVERSATION_CEILING: usize = 10;

/// An idle session draws uniformly among this many outcomes for each message.
pub const ENGAGE_OUTCOMES: u32 = 10;

/// The one outcome of the draw that makes an idle session engage.
pub const ENGAGE_OUTCOME: u32 = 7;

/// Reply to an explicit start command.
pub const GREETING: &'static str = "At your service master!";

/// Reply to an explicit stop command that ends a conversation.
pub const FAREWELL: &'static str = "Ok I will shut up";

/// The state of one chat: idle, or engaged with the messages exchanged so far
/// (user and assistant in turn, the user first).
#[derive(Clone, Debug, PartialEq, Eq)]
pub enum State {
    Start,
    CurrentlyAnswering { conversation: Vec<String> },
}

/// The model of a session: idle, or engaged with the texts of its conversation.
pub enum SessionView {
    Idle,
    Engaged(Seq<Seq<char>>),
}

impl View for State {
    type V = SessionView;

    open spec fn view(&self) -> SessionView {
        match self {
            State::Start => SessionView::Idle,
            State::CurrentlyAnswering { conversation } => SessionView::Engaged(
                conversation.deep_view(),
            ),
        }
    }
}

impl Default for State {
    fn default() -> (r: State)
        ensures
            r@ == SessionView::Idle,
    {
        State::Start
    }
}

/// The conversation a session remembers; an idle session remembers none.
pub open spec fn conversation_of(s: SessionView) -> Seq<Seq<char>> {
    match s {
        SessionView::Idle => Seq::empty(),
        SessionView::Engaged(c) => c,
    }
}

/// Whether a message that arrives in `s` with the draw `draw` is answered.
pub open spec fn answers(s: SessionView, draw: u32) -> bool {
    match s {
        SessionView::Idle => draw == ENGAGE_OUTCOME,
        SessionView::Engaged(c) => c.len() < CONVERSATION_CEILING,
    }
}

/// Whether a message that arrives in `s` ends the conversation unanswered.
pub open spec fn resets(s: SessionView) -> bool {
    match s {
        SessionView::Idle => false,
        SessionView::Engaged(c) => c.len() >= CONVERSATION_CEILING,
    }
}

/// The session once an answered message and its reply are remembered.
pub open spec fn after_exchange(s: SessionView, text: Seq<char>, reply: Seq<char>) -> SessionView {
    SessionView::Engaged(conversation_of(s) + seq![text, reply])
}

/// Whether a session is one that the transitions can reach from idle: its
/// conversation holds whole exchanges and stays within the ceiling.
pub open spec fn well_kept(s: SessionView) -> bool {
    match s {
        SessionView::Idle => true,
        SessionView::Engaged(c) => c.len() <= CONVERSATION_CEILING && c.len() % 2 == 0,
    }
}

/// Relies on `rand::Rng::gen_range` on the thread-local generator: for a
/// non-empty range it returns a value inside it.
#[verifier::external_body]
pub(crate) fn draw_below(bound: u32) -> (r: u32)
    requires
        bound > 0,
    ensures
        r < bound,
{
    rand::Rng::gen_range(&mut rand::thread_rng(), 0..bound)
}

impl State {
    /// Explicit start command: the session engages with an empty conversation.
    pub fn start(&mut self) -> (greeting: String)
        ensures
            final(self)@ == SessionView::Engaged(Seq::empty()),
            greeting@ == GREETING@,
    {
        *self = State::CurrentlyAnswering { conversation: Vec::new() };
        proof {
            assert(self@ == SessionView::Engaged(Seq::<Seq<char>>::empty())) by {
                assert(conversation_of(self@) =~= Seq::<Seq<char>>::empty());
            }
        }
        String::from_str(GREETING)
    }

    /// Explicit stop command: an engaged session forgets its conversation and
    /// says goodbye; an idle one stays as it is and says nothing.
    pub fn stop(&mut self) -> (farewell: Option<String>)
        ensures
            final(self)@ is Idle,
            old(self)@ is Idle ==> farewell is None && *final(self) == *old(self),
            old(self)@ is Engaged ==> farewell is Some && farewell->Some_0@ == FAREWELL@,
    {
        match self {
            State::Start => None,
            State::CurrentlyAnswering { .. } => {
                *self = State::Start;
                Some(String::from_str(FAREWELL))
            },
        }
    }

    /// Decides what an inbound message does. Where it is answered, returns the
    /// conversation so far and leaves the session as it is: the exchange is
    /// remembered only once the reply has come (`record_exchange`). A message that
    /// finds the conversation full makes the session idle and is not answered.
    pub fn on_message(&mut self, draw: u32) -> (history: Option<Vec<String>>)
        ensures
            history is Some <==> answers(old(self)@, draw),
            history is Some ==> history->Some_0.deep_view() == conversation_of(old(self)@),
            resets(old(self)@) ==> final(self)@ is Idle,
            !resets(old(self)@) ==> *final(self) == *old(self),
    {
        match self {
            State::Start => {
                if draw == ENGAGE_OUTCOME {
                    let history: Vec<String> = Vec::new();
                    assert(history.deep_view() =~= Seq::<Seq<char>>::empty());
                    Some(history)
                } else {
                    None
                }
            },
            State::CurrentlyAnswering { conversation } => {
                if conversation.len() < CONVERSATION_CEILING {
                    let history = conversation.clone();
                    assert(history.deep_view() =~= conversation.deep_view());
                    Some(history)
                } else {
                    *self = State::Start;
                    None
                }
            },
        }
    }

    /// Remembers an answered message and its reply: the session is engaged with
    /// its conversation followed by the two.
    pub fn record_exchange(&mut self, text: String, reply: String)
        ensures
            final(self)@ == after_exchange(old(self)@, text@, reply@),
    {
        let mut conversation = match self {
            State::Start => Vec::new(),
            State::CurrentlyAnswering { conversation } => conversation.clone(),
        };
        let ghost before = conversation.deep_view();
        assert(before =~= conversation_of(old(self)@));
        conversation.push(text);
        conversation.push(reply);
        assert(conversation.deep_view() =~= before + seq![text@, reply@]);
        *self = State::CurrentlyAnswering { conversation };
    }

    /// The number of messages the session remembers.
    pub fn conversation_len(&self) -> (r: usize)
        ensures
            r == conversation_of(self@).len(),
    {
        match self {
            State::Start => 0,
            State::CurrentlyAnswering { conversation } => conversation.len(),
        }
    }

    /// Whether the session is idle.
    pub fn is_idle(&self) -> (r: bool)
        ensures
            r == (self@ is Idle),
    {
        match self {
            State::Start => true,
            State::CurrentlyAnswering { .. } => false,
        }
    }
}

/// Every transition keeps a session within the ceiling and made of whole
/// exchanges: a start or a stop leaves an empty conversation or none, an
/// answered message adds one exchange to a conversation below the ceiling, and a
/// message that finds the conversation at the ceiling is not answered but makes
/// the session idle.
pub proof fn lemma_ceiling_kept(s: SessionView, draw: u32, text: Seq<char>, reply: Seq<char>)
    requires
        well_kept(s),
    ensures
        well_kept(SessionView::Engaged(Seq::empty())),
        well_kept(SessionView::Idle),
        answers(s, draw) ==> well_kept(after_exchange(s, text, reply)),
        conversation_of(s).len() == CONVERSATION_CEILING ==> resets(s) && !answers(s, draw),
{
}

} // verus!

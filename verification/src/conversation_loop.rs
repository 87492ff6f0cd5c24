//! The decisions of one conversation's loop, as a state machine.
//!
//! The loop owns one agent connection. It sends `initialize`, creates one
//! session, signals that the conversation is ready, and then serves prompts
//! from its command channel one turn at a time until the channel closes. The
//! caller performs each action (a request to the agent, a signal, a reply)
//! and feeds back what came of it as the next event; every decision is made
//! by `ConversationLoop::step`.
//!
//! `R` is the channel on which a prompt's answer goes back, `J` what the
//! agent said of itself at `initialize`, and `E` the error of a failed
//! handshake request, which ends the loop.
use vstd::prelude::*;

use crate::stop_reason::{stop_reason_name, stop_reason_string, StopReason};

verus! {

/// A command sent into a live conversation.
pub enum ConversationCommand<R> {
    /// Send `text` as a prompt and answer on `reply` once the turn ends.
    Prompt { text: String, reply: R },
}

/// Where a conversation's loop stands.
pub enum LoopState<R, J> {
    /// `initialize` was sent; its answer is awaited.
    Initializing,
    /// The session is being created.
    CreatingSession { agent_info: J },
    /// Ready, waiting for the next command.
    Idle { session_id: String },
    /// A prompt was sent; its turn is running and `reply` awaits the answer.
    InTurn { session_id: String, reply: R },
    /// The loop has ended.
    Done,
}

/// What came of the loop's last action.
pub enum LoopEvent<R, J, E> {
    /// The answer to `initialize`, serialized for the UI, or the error.
    Initialized(Result<J, E>),
    /// The id of the new session, or the error.
    SessionCreated(Result<String, E>),
    /// The next command, or `None` where every sender is gone.
    Command(Option<ConversationCommand<R>>),
    /// How the running turn ended: its stop reason, or the error's message.
    TurnEnded(Result<StopReason, String>),
}

/// What the loop does next.
pub enum LoopAction<R, J, E> {
    /// Send the request that creates the session in the working directory.
    CreateSession,
    /// Tell the starter that the conversation is ready, then wait for a command.
    SignalReady { session_id: String, agent_info: J },
    /// Send `text` as a prompt into the session.
    SendPrompt { session_id: String, text: String },
    /// Answer the prompt on `reply`, then wait for the next command.
    Reply { reply: R, result: Result<String, String> },
    /// End the loop with this result, which closes the connection.
    Finish(Result<(), E>),
}

/// Whether the loop in state `s` waits for an event of `e`'s kind.
pub open spec fn awaits<R, J, E>(s: LoopState<R, J>, e: LoopEvent<R, J, E>) -> bool {
    match s {
        LoopState::Initializing => e is Initialized,
        LoopState::CreatingSession { .. } => e is SessionCreated,
        LoopState::Idle { .. } => e is Command,
        LoopState::InTurn { .. } => e is TurnEnded,
        LoopState::Done => false,
    }
}

/// One step of the loop: from state `s`, event `e` leads to state `s2` and
/// action `a`.
pub open spec fn steps_to<R, J, E>(
    s: LoopState<R, J>,
    e: LoopEvent<R, J, E>,
    s2: LoopState<R, J>,
    a: LoopAction<R, J, E>,
) -> bool {
    match (s, e) {
        (LoopState::Initializing, LoopEvent::Initialized(Ok(agent_info))) => {
            &&& s2 == LoopState::<R, J>::CreatingSession { agent_info }
            &&& a == LoopAction::<R, J, E>::CreateSession
        },
        (LoopState::CreatingSession { agent_info }, LoopEvent::SessionCreated(Ok(session_id))) => {
            &&& s2 == LoopState::<R, J>::Idle { session_id }
            &&& a == LoopAction::<R, J, E>::SignalReady { session_id, agent_info }
        },
        (LoopState::Initializing, LoopEvent::Initialized(Err(err))) => {
            &&& s2 == LoopState::<R, J>::Done
            &&& a == LoopAction::<R, J, E>::Finish(Err(err))
        },
        (LoopState::CreatingSession { .. }, LoopEvent::SessionCreated(Err(err))) => {
            &&& s2 == LoopState::<R, J>::Done
            &&& a == LoopAction::<R, J, E>::Finish(Err(err))
        },
        (
            LoopState::Idle { session_id },
            LoopEvent::Command(Some(ConversationCommand::Prompt { text, reply })),
        ) => {
            &&& s2 == LoopState::<R, J>::InTurn { session_id, reply }
            &&& a == LoopAction::<R, J, E>::SendPrompt { session_id, text }
        },
        (LoopState::Idle { .. }, LoopEvent::Command(None)) => {
            &&& s2 == LoopState::<R, J>::Done
            &&& a == LoopAction::<R, J, E>::Finish(Ok(()))
        },
        (LoopState::InTurn { session_id, reply }, LoopEvent::TurnEnded(outcome)) => {
            &&& s2 == LoopState::<R, J>::Idle { session_id }
            &&& a matches LoopAction::Reply { reply: r, result } && r == reply && match outcome {
                Ok(reason) => result matches Ok(text) && text@ == stop_reason_name(reason),
                Err(message) => result == Err::<String, String>(message),
            }
        },
        _ => false,
    }
}

/// One conversation's loop.
pub struct ConversationLoop<R, J> {
    pub state: LoopState<R, J>,
}

impl<R, J> ConversationLoop<R, J> {
    /// A loop that has just sent `initialize`.
    pub fn new() -> (l: Self)
        ensures
            l.state == LoopState::<R, J>::Initializing,
    {
        ConversationLoop { state: LoopState::Initializing }
    }

    /// Whether the loop has ended.
    pub fn is_done(&self) -> (b: bool)
        ensures
            b == (self.state is Done),
    {
        match self.state {
            LoopState::Done => true,
            _ => false,
        }
    }

    /// Takes the event that the last action led to, moves to the next state
    /// and says what to do next. A failed handshake request ends the loop with
    /// its error; a closed command channel ends it cleanly; each prompt is
    /// sent into the session created at the handshake, and its turn's stop
    /// reason (or error) answers the prompt on the reply channel it came with.
    pub fn step<E>(&mut self, event: LoopEvent<R, J, E>) -> (a: LoopAction<R, J, E>)
        requires
            awaits(old(self).state, event),
        ensures
            steps_to(old(self).state, event, final(self).state, a),
    {
        let mut state = LoopState::Done;
        std::mem::swap(&mut state, &mut self.state);
        match (state, event) {
            (LoopState::Initializing, LoopEvent::Initialized(Ok(agent_info))) => {
                self.state = LoopState::CreatingSession { agent_info };
                LoopAction::CreateSession
            },
            (LoopState::Initializing, LoopEvent::Initialized(Err(err))) => {
                LoopAction::Finish(Err(err))
            },
            (
                LoopState::CreatingSession { agent_info },
                LoopEvent::SessionCreated(Ok(session_id)),
            ) => {
                self.state = LoopState::Idle { session_id: session_id.clone() };
                LoopAction::SignalReady { session_id, agent_info }
            },
            (LoopState::CreatingSession { .. }, LoopEvent::SessionCreated(Err(err))) => {
                LoopAction::Finish(Err(err))
            },
            (LoopState::Idle { session_id }, LoopEvent::Command(Some(command))) => {
                match command {
                    ConversationCommand::Prompt { text, reply } => {
                        self.state = LoopState::InTurn { session_id: session_id.clone(), reply };
                        LoopAction::SendPrompt { session_id, text }
                    },
                }
            },
            (LoopState::Idle { .. }, LoopEvent::Command(None)) => LoopAction::Finish(Ok(())),
            (LoopState::InTurn { session_id, reply }, LoopEvent::TurnEnded(outcome)) => {
                self.state = LoopState::Idle { session_id };
                let result = match outcome {
                    Ok(reason) => Ok(stop_reason_string(&reason)),
                    Err(message) => Err(message),
                };
                LoopAction::Reply { reply, result }
            },
            (LoopState::Initializing, _) => {
                proof {
                    assert(false);
                }
                LoopAction::CreateSession
            },
            (LoopState::CreatingSession { .. }, _) => {
                proof {
                    assert(false);
                }
                LoopAction::CreateSession
            },
            (LoopState::Idle { .. }, _) => {
                proof {
                    assert(false);
                }
                LoopAction::CreateSession
            },
            (LoopState::InTurn { .. }, _) => {
                proof {
                    assert(false);
                }
                LoopAction::CreateSession
            },
            (LoopState::Done, _) => {
                proof {
                    assert(false);
                }
                LoopAction::CreateSession
            },
        }
    }
}

/// The session a state serves, where it has one.
pub open spec fn session_of<R, J>(s: LoopState<R, J>) -> Option<Seq<char>> {
    match s {
        LoopState::Idle { session_id } => Some(session_id@),
        LoopState::InTurn { session_id, .. } => Some(session_id@),
        _ => None,
    }
}

/// A run of the loop from its start: `states[0]` is `Initializing`, and
/// `events[i]` takes `states[i]` to `states[i + 1]` with `actions[i]`.
pub open spec fn is_run<R, J, E>(
    states: Seq<LoopState<R, J>>,
    events: Seq<LoopEvent<R, J, E>>,
    actions: Seq<LoopAction<R, J, E>>,
) -> bool {
    &&& states.len() == events.len() + 1
    &&& actions.len() == events.len()
    &&& states[0] == LoopState::<R, J>::Initializing
    &&& forall|i: int|
        0 <= i < events.len() ==> #[trigger] steps_to(states[i], events[i], states[i + 1], actions[i])
}

/// Whether `a` signals the conversation ready with session `session`.
pub open spec fn signals_ready_with<R, J, E>(a: LoopAction<R, J, E>, session: Seq<char>) -> bool {
    a matches LoopAction::SignalReady { session_id, .. } && session_id@ == session
}

/// Whether, among the first `k` actions, the conversation was signalled ready
/// with session `session`.
pub open spec fn ready_before<R, J, E>(
    actions: Seq<LoopAction<R, J, E>>,
    k: int,
    session: Seq<char>,
) -> bool {
    exists|j: int| 0 <= j < k && #[trigger] signals_ready_with(actions[j], session)
}

proof fn lemma_session_was_signalled<R, J, E>(
    states: Seq<LoopState<R, J>>,
    events: Seq<LoopEvent<R, J, E>>,
    actions: Seq<LoopAction<R, J, E>>,
    k: int,
)
    requires
        is_run(states, events, actions),
        0 <= k < states.len(),
    ensures
        session_of(states[k]) matches Some(session) ==> ready_before(actions, k, session),
    decreases k,
{
    if k > 0 {
        lemma_session_was_signalled(states, events, actions, k - 1);
        let j = k - 1;
        assert(steps_to(states[j], events[j], states[j + 1], actions[j]));
        assert(states[j + 1] == states[k]);
        if session_of(states[k]) is Some {
            let session = session_of(states[k])->0;
            if session_of(states[k - 1]) is Some {
                assert(session_of(states[k - 1]) == Some(session));
                let j = choose|j: int| 0 <= j < k - 1 && #[trigger] signals_ready_with(actions[j], session);
                assert(signals_ready_with(actions[j], session));
            } else {
                assert(signals_ready_with(actions[k - 1], session));
            }
        }
    }
}

/// A conversation sends every prompt into the session it signalled ready
/// with: no prompt goes out before the ready signal, and none into another
/// session.
pub proof fn lemma_prompts_follow_ready<R, J, E>(
    states: Seq<LoopState<R, J>>,
    events: Seq<LoopEvent<R, J, E>>,
    actions: Seq<LoopAction<R, J, E>>,
    i: int,
)
    requires
        is_run(states, events, actions),
        0 <= i < actions.len(),
    ensures
        actions[i] matches LoopAction::SendPrompt { session_id, .. } ==> ready_before(
            actions,
            i,
            session_id@,
        ),
{
    lemma_session_was_signalled(states, events, actions, i);
    assert(steps_to(states[i], events[i], states[i + 1], actions[i]));
}

/// A conversation is signalled ready at most once, and always with the one
/// session it created: once a state serves a session, every later state
/// serves the same session or the loop has ended.
pub proof fn lemma_session_is_fixed<R, J, E>(
    states: Seq<LoopState<R, J>>,
    events: Seq<LoopEvent<R, J, E>>,
    actions: Seq<LoopAction<R, J, E>>,
    i: int,
    k: int,
)
    requires
        is_run(states, events, actions),
        0 <= i <= k < states.len(),
        session_of(states[i]) is Some,
    ensures
        session_of(states[k]) == session_of(states[i]) || states[k] is Done,
        forall|j: int| i <= j < k ==> !(#[trigger] actions[j] is SignalReady),
    decreases k - i,
{
    if k > i {
        lemma_session_is_fixed(states, events, actions, i, k - 1);
        let j = k - 1;
        assert(steps_to(states[j], events[j], states[j + 1], actions[j]));
        assert(states[j + 1] == states[k]);
        if states[k - 1] is Done {
            assert(false);
        }
    }
}

/// Commands are served one at a time and in the order they come: a prompt
/// command is sent as a prompt into the session at once, and the very next
/// action answers it, exactly once, on the reply channel it came with.
pub proof fn lemma_prompt_is_answered_next<R, J, E>(
    states: Seq<LoopState<R, J>>,
    events: Seq<LoopEvent<R, J, E>>,
    actions: Seq<LoopAction<R, J, E>>,
    i: int,
)
    requires
        is_run(states, events, actions),
        0 <= i,
        i + 1 < events.len(),
        events[i] is Command,
    ensures
        match events[i] {
            LoopEvent::Command(Some(ConversationCommand::Prompt { text, reply })) => {
                &&& actions[i] matches LoopAction::SendPrompt { text: t, .. } && t == text
                &&& actions[i + 1] matches LoopAction::Reply { reply: r, .. } && r == reply
            },
            _ => true,
        },
{
    assert(steps_to(states[i], events[i], states[i + 1], actions[i]));
    let k = i + 1;
    assert(steps_to(states[k], events[k], states[k + 1], actions[k]));
}

/// Every answer goes to the prompt just before it: an answer is only ever
/// given right after a prompt command, on that command's reply channel.
pub proof fn lemma_reply_answers_previous_prompt<R, J, E>(
    states: Seq<LoopState<R, J>>,
    events: Seq<LoopEvent<R, J, E>>,
    actions: Seq<LoopAction<R, J, E>>,
    j: int,
)
    requires
        is_run(states, events, actions),
        0 <= j < actions.len(),
        actions[j] is Reply,
    ensures
        j > 0,
        match (events[j - 1], actions[j]) {
            (
                LoopEvent::Command(Some(ConversationCommand::Prompt { reply, .. })),
                LoopAction::Reply { reply: r, .. },
            ) => r == reply,
            _ => false,
        },
{
    assert(steps_to(states[j], events[j], states[j + 1], actions[j]));
    if j == 0 {
        assert(false);
    }
    let i = j - 1;
    assert(steps_to(states[i], events[i], states[i + 1], actions[i]));
    assert(states[i + 1] == states[j]);
}

/// The answer to a turn names that turn's own stop reason: when a running
/// turn ends with a stop reason, the prompt is answered with the protocol's
/// wire name of exactly that reason.
pub proof fn lemma_turn_answer_names_its_reason<R, J, E>(
    s: LoopState<R, J>,
    reason: StopReason,
    s2: LoopState<R, J>,
    a: LoopAction<R, J, E>,
)
    requires
        s is InTurn,
        steps_to(s, LoopEvent::<R, J, E>::TurnEnded(Ok(reason)), s2, a),
    ensures
        a matches LoopAction::Reply { result: Ok(text), .. } && text@ == stop_reason_name(reason),
{
}

/// Turns that end for different reasons are answered differently: the
/// answer tells the stop reasons apart.
pub proof fn lemma_distinct_reasons_distinct_answers<R, J, E>(
    s: LoopState<R, J>,
    r1: StopReason,
    r2: StopReason,
    s1: LoopState<R, J>,
    a1: LoopAction<R, J, E>,
    s2: LoopState<R, J>,
    a2: LoopAction<R, J, E>,
)
    requires
        s is InTurn,
        steps_to(s, LoopEvent::<R, J, E>::TurnEnded(Ok(r1)), s1, a1),
        steps_to(s, LoopEvent::<R, J, E>::TurnEnded(Ok(r2)), s2, a2),
        r1 != r2,
    ensures
        match (a1, a2) {
            (LoopAction::Reply { result: Ok(t1), .. }, LoopAction::Reply { result: Ok(t2), .. }) => t1@
                != t2@,
            _ => false,
        },
{
    crate::stop_reason::lemma_stop_reason_names_distinct(r1, r2);
}

} // verus!

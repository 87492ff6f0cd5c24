//! The registry of live agent conversations, and the decisions that the
//! start, prompt and close commands make around the agent I/O.
//!
//! A conversation is known by its id `conversation-<n>`, where `n` counts up
//! from zero as conversations start. The registry keys its live
//! conversations by `n`; an id names an entry only in the form that
//! `conversation_id_text` writes.
use vstd::prelude::*;

use std::collections::HashMap;

use agent_client_protocol::AcpAgent;

use crate::text::{
    decimal, decimal_text, digits_value, is_canonical_decimal, is_digit, lemma_canonical_decimal_unique,
    lemma_decimal, trim_text, trimmed, all_digits, digit_value, is_space, lemma_trimmed_is_solid,
    lemma_trimmed_idempotent,
};

verus! {

broadcast use vstd::std_specs::hash::group_hash_axioms;

/// The prefix of every conversation id.
pub open spec fn conversation_prefix() -> Seq<char> {
    seq!['c', 'o', 'n', 'v', 'e', 'r', 's', 'a', 't', 'i', 'o', 'n', '-']
}

/// The id of the conversation numbered `n`.
pub open spec fn conversation_id(n: nat) -> Seq<char> {
    conversation_prefix() + decimal(n)
}

/// The number of the conversation that the id `s` names: `s` must be the
/// prefix followed by a canonical decimal numeral of a `u64`.
pub open spec fn conversation_number_of(s: Seq<char>) -> Option<u64> {
    let digits = s.skip(13);
    if s.len() > 13 && s.take(13) == conversation_prefix() && is_canonical_decimal(digits)
        && digits_value(digits) <= u64::MAX {
        Some(digits_value(digits) as u64)
    } else {
        None
    }
}

/// The number that follows `n` in the conversation counter, which wraps to
/// zero after the largest `u64`.
pub open spec fn next_number(n: u64) -> u64 {
    if n == u64::MAX {
        0
    } else {
        (n + 1) as u64
    }
}

/// The live conversation that the id `id` names in `live`.
pub open spec fn lookup_conversation<H>(live: Map<u64, H>, id: Seq<char>) -> Option<H> {
    match conversation_number_of(id) {
        Some(n) => if live.contains_key(n) {
            Some(live[n])
        } else {
            None
        },
        None => None,
    }
}

/// The id of the conversation numbered `n`.
pub fn conversation_id_text(n: u64) -> (s: String)
    ensures
        s@ == conversation_id(n as nat),
{
    let prefix = "conversation-";
    proof {
        reveal_strlit("conversation-");
    }
    let digits = decimal_text(n);
    let s = String::from_str(prefix).concat(digits.as_str());
    assert(s@ =~= conversation_id(n as nat));
    s
}

proof fn lemma_digits_value_prefix(d: Seq<char>, k: int)
    requires
        0 <= k <= d.len(),
    ensures
        digits_value(d.take(k)) <= digits_value(d),
    decreases d.len(),
{
    if k < d.len() {
        assert(d.drop_last().take(k) =~= d.take(k));
        lemma_digits_value_prefix(d.drop_last(), k);
    } else {
        assert(d.take(k) =~= d);
    }
}

/// The number of the conversation that `id` names, where it names one.
pub fn conversation_number(id: &str) -> (r: Option<u64>)
    ensures
        r == conversation_number_of(id@),
{
    let prefix = "conversation-";
    proof {
        reveal_strlit("conversation-");
    }
    let len = id.unicode_len();
    if len <= 13 {
        return None;
    }
    let mut i: usize = 0;
    while i < 13
        invariant
            i <= 13,
            len == id@.len(),
            len > 13,
            prefix@ == conversation_prefix(),
            forall|j: int| 0 <= j < i ==> id@[j] == conversation_prefix()[j],
        decreases 13 - i,
    {
        if id.get_char(i) != prefix.get_char(i) {
            assert(id@.take(13)[i as int] != conversation_prefix()[i as int]);
            return None;
        }
        i = i + 1;
    }
    assert(id@.take(13) =~= conversation_prefix());
    let ghost digits = id@.skip(13);
    if len > 14 && id.get_char(13) == '0' {
        assert(digits[0] == '0');
        return None;
    }
    let mut value: u64 = 0;
    let mut k: usize = 13;
    while k < len
        invariant
            13 <= k <= len,
            len == id@.len(),
            len > 13,
            digits == id@.skip(13),
            id@.take(13) == conversation_prefix(),
            len > 14 ==> digits[0] != '0',
            all_digits(digits.take(k - 13)),
            value == digits_value(digits.take(k - 13)),
        decreases len - k,
    {
        let c = id.get_char(k);
        let ghost pre = digits.take(k - 13);
        let ghost next = digits.take(k - 13 + 1);
        assert(next.drop_last() =~= pre);
        assert(next.last() == c);
        if !('0' <= c && c <= '9') {
            assert(!is_digit(digits[k - 13]));
            return None;
        }
        let d = (c as u32 - '0' as u32) as u64;
        assert(d == digit_value(c));
        match value.checked_mul(10) {
            Some(t) => match t.checked_add(d) {
                Some(v) => {
                    value = v;
                },
                None => {
                    proof {
                        lemma_digits_value_prefix(digits, k - 13 + 1);
                    }
                    return None;
                },
            },
            None => {
                proof {
                    lemma_digits_value_prefix(digits, k - 13 + 1);
                }
                return None;
            },
        }
        assert forall|j: int| 0 <= j < next.len() implies #[trigger] is_digit(next[j]) by {
            if j < pre.len() {
                assert(next[j] == pre[j]);
            }
        }
        k = k + 1;
    }
    assert(digits.take(len - 13) =~= digits);
    Some(value)
}

/// Round trip: the id written for `n` names conversation `n`.
pub proof fn lemma_conversation_id_round_trip(n: u64)
    ensures
        conversation_number_of(conversation_id(n as nat)) == Some(n),
{
    let s = conversation_id(n as nat);
    lemma_decimal(n as nat);
    assert(s.take(13) =~= conversation_prefix());
    assert(s.skip(13) =~= decimal(n as nat));
}

/// An id names conversation `n` only in the form written for `n`.
pub proof fn lemma_conversation_id_unique(s: Seq<char>)
    ensures
        conversation_number_of(s) matches Some(n) ==> s == conversation_id(n as nat),
{
    if conversation_number_of(s) is Some {
        let digits = s.skip(13);
        lemma_canonical_decimal_unique(digits);
        assert(s =~= s.take(13) + digits);
    }
}

/// Distinct conversation numbers have distinct ids.
pub proof fn lemma_conversation_ids_distinct(a: u64, b: u64)
    requires
        a != b,
    ensures
        conversation_id(a as nat) != conversation_id(b as nat),
{
    lemma_conversation_id_round_trip(a);
    lemma_conversation_id_round_trip(b);
}

/// Live ACP conversations held open across prompts, each by the handle that
/// reaches its conversation loop. An entry exists from the moment a
/// conversation signals ready until it is closed or its agent dies.
pub struct AcpState<H> {
    next_id: u64,
    conversations: HashMap<u64, H>,
}

impl<H> AcpState<H> {
    /// The number the next conversation will get.
    pub closed spec fn next_id_model(&self) -> u64 {
        self.next_id
    }

    /// The live conversations, by number.
    pub closed spec fn live(&self) -> Map<u64, H> {
        self.conversations@
    }

    /// No conversation yet; the first gets number 0.
    pub fn new() -> (s: Self)
        ensures
            s.next_id_model() == 0,
            s.live() == Map::<u64, H>::empty(),
    {
        AcpState { next_id: 0, conversations: HashMap::new() }
    }

    /// Takes the next conversation number; the counter moves on by one,
    /// wrapping after the largest `u64`.
    pub fn next_conversation(&mut self) -> (n: u64)
        ensures
            n == old(self).next_id_model(),
            final(self).next_id_model() == next_number(n),
            final(self).live() == old(self).live(),
    {
        let n = self.next_id;
        self.next_id = if n == u64::MAX {
            0
        } else {
            n + 1
        };
        n
    }

    /// The handle of the live conversation `conversation_id`, or the error
    /// that names it unknown.
    pub fn prompt_target(&self, conversation_id: &str) -> (r: Result<&H, String>)
        ensures
            match lookup_conversation(self.live(), conversation_id@) {
                Some(h) => r == Ok::<&H, String>(&h),
                None => r matches Err(e) && e@ == "unknown conversation "@ + conversation_id@,
            },
    {
        match conversation_number(conversation_id) {
            Some(n) => match self.conversations.get(&n) {
                Some(h) => Ok(h),
                None => Err(unknown_conversation(conversation_id)),
            },
            None => Err(unknown_conversation(conversation_id)),
        }
    }

    /// A prompt could not be handed to the conversation's loop: the loop is
    /// gone, so its stale entry goes, and the prompt fails with
    /// "conversation has ended".
    pub fn conversation_gone(&mut self, conversation_id: &str) -> (e: String)
        ensures
            e@ == "conversation has ended"@,
            final(self).next_id_model() == old(self).next_id_model(),
            final(self).live() == match conversation_number_of(conversation_id@) {
                Some(n) => old(self).live().remove(n),
                None => old(self).live(),
            },
    {
        if let Some(n) = conversation_number(conversation_id) {
            self.conversations.remove(&n);
        }
        String::from_str("conversation has ended")
    }

    /// The loop of conversation `n` has ended (its agent died, its connection
    /// closed, or it was closed): its entry goes.
    pub fn conversation_ended(&mut self, n: u64)
        ensures
            final(self).next_id_model() == old(self).next_id_model(),
            final(self).live() == old(self).live().remove(n),
    {
        self.conversations.remove(&n);
    }

    /// Ends the start of conversation `n` from how its handshake ended. A
    /// conversation that became ready is registered under `n` with `handle`,
    /// unless its loop has already ended (`loop_ended`), in which case its
    /// entry goes at once and the start still reports what the handshake
    /// gave; otherwise nothing is registered and the start fails.
    pub fn finish_start<J>(
        &mut self,
        n: u64,
        handle: H,
        ready: ReadyOutcome<J>,
        loop_ended: bool,
    ) -> (r: Result<
        ConversationInfo<J>,
        String,
    >)
        ensures
            final(self).next_id_model() == old(self).next_id_model(),
            match ready {
                ReadyOutcome::Ready { session_id, agent_info } => {
                    &&& r matches Ok(info) && info.conversation_id@ == conversation_id(n as nat)
                        && info.session_id == session_id && info.agent_info == agent_info
                    &&& final(self).live() == if loop_ended {
                        old(self).live().remove(n)
                    } else {
                        old(self).live().insert(n, handle)
                    }
                },
                ReadyOutcome::TimedOut => {
                    &&& r matches Err(e) && e@ == "agent did not answer the handshake within 60s"@
                    &&& final(self).live() == old(self).live()
                },
                ReadyOutcome::Ended => {
                    &&& r matches Err(e) && e@ == "conversation ended before it was ready"@
                    &&& final(self).live() == old(self).live()
                },
                ReadyOutcome::Failed(message) => {
                    &&& r matches Err(e) && e == message
                    &&& final(self).live() == old(self).live()
                },
            },
    {
        match ready {
            ReadyOutcome::Ready { session_id, agent_info } => {
                if loop_ended {
                    self.conversations.remove(&n);
                } else {
                    self.conversations.insert(n, handle);
                }
                Ok(ConversationInfo { conversation_id: conversation_id_text(n), session_id, agent_info })
            },
            ReadyOutcome::TimedOut => Err(
                String::from_str("agent did not answer the handshake within 60s"),
            ),
            ReadyOutcome::Ended => Err(String::from_str("conversation ended before it was ready")),
            ReadyOutcome::Failed(message) => Err(message),
        }
    }
}

impl<H> Default for AcpState<H> {
    /// No conversation yet; the first gets number 0.
    fn default() -> (s: Self)
        ensures
            s.next_id_model() == 0,
            s.live() == Map::<u64, H>::empty(),
    {
        AcpState::new()
    }
}

/// "unknown conversation " followed by the id.
fn unknown_conversation(conversation_id: &str) -> (e: String)
    ensures
        e@ == "unknown conversation "@ + conversation_id@,
{
    String::from_str("unknown conversation ").concat(conversation_id)
}

/// Closes a live conversation: its entry goes, which drops the handle and so
/// ends its loop and shuts the agent down. An id that names no live
/// conversation is an error, and nothing changes.
pub fn acp_close<H>(state: &mut AcpState<H>, conversation_id: &str) -> (r: Result<(), String>)
    ensures
        final(state).next_id_model() == old(state).next_id_model(),
        match lookup_conversation(old(state).live(), conversation_id@) {
            Some(_) => {
                &&& r is Ok
                &&& final(state).live() == old(state).live().remove(
                    conversation_number_of(conversation_id@)->0,
                )
            },
            None => {
                &&& r matches Err(e) && e@ == "unknown conversation "@ + conversation_id@
                &&& final(state).live() == old(state).live()
            },
        },
{
    match conversation_number(conversation_id) {
        Some(n) => match state.conversations.remove(&n) {
            Some(_) => Ok(()),
            None => Err(unknown_conversation(conversation_id)),
        },
        None => Err(unknown_conversation(conversation_id)),
    }
}

/// The answer to a prompt from what its conversation loop replied: the
/// loop's reply, or, where the loop ended before replying, an error.
pub fn prompt_outcome(reply: Option<Result<String, String>>) -> (r: Result<String, String>)
    ensures
        match reply {
            Some(answer) => r == answer,
            None => r matches Err(e) && e@ == "conversation ended before the turn completed"@,
        },
{
    match reply {
        Some(answer) => answer,
        None => Err(String::from_str("conversation ended before the turn completed")),
    }
}

/// How the handshake of a starting conversation ended, as its starter saw it.
pub enum ReadyOutcome<J> {
    /// The conversation is ready: its session and what the agent said of
    /// itself.
    Ready { session_id: String, agent_info: J },
    /// The handshake gave no answer within 60 seconds.
    TimedOut,
    /// The conversation loop ended before it was ready.
    Ended,
    /// The loop reported an error instead of becoming ready.
    Failed(String),
}

/// What a started conversation tells the UI.
pub struct ConversationInfo<J> {
    pub conversation_id: String,
    pub session_id: String,
    pub agent_info: J,
}

/// The conversation's working directory, as asked for, before the home
/// directory is looked up or the directory checked.
#[derive(Debug, PartialEq, Eq)]
pub enum CwdRequest {
    /// `~`: the home directory.
    Home,
    /// `~/rest`: `rest` under the home directory.
    InHome(String),
    /// Any other text: that path.
    Path(String),
}

/// What the working-directory text `spec` asks for, after trimming.
pub open spec fn cwd_request_of(spec: Seq<char>, r: CwdRequest) -> bool {
    let t = trimmed(spec);
    if t == seq!['~'] {
        r == CwdRequest::Home
    } else if t.len() >= 2 && t[0] == '~' && t[1] == '/' {
        r matches CwdRequest::InHome(rest) && rest@ == t.skip(2)
    } else {
        r matches CwdRequest::Path(p) && p@ == t
    }
}

/// Whitespace around the working-directory text does not change what it asks
/// for: the text and its trimmed form ask for the same directory.
pub proof fn lemma_cwd_request_ignores_surrounding_space(spec: Seq<char>, r: CwdRequest)
    ensures
        cwd_request_of(spec, r) == cwd_request_of(trimmed(spec), r),
{
    lemma_trimmed_idempotent(spec);
}

/// The directory asked for never begins or ends with whitespace: a path
/// asked for is the text without its surrounding whitespace (every character
/// of the text from its first to its last non-space, and only whitespace
/// left out), and
/// the part under the home directory never ends with whitespace.
pub proof fn lemma_cwd_request_is_trimmed(spec: Seq<char>, r: CwdRequest)
    requires
        cwd_request_of(spec, r),
    ensures
        r matches CwdRequest::Path(p) ==> {
            &&& p@.len() > 0 ==> !is_space(p@[0]) && !is_space(p@.last())
            &&& exists|a: int, b: int|
                0 <= a <= b <= spec.len() && #[trigger] spec.subrange(a, b) == p@ && forall|i: int|
                    0 <= i < spec.len() && (i < a || i >= b) ==> is_space(#[trigger] spec[i])
        },
        r matches CwdRequest::InHome(rest) ==> (rest@.len() > 0 ==> !is_space(rest@.last())),
{
    lemma_trimmed_is_solid(spec);
    crate::text::lemma_trimmed_is_infix(spec);
}

/// Reads the working-directory text: `~` is the home directory, `~/rest` is
/// `rest` under it, and anything else is a path as it stands.
pub fn cwd_request(spec: &str) -> (r: CwdRequest)
    ensures
        cwd_request_of(spec@, r),
{
    let t = trim_text(spec);
    let n = t.unicode_len();
    if n == 1 && t.get_char(0) == '~' {
        assert(t@ =~= seq!['~']);
        return CwdRequest::Home;
    }
    assert(t@ != seq!['~'] || (n == 1 && t@[0] == '~'));
    if n >= 2 && t.get_char(0) == '~' && t.get_char(1) == '/' {
        let rest = t.substring_char(2, n);
        assert(rest@ =~= t@.skip(2));
        return CwdRequest::InHome(String::from_str(rest));
    }
    CwdRequest::Path(String::from_str(t))
}

/// What `AcpAgent::from_str` gives for the command text `s`: the agent it
/// parses `s` to, or the message of the error with which it rejects `s`.
pub uninterp spec fn agent_command_error(s: Seq<char>) -> Result<AcpAgent, Seq<char>>;

/// An agent parsed from a command text, with the text it was parsed from.
pub struct ParsedAgent {
    pub agent: AcpAgent,
    pub source: Ghost<Seq<char>>,
}

/// Wraps `agent_client_protocol::AcpAgent::from_str`, turning its error into
/// its message and tagging the agent with the text it was parsed from. The
/// result depends on the text alone: the crate parses a trimmed text that
/// starts with `{` as a JSON agent configuration and any other as shell words
/// (leading `NAME=value` words set the environment, the first other word is
/// the command). An empty or all-space text has no words and is rejected.
/// The agent it builds holds only that configuration (no callback, default
/// shutdown timeouts), so the same text always gives the same agent. What
/// the agent's configuration holds, and what the message says, are not
/// stated beyond that.
#[verifier::external_body]
fn parse_agent_command(command: &str) -> (r: Result<ParsedAgent, String>)
    ensures
        match r {
            Ok(p) => agent_command_error(command@) == Ok::<AcpAgent, Seq<char>>(p.agent)
                && p.source@ == command@,
            Err(e) => agent_command_error(command@) == Err::<AcpAgent, Seq<char>>(e@),
        },
        trimmed(command@).len() == 0 ==> r is Err,
{
    match <AcpAgent as std::str::FromStr>::from_str(command) {
        Ok(agent) => Ok(ParsedAgent { agent, source: Ghost(command@) }),
        Err(e) => Err(e.to_string()),
    }
}

/// The first decisions of starting a conversation: the agent command must
/// parse, and then the working directory is read. A command that does not
/// parse fails the start before the directory is looked at.
pub fn acp_start_request(command: &str, cwd: &str) -> (r: Result<(ParsedAgent, CwdRequest), String>)
    ensures
        start_request_of(command@, cwd@, r),
{
    let agent = match parse_agent_command(command) {
        Ok(agent) => agent,
        Err(e) => return Err(e),
    };
    Ok((agent, cwd_request(cwd)))
}

/// What a start request for the command text `command` and the directory text
/// `cwd` gives: the agent the command parses to, tagged with the command, and
/// the directory asked for; or the command's parse error.
pub open spec fn start_request_of(
    command: Seq<char>,
    cwd: Seq<char>,
    r: Result<(ParsedAgent, CwdRequest), String>,
) -> bool {
    match agent_command_error(command) {
        Err(e) => r matches Err(m) && m@ == e,
        Ok(agent) => r matches Ok((p, req)) && p.agent == agent && p.source@ == command
            && cwd_request_of(cwd, req),
    }
}

/// A start spawns the agent its own command names: two start requests whose
/// commands are the same text spawn the same agent, whatever directories they
/// ask for; and requests whose commands parse to different agents spawn
/// different agents. So no request can spawn an agent parsed from some other
/// text.
pub proof fn lemma_start_spawns_its_commands_agent(
    c1: Seq<char>,
    d1: Seq<char>,
    r1: Result<(ParsedAgent, CwdRequest), String>,
    c2: Seq<char>,
    d2: Seq<char>,
    r2: Result<(ParsedAgent, CwdRequest), String>,
)
    requires
        start_request_of(c1, d1, r1),
        start_request_of(c2, d2, r2),
        r1 is Ok,
        r2 is Ok,
    ensures
        c1 == c2 ==> r1->Ok_0.0.agent == r2->Ok_0.0.agent,
        agent_command_error(c1) != agent_command_error(c2) ==> r1->Ok_0.0.agent != r2->Ok_0.0.agent,
        r1->Ok_0.0.source@ == c1,
{
}

/// The home directory where it could be found, or the error that it could not.
pub fn home_directory<P>(home: Option<P>) -> (r: Result<P, String>)
    ensures
        match home {
            Some(p) => r == Ok::<P, String>(p),
            None => r matches Err(e) && e@ == "home directory cannot be resolved"@,
        },
{
    match home {
        Some(p) => Ok(p),
        None => Err(String::from_str("home directory cannot be resolved")),
    }
}

/// The working directory where it is an existing directory, or the error
/// that names it, as `shown`.
pub fn checked_directory<P>(path: P, is_dir: bool, shown: &str) -> (r: Result<P, String>)
    ensures
        if is_dir {
            r == Ok::<P, String>(path)
        } else {
            r matches Err(e) && e@ == "working directory is not an existing directory: "@ + shown@
        },
{
    if is_dir {
        Ok(path)
    } else {
        Err(String::from_str("working directory is not an existing directory: ").concat(shown))
    }
}

/// How a permission request from an agent is answered.
#[derive(Debug, PartialEq, Eq)]
pub enum PermissionAnswer {
    /// The offered option with this id is chosen.
    Select(String),
    /// The request is declined.
    Cancel,
}

/// Answers an agent's permission request, which offers the options
/// `offered`. Nothing is approved on the person's behalf: with no UI to ask
/// in, every request is declined, whatever it offers.
pub fn permission_answer(offered: &Vec<String>) -> (a: PermissionAnswer)
    ensures
        a == PermissionAnswer::Cancel,
{
    PermissionAnswer::Cancel
}

/// Read after write: once conversation `n` is registered with `handle`, its
/// id reaches that handle.
pub proof fn lemma_registered_conversation_is_reachable<H>(live: Map<u64, H>, n: u64, handle: H)
    ensures
        lookup_conversation(live.insert(n, handle), conversation_id(n as nat)) == Some(handle),
{
    lemma_conversation_id_round_trip(n);
}

/// Once conversation `n` is closed, no id reaches it, and every other
/// conversation is reached as before.
pub proof fn lemma_closed_conversation_is_unknown<H>(live: Map<u64, H>, n: u64, id: Seq<char>)
    ensures
        conversation_number_of(id) == Some(n) ==> lookup_conversation(live.remove(n), id) is None,
        conversation_number_of(id) != Some(n) ==> lookup_conversation(live.remove(n), id)
            == lookup_conversation(live, id),
{
}

/// Two starts in turn get distinct numbers and distinct ids, and once both
/// are registered each id reaches its own conversation, in whichever order
/// the two finished.
pub proof fn lemma_two_starts_are_distinct<H>(live: Map<u64, H>, first: u64, h1: H, h2: H)
    ensures
        next_number(first) != first,
        conversation_id(first as nat) != conversation_id(next_number(first) as nat),
        lookup_conversation(live.insert(first, h1).insert(next_number(first), h2), conversation_id(first as nat)) == Some(h1),
        lookup_conversation(live.insert(first, h1).insert(next_number(first), h2), conversation_id(next_number(first) as nat)) == Some(h2),
        lookup_conversation(live.insert(next_number(first), h2).insert(first, h1), conversation_id(first as nat)) == Some(h1),
        lookup_conversation(live.insert(next_number(first), h2).insert(first, h1), conversation_id(next_number(first) as nat)) == Some(h2),
{
    let second = next_number(first);
    lemma_conversation_ids_distinct(first, second);
    lemma_conversation_id_round_trip(first);
    lemma_conversation_id_round_trip(second);
}

/// Registers each of `started` in turn.
pub open spec fn register_all<H>(live: Map<u64, H>, started: Seq<(u64, H)>) -> Map<u64, H>
    decreases started.len(),
{
    if started.len() == 0 {
        live
    } else {
        register_all(live, started.drop_last()).insert(started.last().0, started.last().1)
    }
}

/// A closed conversation stays unknown: after conversation `n` is closed,
/// conversations started later (under other numbers) never make its id reach
/// anything again.
pub proof fn lemma_closed_stays_unknown<H>(live: Map<u64, H>, n: u64, started: Seq<(u64, H)>)
    requires
        forall|k: int| 0 <= k < started.len() ==> (#[trigger] started[k]).0 != n,
    ensures
        lookup_conversation(register_all(live.remove(n), started), conversation_id(n as nat)) is None,
    decreases started.len(),
{
    lemma_conversation_id_round_trip(n);
    if started.len() > 0 {
        assert forall|k: int| 0 <= k < started.drop_last().len() implies (
        #[trigger] started.drop_last()[k]).0 != n by {
            assert(started.drop_last()[k] == started[k]);
        }
        assert(started[started.len() - 1].0 != n);
        lemma_closed_stays_unknown(live, n, started.drop_last());
    }
}

/// The numbers handed out count up: until the counter reaches the largest
/// `u64`, each number is larger than the one before.
pub proof fn lemma_numbers_count_up(n: u64)
    requires
        n < u64::MAX,
    ensures
        next_number(n) > n,
{
}

/// The `AcpAgent` type of the agent client protocol, whose contents the
/// library only carries through.
#[verifier::external_type_specification]
#[verifier::external_body]
pub struct ExAcpAgent(AcpAgent);

} // verus!

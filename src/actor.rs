//! The connection supervisor: the one piece of shared state of the chat
//! client (running flag, active channel, the live session's outbound queue)
//! and every decision of the connection lifecycle. Whoever owns the socket
//! runs the loops and asks the supervisor what to do at each step:
//!
//! * `connect` checks and sets the running flag, opens a new generation and
//!   yields what a session loop needs; while its generation is current
//!   (`is_current`), the loop runs sessions one after another;
//! * a session opens the socket, writes `handshake_lines`, then `publish`es
//!   its outbound queue; from then on every inbound event goes through
//!   `on_inbound` (frames are cut into lines and dispatched, keepalive
//!   replies are queued), and a writer sends what `take_outbound` hands out;
//! * when a session ends, `session_ended` says whether to back off and
//!   retry, and `loop_finished` closes the books when the loop stops.
//!
//! A loop left over from before a `disconnect` and a new `connect` is
//! stale: whatever it reports with its old generation changes nothing.
use crate::dispatch::{dispatch_line, event_of, kept_lines, Event, EventView, LineBuffer};
use crate::error::CommandError;
use crate::models::{OAuthTokens, TokensView};
use crate::text::{chars_of, split_on};
use crate::user::{current_user, token_username};
use vstd::prelude::*;
use vstd::string::StringExecFns;

verus! {

/// How many lines the outbound queue holds before it refuses more.
pub const OUTBOX_CAPACITY: usize = 64;

/// Seconds to wait before the next session after one failed.
pub const BACKOFF_SECS: u64 = 3;

/// Seconds without any inbound frame after which a session is taken as dead.
pub const READ_TIMEOUT_SECS: u64 = 360;

/// The chat service's socket endpoint.
pub const CHAT_ENDPOINT: &'static str = "wss://irc-ws.chat.twitch.tv:443";

/// `s` in lower case, as `str::to_lowercase` makes it.
pub uninterp spec fn lowercase_of(s: Seq<char>) -> Seq<char>;

/// Relies on `str::to_lowercase`: the lower-case form of `s`, which depends
/// on its characters alone.
#[verifier::external_body]
fn lowercase(s: &str) -> (r: String)
    ensures
        r@ == lowercase_of(s@),
{
    s.to_lowercase()
}

/// A channel name in its canonical form: lower case, starting with `#`.
pub open spec fn normalize_channel(c: Seq<char>) -> Seq<char> {
    if c.len() > 0 && c[0] == '#' {
        lowercase_of(c)
    } else {
        "#"@ + lowercase_of(c)
    }
}

/// Puts a channel name in its canonical form (see `normalize_channel`).
pub fn normalize_channel_name(channel: &str) -> (r: String)
    ensures
        r@ == normalize_channel(channel@),
{
    let v = chars_of(channel);
    let lower = lowercase(channel);
    if v.len() > 0 && v[0] == '#' {
        lower
    } else {
        let mut r = "#".to_owned();
        r.append(lower.as_str());
        r
    }
}

/// The line that leaves a channel.
pub open spec fn part_line(channel: Seq<char>) -> Seq<char> {
    "PART "@ + channel
}

/// The line that says `text` in a channel.
pub open spec fn privmsg_line(channel: Seq<char>, text: Seq<char>) -> Seq<char> {
    "PRIVMSG "@ + channel + " :"@ + text
}

/// The handshake of a session, in the order it is sent: capability request,
/// password, nick, join.
pub open spec fn handshake_of(token: Seq<char>, username: Seq<char>, channel: Seq<char>) -> Seq<
    Seq<char>,
> {
    seq![
        "CAP REQ :twitch.tv/tags twitch.tv/commands"@,
        "PASS oauth:"@ + token,
        "NICK "@ + username,
        "JOIN "@ + channel,
    ]
}

pub open spec fn lines_view(v: Seq<String>) -> Seq<Seq<char>> {
    v.map_values(|s: String| s@)
}

fn joined(head: &str, tail: &str) -> (r: String)
    ensures
        r@ == head@ + tail@,
{
    let mut r = head.to_owned();
    r.append(tail);
    r
}

/// The handshake lines of a session (see `handshake_of`).
pub fn handshake_lines(token: &str, username: &str, channel: &str) -> (r: Vec<String>)
    ensures
        lines_view(r@) == handshake_of(token@, username@, channel@),
{
    let r = vec![
        "CAP REQ :twitch.tv/tags twitch.tv/commands".to_owned(),
        joined("PASS oauth:", token),
        joined("NICK ", username),
        joined("JOIN ", channel),
    ];
    assert(lines_view(r@) =~= handshake_of(token@, username@, channel@));
    r
}

/// `q` with `line` at its end, unless it is full.
pub open spec fn enqueue(q: Seq<Seq<char>>, line: Seq<char>) -> Seq<Seq<char>> {
    if q.len() < OUTBOX_CAPACITY {
        q.push(line)
    } else {
        q
    }
}

/// The model of the supervisor's state.
pub struct SupervisorView {
    /// Whether sessions are to run.
    pub running: bool,
    /// The channel of the last `connect`.
    pub channel: Option<Seq<char>>,
    /// The live session's outbound queue: lines not yet handed to the writer;
    /// none while no session is live.
    pub outbound: Option<Seq<Seq<char>>>,
    /// Socket text of the live session that is not a complete line yet.
    pub pending: Seq<char>,
    /// The number of the latest `connect`; a session loop started by an
    /// earlier one is stale and must leave the state alone.
    pub generation: u64,
}

/// The generation after `g`.
pub open spec fn next_generation(g: u64) -> u64 {
    if g == u64::MAX {
        0
    } else {
        (g + 1) as u64
    }
}

/// What a session loop needs to run: the access token, the user's name,
/// the canonical channel name, and the generation the loop belongs to.
pub struct SessionPlan {
    pub token: String,
    pub username: String,
    pub channel: String,
    pub generation: u64,
}

pub struct PlanView {
    pub token: Seq<char>,
    pub username: Seq<char>,
    pub channel: Seq<char>,
    pub generation: u64,
}

impl View for SessionPlan {
    type V = PlanView;

    open spec fn view(&self) -> PlanView {
        PlanView {
            token: self.token@,
            username: self.username@,
            channel: self.channel@,
            generation: self.generation,
        }
    }
}

pub open spec fn opt_tokens_view(t: Option<&OAuthTokens>) -> Option<TokensView> {
    match t {
        Some(t) => Some(t@),
        None => None,
    }
}

/// What `connect` answers in state `s`: `AlreadyConnected` while sessions
/// run; `NoSession` without credentials; `MissingIdentity` or
/// `MalformedIdentity` when the user's name cannot be had from them;
/// otherwise the plan of the sessions to run.
pub open spec fn connect_outcome(
    s: SupervisorView,
    channel: Seq<char>,
    tokens: Option<TokensView>,
) -> Result<PlanView, CommandError> {
    if s.running {
        Err(CommandError::AlreadyConnected)
    } else {
        match tokens {
            None => Err(CommandError::NoSession),
            Some(t) => match t.id_token {
                None => Err(CommandError::MissingIdentity),
                Some(id) => match token_username(id) {
                    Err(e) => Err(e),
                    Ok(name) => Ok(
                        PlanView {
                            token: t.access_token,
                            username: name,
                            channel: normalize_channel(channel),
                            generation: next_generation(s.generation),
                        },
                    ),
                },
            },
        }
    }
}

/// The state after a successful `connect` with this plan.
pub open spec fn after_connect(s: SupervisorView, p: PlanView) -> SupervisorView {
    SupervisorView { running: true, channel: Some(p.channel), generation: p.generation, ..s }
}

/// The state after `disconnect`: sessions are to stop, and a live session
/// is asked to leave the channel.
pub open spec fn after_disconnect(s: SupervisorView) -> SupervisorView {
    SupervisorView {
        running: false,
        outbound: match (s.outbound, s.channel) {
            (Some(q), Some(ch)) => Some(enqueue(q, part_line(ch))),
            _ => s.outbound,
        },
        ..s
    }
}

/// What `send` answers in state `s`.
pub open spec fn send_outcome(s: SupervisorView) -> Result<(), CommandError> {
    match (s.outbound, s.channel) {
        (Some(q), Some(ch)) => if q.len() < OUTBOX_CAPACITY {
            Ok(())
        } else {
            Err(CommandError::QueueFull)
        },
        _ => Err(CommandError::NotConnected),
    }
}

/// The state after `send(text)`.
pub open spec fn after_send(s: SupervisorView, text: Seq<char>) -> SupervisorView {
    match (s.outbound, s.channel) {
        (Some(q), Some(ch)) => if q.len() < OUTBOX_CAPACITY {
            SupervisorView { outbound: Some(q.push(privmsg_line(ch, text))), ..s }
        } else {
            s
        },
        _ => s,
    }
}

/// The state after a session of generation `g` published its outbound
/// queue; a stale session publishes nothing.
pub open spec fn after_publish(s: SupervisorView, g: u64) -> SupervisorView {
    if g == s.generation {
        SupervisorView { outbound: Some(seq![]), pending: seq![], ..s }
    } else {
        s
    }
}

/// The events of a list of lines, in order; ignored lines give none.
pub open spec fn events_of(lines: Seq<Seq<char>>) -> Seq<EventView>
    decreases lines.len(),
{
    if lines.len() == 0 {
        seq![]
    } else {
        let r = events_of(lines.drop_last());
        match event_of(lines.last()) {
            Some(e) => r.push(e),
            None => r,
        }
    }
}

/// The effect of one event on the state: a keepalive reply is queued, a
/// reconnect request stops the sessions; other events leave it alone.
pub open spec fn apply_event(s: SupervisorView, e: EventView) -> SupervisorView {
    match e {
        EventView::Pong(l) => SupervisorView {
            outbound: match s.outbound {
                Some(q) => Some(enqueue(q, l)),
                None => None,
            },
            ..s
        },
        EventView::Reconnect => SupervisorView { running: false, ..s },
        _ => s,
    }
}

/// The effect of a list of events, in order.
pub open spec fn apply_events(s: SupervisorView, evs: Seq<EventView>) -> SupervisorView
    decreases evs.len(),
{
    if evs.len() == 0 {
        s
    } else {
        apply_event(apply_events(s, evs.drop_last()), evs.last())
    }
}

/// The complete lines that a frame yields in state `s`.
pub open spec fn frame_lines(s: SupervisorView, raw: Seq<char>) -> Seq<Seq<char>> {
    kept_lines(split_on(s.pending + raw, '\n').drop_last())
}

/// The state after a frame: the text after the frame's last newline is held
/// back, and the events of its complete lines take effect in order.
pub open spec fn after_frame(s: SupervisorView, raw: Seq<char>) -> SupervisorView {
    apply_events(
        SupervisorView { pending: split_on(s.pending + raw, '\n').last(), ..s },
        events_of(frame_lines(s, raw)),
    )
}

pub open spec fn events_view(v: Seq<Event>) -> Seq<EventView> {
    v.map_values(|e: Event| e@)
}

/// What the socket reader saw.
pub enum Inbound {
    /// A text frame.
    Text(String),
    /// A frame of another kind (binary, ping, pong).
    Other,
    /// The socket was closed.
    Closed,
    /// The transport failed with this error.
    Failed(String),
    /// Nothing arrived within `READ_TIMEOUT_SECS`.
    TimedOut,
}

/// Why a session ended in error.
pub enum SessionError {
    Transport(String),
    Timeout,
    Closed,
}

/// What the session loop does after a session ended.
#[derive(Clone, Copy, Debug, PartialEq, Eq, Structural)]
pub enum LoopStep {
    /// Report `reconnecting`, wait `BACKOFF_SECS`, and run another session
    /// if sessions are still to run.
    Retry,
    /// Leave the loop.
    Stop,
}

/// The state of the connection lifecycle.
pub struct Supervisor {
    running: bool,
    channel: Option<String>,
    outbound: Option<Vec<String>>,
    buffer: LineBuffer,
    generation: u64,
}

impl View for Supervisor {
    type V = SupervisorView;

    closed spec fn view(&self) -> SupervisorView {
        SupervisorView {
            running: self.running,
            channel: match self.channel {
                Some(c) => Some(c@),
                None => None,
            },
            outbound: match self.outbound {
                Some(q) => Some(lines_view(q@)),
                None => None,
            },
            pending: self.buffer@,
            generation: self.generation,
        }
    }
}

impl Supervisor {
    /// The state at start: nothing running, no channel, no session.
    pub fn new() -> (r: Supervisor)
        ensures
            r@ == (SupervisorView {
                running: false,
                channel: None,
                outbound: None,
                pending: seq![],
                generation: 0,
            }),
    {
        Supervisor {
            running: false,
            channel: None,
            outbound: None,
            buffer: LineBuffer::new(),
            generation: 0,
        }
    }

    /// Whether sessions are to run.
    pub fn is_running(&self) -> (r: bool)
        ensures
            r == self@.running,
    {
        self.running
    }

    /// Whether the session loop of generation `generation` is to go on:
    /// sessions are to run and no later `connect` replaced it.
    pub fn is_current(&self, generation: u64) -> (r: bool)
        ensures
            r == (self@.running && self@.generation == generation),
    {
        self.running && self.generation == generation
    }

    /// Whether a session's outbound queue is live.
    pub fn is_linked(&self) -> (r: bool)
        ensures
            r == self@.outbound is Some,
    {
        self.outbound.is_some()
    }

    fn enqueue_line(&mut self, line: String)
        ensures
            final(self)@ == (SupervisorView {
                outbound: match old(self)@.outbound {
                    Some(q) => Some(enqueue(q, line@)),
                    None => None,
                },
                ..old(self)@
            }),
    {
        if let Some(q) = &mut self.outbound {
            if q.len() < OUTBOX_CAPACITY {
                let ghost before = q@;
                q.push(line);
                assert(lines_view(q@) =~= lines_view(before).push(line@));
            }
        }
    }

    /// The handshake of a session of generation `generation` went through:
    /// its outbound queue goes live, empty, and its line buffer starts empty.
    /// A stale session changes nothing.
    pub fn publish(&mut self, generation: u64)
        ensures
            final(self)@ == after_publish(old(self)@, generation),
    {
        if generation == self.generation {
            self.outbound = Some(Vec::new());
            self.buffer = LineBuffer::new();
            assert(lines_view(Seq::<String>::empty()) =~= Seq::<Seq<char>>::empty());
        }
    }

    /// Hands the writer of generation `generation` everything queued, oldest
    /// first, and empties the queue; `None` once no session is live or the
    /// writer is stale, which tells it to stop.
    pub fn take_outbound(&mut self, generation: u64) -> (r: Option<Vec<String>>)
        ensures
            match r {
                Some(v) => generation == old(self)@.generation && old(self)@.outbound == Some(
                    lines_view(v@),
                ) && final(self)@ == (SupervisorView { outbound: Some(seq![]), ..old(self)@ }),
                None => (generation != old(self)@.generation || old(self)@.outbound is None)
                    && final(self)@ == old(self)@,
            },
    {
        if generation != self.generation {
            return None;
        }
        match self.outbound.take() {
            Some(q) => {
                self.outbound = Some(Vec::new());
                assert(lines_view(Seq::<String>::empty()) =~= Seq::<Seq<char>>::empty());
                Some(q)
            },
            None => None,
        }
    }

    /// Takes one text frame of the live session: its complete lines are
    /// dispatched in order and their events returned; keepalive replies are
    /// queued and a reconnect request stops the sessions.
    pub fn handle_frame(&mut self, raw: &str) -> (r: Vec<Event>)
        ensures
            events_view(r@) == events_of(frame_lines(old(self)@, raw@)),
            final(self)@ == after_frame(old(self)@, raw@),
    {
        let lines = self.buffer.push_frame(raw);
        let ghost lv = lines_view(lines@);
        let ghost start = self@;
        let mut out: Vec<Event> = Vec::new();
        let mut k: usize = 0;
        while k < lines.len()
            invariant
                k <= lines@.len(),
                lv == lines_view(lines@),
                events_view(out@) == events_of(lv.subrange(0, k as int)),
                self@ == apply_events(start, events_view(out@)),
            decreases lines@.len() - k,
        {
            assert(lv.subrange(0, k + 1).drop_last() =~= lv.subrange(0, k as int));
            assert(lv.subrange(0, k + 1).last() == lines@[k as int]@);
            let ev = dispatch_line(lines[k].as_str());
            if let Some(e) = ev {
                match &e {
                    Event::Pong(l) => self.enqueue_line(l.clone()),
                    Event::Reconnect => self.running = false,
                    _ => {},
                }
                let ghost before = out@;
                out.push(e);
                assert(events_view(out@) =~= events_view(before).push(e@));
                assert(events_view(out@).drop_last() =~= events_view(before));
            }
            k = k + 1;
        }
        assert(lv.subrange(0, k as int) =~= lv);
        out
    }

    /// Takes what the socket reader saw: a text frame is handled (see
    /// `handle_frame`) and its events returned; another frame changes
    /// nothing; a closed socket, a transport error or the read timeout end
    /// the session in error.
    pub fn on_inbound(&mut self, ev: Inbound) -> (r: Result<Vec<Event>, SessionError>)
        ensures
            match ev {
                Inbound::Text(raw) => r matches Ok(v) && events_view(v@) == events_of(
                    frame_lines(old(self)@, raw@),
                ) && final(self)@ == after_frame(old(self)@, raw@),
                Inbound::Other => r matches Ok(v) && v@.len() == 0 && final(self)@ == old(self)@,
                Inbound::Closed => r matches Err(SessionError::Closed) && final(self)@ == old(
                    self,
                )@,
                Inbound::Failed(e) => r == Err::<Vec<Event>, SessionError>(
                    SessionError::Transport(e),
                ) && final(self)@ == old(self)@,
                Inbound::TimedOut => r matches Err(SessionError::Timeout) && final(self)@ == old(
                    self,
                )@,
            },
    {
        match ev {
            Inbound::Text(raw) => Ok(self.handle_frame(raw.as_str())),
            Inbound::Other => Ok(Vec::new()),
            Inbound::Closed => Err(SessionError::Closed),
            Inbound::Failed(e) => Err(SessionError::Transport(e)),
            Inbound::TimedOut => Err(SessionError::Timeout),
        }
    }

    /// A session of generation `generation` ended: its outbound queue is
    /// closed. A session that failed while its loop is current is retried;
    /// otherwise the loop stops. A stale session leaves the state alone.
    pub fn session_ended(&mut self, generation: u64, outcome: &Result<(), SessionError>) -> (r:
        LoopStep)
        ensures
            final(self)@ == (if generation == old(self)@.generation {
                SupervisorView { outbound: None, ..old(self)@ }
            } else {
                old(self)@
            }),
            r == (if outcome is Err && old(self)@.running && generation == old(self)@.generation {
                LoopStep::Retry
            } else {
                LoopStep::Stop
            }),
    {
        if generation != self.generation {
            return LoopStep::Stop;
        }
        self.outbound = None;
        if outcome.is_err() && self.running {
            LoopStep::Retry
        } else {
            LoopStep::Stop
        }
    }

    /// The session loop of generation `generation` stopped: if it is the
    /// latest, no outbound queue stays live.
    pub fn loop_finished(&mut self, generation: u64)
        ensures
            final(self)@ == (if generation == old(self)@.generation {
                SupervisorView { outbound: None, ..old(self)@ }
            } else {
                old(self)@
            }),
    {
        if generation == self.generation {
            self.outbound = None;
        }
    }
}

/// Starts the chat client on `channel` with the stored credentials `tokens`:
/// fails with `AlreadyConnected` while sessions run, and with the error of
/// `current_user` when the user's name cannot be had; otherwise sets the
/// running flag, records the canonical channel name, opens a new generation
/// and returns the plan of the session loop to run.
pub fn connect(state: &mut Supervisor, channel: &str, tokens: Option<&OAuthTokens>) -> (r: Result<
    SessionPlan,
    CommandError,
>)
    ensures
        match r {
            Ok(p) => connect_outcome(old(state)@, channel@, opt_tokens_view(tokens)) == Ok::<
                PlanView,
                CommandError,
            >(p@) && final(state)@ == after_connect(old(state)@, p@),
            Err(e) => connect_outcome(old(state)@, channel@, opt_tokens_view(tokens)) == Err::<
                PlanView,
                CommandError,
            >(e) && final(state)@ == old(state)@,
        },
{
    if state.running {
        return Err(CommandError::AlreadyConnected);
    }
    let username = match current_user(tokens) {
        Ok(u) => u,
        Err(e) => return Err(e),
    };
    let token = match tokens {
        Some(t) => t.access_token.clone(),
        None => return Err(CommandError::NoSession),
    };
    let ch = normalize_channel_name(channel);
    let generation = if state.generation == u64::MAX {
        0
    } else {
        state.generation + 1
    };
    state.running = true;
    state.channel = Some(ch.clone());
    state.generation = generation;
    Ok(SessionPlan { token, username, channel: ch, generation })
}

/// Stops the chat client: clears the running flag and, when a session is
/// live on a channel, queues the line that leaves it. Never fails; without a
/// live session it only clears the flag.
pub fn disconnect(state: &mut Supervisor)
    ensures
        final(state)@ == after_disconnect(old(state)@),
{
    state.running = false;
    let part = match &state.channel {
        Some(ch) => Some(joined("PART ", ch.as_str())),
        None => None,
    };
    if let Some(line) = part {
        state.enqueue_line(line);
    }
}

/// Says `text` in the active channel: fails with `NotConnected` when no
/// session is live or no channel is recorded, and with `QueueFull` when the
/// outbound queue is full; otherwise queues `PRIVMSG <channel> :<text>`.
pub fn send(state: &mut Supervisor, text: &str) -> (r: Result<(), CommandError>)
    ensures
        r == send_outcome(old(state)@),
        final(state)@ == after_send(old(state)@, text@),
{
    let line = match &state.channel {
        Some(ch) => {
            let mut l = joined("PRIVMSG ", ch.as_str());
            l.append(" :");
            l.append(text);
            l
        },
        None => return Err(CommandError::NotConnected),
    };
    match &state.outbound {
        None => return Err(CommandError::NotConnected),
        Some(q) => if q.len() >= OUTBOX_CAPACITY {
            return Err(CommandError::QueueFull);
        },
    }
    state.enqueue_line(line);
    Ok(())
}

/// While sessions run, a second `connect` is refused with
/// `AlreadyConnected`, whatever channel and credentials it brings.
pub proof fn lemma_connect_twice_refused(
    s: SupervisorView,
    c1: Seq<char>,
    t1: Option<TokensView>,
    c2: Seq<char>,
    t2: Option<TokensView>,
)
    requires
        connect_outcome(s, c1, t1) is Ok,
    ensures
        connect_outcome(after_connect(s, connect_outcome(s, c1, t1)->Ok_0), c2, t2) == Err::<
            PlanView,
            CommandError,
        >(CommandError::AlreadyConnected),
{
}

/// The plan of a `connect` after the one that gave `p`: the same token,
/// user and channel, in the next generation.
pub open spec fn renewed(p: PlanView) -> PlanView {
    PlanView { generation: next_generation(p.generation), ..p }
}

/// Once the client is stopped, by `disconnect` or by the server's reconnect
/// request, `connect` with the same channel and credentials succeeds again,
/// with the same plan in the next generation.
pub proof fn lemma_connect_after_termination(s: SupervisorView, c: Seq<char>, t: Option<TokensView>)
    requires
        connect_outcome(s, c, t) is Ok,
    ensures
        ({
            let p = connect_outcome(s, c, t)->Ok_0;
            let s1 = after_connect(s, p);
            &&& connect_outcome(after_disconnect(s1), c, t) == Ok::<PlanView, CommandError>(
                renewed(p),
            )
            &&& connect_outcome(apply_event(s1, EventView::Reconnect), c, t) == Ok::<
                PlanView,
                CommandError,
            >(renewed(p))
        }),
{
}

/// Before any handshake published an outbound queue, `send` fails with
/// `NotConnected` and changes nothing.
pub proof fn lemma_send_before_handshake(s: SupervisorView, text: Seq<char>)
    requires
        s.outbound is None,
    ensures
        send_outcome(s) == Err::<(), CommandError>(CommandError::NotConnected),
        after_send(s, text) == s,
{
}

/// After `connect` and a session's handshake, `send(text)` succeeds and
/// queues exactly one line, `PRIVMSG <channel> :<text>`.
pub proof fn lemma_send_after_handshake(
    s: SupervisorView,
    c: Seq<char>,
    t: Option<TokensView>,
    text: Seq<char>,
)
    requires
        connect_outcome(s, c, t) is Ok,
    ensures
        ({
            let p = connect_outcome(s, c, t)->Ok_0;
            let s1 = after_publish(after_connect(s, p), p.generation);
            &&& send_outcome(s1) == Ok::<(), CommandError>(())
            &&& after_send(s1, text).outbound == Some(seq![privmsg_line(p.channel, text)])
        }),
{
    let p = connect_outcome(s, c, t)->Ok_0;
    assert(Seq::<Seq<char>>::empty().push(privmsg_line(p.channel, text)) =~= seq![
        privmsg_line(p.channel, text),
    ]);
}

/// `disconnect` when not connected is a no-op: the state stays as it was.
pub proof fn lemma_disconnect_when_idle(s: SupervisorView)
    requires
        !s.running,
        s.outbound is None,
    ensures
        after_disconnect(s) == s,
{
}

} // verus!

//! The single-flight command channel: the decisions of the conversation
//! with the robot, which tolerates one command at a time.
//!
//! The channel is a state machine. Whoever owns the socket feeds it events
//! (a command to run, a reply, a failure of the transport, the time) and
//! carries out the action that each step returns.

use crate::cmd::{answer_of, Command, CommandResult, CommandResultView, CommandView};
use crate::error::Error;
use vstd::prelude::*;

verus! {

/// How long the channel stays busy after a command that gets no reply, in
/// milliseconds.
pub const SETTLE_MS: u64 = 500;

/// The bound on the wait for a reply where none is configured, in
/// milliseconds.
pub const DEFAULT_TIMEOUT_MS: u64 = 5000;

/// How a command is run.
#[derive(Debug, Clone, Copy, PartialEq, Eq, Structural)]
pub enum Mode {
    /// The robot answers the command, and the answer is awaited.
    Request,
    /// The robot does not answer the command: the channel only lets the
    /// settle delay pass.
    FireAndForget,
}

/// Whether a command is in flight.
#[derive(Debug, PartialEq)]
pub enum Session {
    /// No command is outstanding.
    Free,
    /// `pending` was sent at time `issued_at` and has not ended yet.
    Busy { pending: Command, mode: Mode, issued_at: u64 },
}

/// What happens to the channel.
#[derive(Debug, PartialEq)]
pub enum Event {
    /// A caller asks to run `command` at time `now`.
    Submit { command: Command, mode: Mode, now: u64 },
    /// The transport failed to send the command or to receive the reply.
    TransportFailed,
    /// The robot sent `text`.
    Response { text: String },
    /// The time is `now`.
    Clock { now: u64 },
}

/// How a command in flight ended.
#[derive(Debug, PartialEq)]
pub enum Outcome {
    /// A command without reply was sent and the settle delay has passed.
    Sent,
    /// The robot answered.
    Replied(CommandResult),
    /// The command failed: the transport failed, or no reply came in time.
    Failed(Error),
}

/// What the owner of the socket has to do after a step.
#[derive(Debug, PartialEq)]
pub enum Action {
    /// Nothing.
    Idle,
    /// Tell the caller that the command was refused. Nothing is sent.
    Reject(Error),
    /// Send `wire` to the robot; then wait, for at most `wait_ms`
    /// milliseconds, for the reply (mode `Request`) or for nothing at all
    /// (mode `FireAndForget`).
    Transmit { wire: String, mode: Mode, wait_ms: u64 },
    /// Hand the outcome to the caller: the command in flight has ended.
    Complete(Outcome),
}

/// A session as a mathematical value.
pub enum SessionView {
    Free,
    Busy { pending: CommandView, mode: Mode, issued_at: u64 },
}

/// An event as a mathematical value.
pub enum EventView {
    Submit { command: CommandView, mode: Mode, now: u64 },
    TransportFailed,
    Response { text: Seq<char> },
    Clock { now: u64 },
}

/// An outcome as a mathematical value.
pub enum OutcomeView {
    Sent,
    Replied(CommandResultView),
    Failed(Error),
}

/// An action as a mathematical value.
pub enum ActionView {
    Idle,
    Reject(Error),
    Transmit { wire: Seq<char>, mode: Mode, wait_ms: u64 },
    Complete(OutcomeView),
}

impl View for Session {
    type V = SessionView;

    open spec fn view(&self) -> SessionView {
        match *self {
            Session::Free => SessionView::Free,
            Session::Busy { pending, mode, issued_at } => SessionView::Busy {
                pending: pending@,
                mode,
                issued_at,
            },
        }
    }
}

impl View for Event {
    type V = EventView;

    open spec fn view(&self) -> EventView {
        match *self {
            Event::Submit { command, mode, now } => EventView::Submit {
                command: command@,
                mode,
                now,
            },
            Event::TransportFailed => EventView::TransportFailed,
            Event::Response { text } => EventView::Response { text: text@ },
            Event::Clock { now } => EventView::Clock { now },
        }
    }
}

impl View for Outcome {
    type V = OutcomeView;

    open spec fn view(&self) -> OutcomeView {
        match *self {
            Outcome::Sent => OutcomeView::Sent,
            Outcome::Replied(r) => OutcomeView::Replied(r@),
            Outcome::Failed(e) => OutcomeView::Failed(e),
        }
    }
}

impl View for Action {
    type V = ActionView;

    open spec fn view(&self) -> ActionView {
        match *self {
            Action::Idle => ActionView::Idle,
            Action::Reject(e) => ActionView::Reject(e),
            Action::Transmit { wire, mode, wait_ms } => ActionView::Transmit {
                wire: wire@,
                mode,
                wait_ms,
            },
            Action::Complete(o) => ActionView::Complete(o@),
        }
    }
}

/// The channel as a mathematical value: whether a command is in flight,
/// and the bound on the wait for a reply.
pub struct ChannelView {
    pub session: SessionView,
    pub timeout_ms: u64,
}

impl ChannelView {
    /// The channel with its session replaced.
    pub open spec fn with(self, session: SessionView) -> ChannelView {
        ChannelView { session, timeout_ms: self.timeout_ms }
    }

    /// How long a command run in `mode` may stay in flight.
    pub open spec fn limit(self, mode: Mode) -> u64 {
        match mode {
            Mode::Request => self.timeout_ms,
            Mode::FireAndForget => SETTLE_MS,
        }
    }
}

/// The time that has passed from `issued_at` to `now`; none where the
/// clock has gone back.
pub open spec fn elapsed(issued_at: u64, now: u64) -> int {
    if now >= issued_at {
        now - issued_at
    } else {
        0
    }
}

/// How a command in flight ends when its time is up: one without reply has
/// settled, one with a reply has timed out.
pub open spec fn expiry(mode: Mode) -> OutcomeView {
    match mode {
        Mode::Request => OutcomeView::Failed(Error::ResponseTimeout),
        Mode::FireAndForget => OutcomeView::Sent,
    }
}

/// One step of the channel: the state after `event`, and what is to be
/// done.
///
/// A command is taken only by a free channel, and only where it may be
/// sent; the channel is then busy until the command ends: by the reply, by
/// a failure of the transport, or by the passing of its time.
pub open spec fn next(c: ChannelView, event: EventView) -> (ChannelView, ActionView) {
    match c.session {
        SessionView::Free => match event {
            EventView::Submit { command, mode, now } => match command.encode() {
                Err(e) => (c, ActionView::Reject(e)),
                Ok(wire) => (
                    c.with(SessionView::Busy { pending: command, mode, issued_at: now }),
                    ActionView::Transmit { wire, mode, wait_ms: c.limit(mode) },
                ),
            },
            _ => (c, ActionView::Idle),
        },
        SessionView::Busy { pending, mode, issued_at } => match event {
            EventView::Submit { .. } => (c, ActionView::Reject(Error::ChannelBusy)),
            EventView::TransportFailed => (
                c.with(SessionView::Free),
                ActionView::Complete(OutcomeView::Failed(Error::SocketFailure)),
            ),
            EventView::Response { text } => if mode == Mode::Request {
                (
                    c.with(SessionView::Free),
                    ActionView::Complete(OutcomeView::Replied(answer_of(text))),
                )
            } else {
                (c, ActionView::Idle)
            },
            EventView::Clock { now } => if elapsed(issued_at, now) >= c.limit(mode) {
                (c.with(SessionView::Free), ActionView::Complete(expiry(mode)))
            } else {
                (c, ActionView::Idle)
            },
        },
    }
}

/// The conversation with the robot.
pub struct CommandChannel {
    session: Session,
    timeout_ms: u64,
}

impl View for CommandChannel {
    type V = ChannelView;

    closed spec fn view(&self) -> ChannelView {
        ChannelView { session: self.session@, timeout_ms: self.timeout_ms }
    }
}

impl CommandChannel {
    /// A free channel that waits `timeout_ms` milliseconds for a reply.
    pub fn new(timeout_ms: u64) -> (c: CommandChannel)
        ensures
            c@ == (ChannelView { session: SessionView::Free, timeout_ms }),
    {
        CommandChannel { session: Session::Free, timeout_ms }
    }

    /// Whether no command is in flight.
    pub fn is_free(&self) -> (b: bool)
        ensures
            b == (self@.session is Free),
    {
        match &self.session {
            Session::Free => true,
            Session::Busy { .. } => false,
        }
    }

    /// The bound on the wait for a reply, in milliseconds.
    pub fn timeout_ms(&self) -> (t: u64)
        ensures
            t == self@.timeout_ms,
    {
        self.timeout_ms
    }

    /// The command in flight, if any.
    pub fn pending(&self) -> (p: Option<&Command>)
        ensures
            match p {
                Some(command) => self@.session matches SessionView::Busy { pending, .. }
                    && pending == command@,
                None => self@.session is Free,
            },
    {
        match &self.session {
            Session::Free => None,
            Session::Busy { pending, .. } => Some(pending),
        }
    }

    /// The mode and the time of issue of the command in flight, if any.
    fn flight(&self) -> (r: Option<(Mode, u64)>)
        ensures
            match r {
                None => self.session is Free,
                Some((m, t)) => self.session matches Session::Busy { mode, issued_at, .. } && mode
                    == m && issued_at == t,
            },
    {
        match &self.session {
            Session::Free => None,
            Session::Busy { mode, issued_at, .. } => Some((*mode, *issued_at)),
        }
    }

    /// Takes one step: changes the state as `event` demands and returns
    /// what is to be done.
    pub fn step(&mut self, event: Event) -> (action: Action)
        ensures
            (final(self)@, action@) == next(old(self)@, event@),
    {
        match self.flight() {
            None => match event {
                Event::Submit { command, mode, now } => match command.format() {
                    Err(e) => Action::Reject(e),
                    Ok(wire) => {
                        let wait_ms = self.limit(mode);
                        self.session = Session::Busy { pending: command, mode, issued_at: now };
                        Action::Transmit { wire, mode, wait_ms }
                    },
                },
                _ => Action::Idle,
            },
            Some((mode, issued_at)) => match event {
                Event::Submit { .. } => Action::Reject(Error::ChannelBusy),
                Event::TransportFailed => {
                    self.session = Session::Free;
                    Action::Complete(Outcome::Failed(Error::SocketFailure))
                },
                Event::Response { text } => match mode {
                    Mode::Request => {
                        self.session = Session::Free;
                        Action::Complete(Outcome::Replied(CommandResult::from_str(text.as_str())))
                    },
                    Mode::FireAndForget => Action::Idle,
                },
                Event::Clock { now } => {
                    let passed: u64 = if now >= issued_at {
                        now - issued_at
                    } else {
                        0
                    };
                    if passed >= self.limit(mode) {
                        self.session = Session::Free;
                        Action::Complete(
                            match mode {
                                Mode::Request => Outcome::Failed(Error::ResponseTimeout),
                                Mode::FireAndForget => Outcome::Sent,
                            },
                        )
                    } else {
                        Action::Idle
                    }
                },
            },
        }
    }

    /// Whether a command may be repeated every `period_ms` milliseconds: the
    /// period must leave room for the wait for a reply.
    pub fn admits_period(&self, period_ms: u64) -> (b: bool)
        ensures
            b == (period_ms >= self@.timeout_ms),
    {
        period_ms >= self.timeout_ms
    }

    /// How long a command run in `mode` may stay in flight.
    pub fn limit(&self, mode: Mode) -> (t: u64)
        ensures
            t == self@.limit(mode),
    {
        match mode {
            Mode::Request => self.timeout_ms,
            Mode::FireAndForget => SETTLE_MS,
        }
    }
}

/// The channel after the events `events`, and the actions that the steps
/// returned, in order.
pub open spec fn run(c: ChannelView, events: Seq<EventView>) -> (ChannelView, Seq<ActionView>)
    decreases events.len(),
{
    if events.len() == 0 {
        (c, Seq::empty())
    } else {
        let (before, actions) = run(c, events.drop_last());
        let (after, action) = next(before, events.last());
        (after, actions.push(action))
    }
}

/// The number of commands that `actions` sent and did not end.
pub open spec fn in_flight(actions: Seq<ActionView>) -> int
    decreases actions.len(),
{
    if actions.len() == 0 {
        0
    } else {
        in_flight(actions.drop_last()) + match actions.last() {
            ActionView::Transmit { .. } => 1int,
            ActionView::Complete(_) => -1int,
            _ => 0int,
        }
    }
}

/// A command is sent only by a free channel, which is busy afterwards; a
/// command ends only on a busy channel, which is free afterwards; any
/// other step leaves the channel as it was.
pub proof fn lemma_step_shape(c: ChannelView, event: EventView)
    ensures
        next(c, event).0.timeout_ms == c.timeout_ms,
        match next(c, event).1 {
            ActionView::Transmit { .. } => c.session is Free && next(c, event).0.session is Busy,
            ActionView::Complete(_) => c.session is Busy && next(c, event).0.session is Free,
            _ => next(c, event).0 == c,
        },
{
}

/// Single flight: whatever events reach a channel that starts free, and in
/// whatever order, at most one command is sent and not ended at any time,
/// and one is exactly while the channel is busy.
pub proof fn lemma_single_flight(c: ChannelView, events: Seq<EventView>)
    requires
        c.session is Free,
    ensures
        run(c, events).0.session is Free <==> in_flight(run(c, events).1) == 0,
        run(c, events).0.session is Busy <==> in_flight(run(c, events).1) == 1,
        run(c, events).1.len() == events.len(),
    decreases events.len(),
{
    if events.len() > 0 {
        lemma_single_flight(c, events.drop_last());
        let (before, actions) = run(c, events.drop_last());
        lemma_step_shape(before, events.last());
        let action = next(before, events.last()).1;
        assert(actions.push(action).drop_last() =~= actions);
    }
}

/// A busy channel refuses every command, and sends nothing.
pub proof fn lemma_busy_refuses(c: ChannelView, command: CommandView, mode: Mode, now: u64)
    requires
        c.session is Busy,
    ensures
        next(c, EventView::Submit { command, mode, now }) == (
            c,
            ActionView::Reject(Error::ChannelBusy),
        ),
{
}

/// A reply that does not come: once the bound has passed, the command ends
/// as timed out and the channel is free; a command that may be sent is then
/// taken at once, at whatever time it comes.
pub proof fn lemma_timeout_frees(
    c: ChannelView,
    now: u64,
    command: CommandView,
    mode: Mode,
    later: u64,
)
    requires
        c.session matches SessionView::Busy { mode: Mode::Request, issued_at, .. } && elapsed(
            issued_at,
            now,
        ) >= c.timeout_ms,
    ensures
        next(c, EventView::Clock { now }) == (
            c.with(SessionView::Free),
            ActionView::Complete(OutcomeView::Failed(Error::ResponseTimeout)),
        ),
        command.sendable() is Ok ==> next(
            c.with(SessionView::Free),
            EventView::Submit { command, mode, now: later },
        ).1 is Transmit,
{
}

/// A failure of the transport ends the command in flight and no more: the
/// channel is free afterwards and takes the next command that may be sent.
pub proof fn lemma_failure_is_local(c: ChannelView, command: CommandView, mode: Mode, now: u64)
    requires
        c.session is Busy,
    ensures
        next(c, EventView::TransportFailed) == (
            c.with(SessionView::Free),
            ActionView::Complete(OutcomeView::Failed(Error::SocketFailure)),
        ),
        command.sendable() is Ok ==> next(
            c.with(SessionView::Free),
            EventView::Submit { command, mode, now },
        ).1 is Transmit,
{
}

/// A command that may not be sent never reaches the wire: a free channel
/// refuses it with the reason, and stays free.
pub proof fn lemma_invalid_never_sent(c: ChannelView, command: CommandView, mode: Mode, now: u64)
    requires
        c.session is Free,
        command.sendable() is Err,
    ensures
        next(c, EventView::Submit { command, mode, now }) == (
            c,
            ActionView::Reject(command.sendable()->Err_0),
        ),
{
}

} // verus!

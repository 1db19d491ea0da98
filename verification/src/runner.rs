//! Connection-lifecycle runner: the state machine that ties decoding,
//! dispatch and the rate-limited writer together.  The surrounding
//! loop performs transport reads and writes and hands the observed
//! events in; every decision — which state follows which event, when
//! the idle deadline fires, what a write attempt yields — is made
//! here.

use crate::encoder::{
    encode, encode_wire_spec, valid_command, validate, Command, ValidationError,
};
use crate::rate_limit::{Acquire, BlockingStrategy, RateLimiter};
use vstd::prelude::*;

verus! {

/// Why a connection ended.
#[derive(Clone, Copy, Debug, PartialEq, Eq, Structural)]
pub enum Status {
    /// The remote side closed cleanly.
    Eof,
    /// No bytes arrived within the idle window.
    TimedOut,
    /// Shutdown was requested explicitly.
    Cancelled,
}

/// The lifecycle states, in the order they are passed through.
#[derive(Clone, Copy, Debug, PartialEq, Eq, Structural)]
pub enum RunnerState {
    Connecting,
    Registering,
    WaitingReady,
    Running,
    Closing,
    Terminated(Status),
}

/// What the surrounding loop observed and hands to `on_event`.
#[derive(Clone, Copy, Debug, PartialEq, Eq, Structural)]
pub enum RunnerEvent {
    /// The transport is established.
    TransportConnected,
    /// The registration handshake went out.
    RegistrationSent,
    /// The designated ready shape was delivered.
    ReadyReceived,
    /// A read completed and its messages were dispatched.
    MessageRead,
    /// The remote side closed cleanly.
    RemoteClosed,
    /// The idle deadline elapsed before a read completed.
    IdleTimeout,
    /// `quit` was sent or cancellation was signalled.
    CancelRequested,
    /// The pending quit has been flushed.
    QuitFlushed,
}

/// Position of a state in the lifecycle order.
pub open spec fn state_rank(s: RunnerState) -> int {
    match s {
        RunnerState::Connecting => 0,
        RunnerState::Registering => 1,
        RunnerState::WaitingReady => 2,
        RunnerState::Running => 3,
        RunnerState::Closing => 4,
        RunnerState::Terminated(_) => 5,
    }
}

/// The transition function.  An event that makes no sense in the
/// current state leaves it unchanged; a terminated state never moves.
pub open spec fn next_state(s: RunnerState, e: RunnerEvent) -> RunnerState {
    match (s, e) {
        (RunnerState::Connecting, RunnerEvent::TransportConnected) => RunnerState::Registering,
        (RunnerState::Registering, RunnerEvent::RegistrationSent) => RunnerState::WaitingReady,
        (RunnerState::WaitingReady, RunnerEvent::ReadyReceived) => RunnerState::Running,
        (RunnerState::Running, RunnerEvent::MessageRead) => RunnerState::Running,
        (RunnerState::WaitingReady, RunnerEvent::RemoteClosed) => RunnerState::Terminated(
            Status::Eof,
        ),
        (RunnerState::Running, RunnerEvent::RemoteClosed) => RunnerState::Terminated(Status::Eof),
        (RunnerState::Closing, RunnerEvent::RemoteClosed) => RunnerState::Terminated(
            Status::Cancelled,
        ),
        (RunnerState::WaitingReady, RunnerEvent::IdleTimeout) => RunnerState::Terminated(
            Status::TimedOut,
        ),
        (RunnerState::Running, RunnerEvent::IdleTimeout) => RunnerState::Terminated(
            Status::TimedOut,
        ),
        (RunnerState::WaitingReady, RunnerEvent::CancelRequested) => RunnerState::Closing,
        (RunnerState::Running, RunnerEvent::CancelRequested) => RunnerState::Closing,
        (RunnerState::Closing, RunnerEvent::QuitFlushed) => RunnerState::Terminated(
            Status::Cancelled,
        ),
        _ => s,
    }
}

/// Transitions are monotonic: the lifecycle only moves forward, the
/// one state entered again is `Running`, and a terminated state never
/// changes.
pub proof fn lemma_transitions_monotonic(s: RunnerState, e: RunnerEvent)
    ensures
        state_rank(next_state(s, e)) >= state_rank(s),
        next_state(s, e) != s ==> state_rank(next_state(s, e)) > state_rank(s),
        s is Terminated ==> next_state(s, e) == s,
{
}

/// Runner termination: in the steady state a clean close ends with
/// `Eof`, silence beyond the idle window with `TimedOut`, and an
/// explicit quit — once the pending quit is flushed or the remote
/// side hangs up — with `Cancelled`.
pub proof fn lemma_terminal_statuses()
    ensures
        next_state(RunnerState::Running, RunnerEvent::RemoteClosed) == RunnerState::Terminated(
            Status::Eof,
        ),
        next_state(RunnerState::Running, RunnerEvent::IdleTimeout) == RunnerState::Terminated(
            Status::TimedOut,
        ),
        next_state(
            next_state(RunnerState::Running, RunnerEvent::CancelRequested),
            RunnerEvent::QuitFlushed,
        ) == RunnerState::Terminated(Status::Cancelled),
        next_state(
            next_state(RunnerState::Running, RunnerEvent::CancelRequested),
            RunnerEvent::RemoteClosed,
        ) == RunnerState::Terminated(Status::Cancelled),
{
}

/// A write attempt that did not reach the transport.
#[derive(Clone, Copy, Debug, PartialEq, Eq, Structural)]
pub enum WriteError {
    /// The command failed validation; nothing was consumed or sent.
    Invalid(ValidationError),
    /// Tokens were short under `NoBlock`.
    RateLimited,
    /// Tokens were short under `Block`: wait until the carried time
    /// and retry once.
    WaitUntil(u64),
}

/// Lifecycle state plus the idle-read deadline bookkeeping.
pub struct Runner {
    state: RunnerState,
    idle_timeout_ms: u64,
    last_read_ms: u64,
}

impl Runner {
    /// The current lifecycle state.
    pub closed spec fn state(self) -> RunnerState {
        self.state
    }

    /// The configured idle window.
    pub closed spec fn idle_timeout_ms(self) -> u64 {
        self.idle_timeout_ms
    }

    /// When the last read completed.
    pub closed spec fn last_read_ms(self) -> u64 {
        self.last_read_ms
    }

    /// A fresh runner for one connection attempt.
    pub fn new(idle_timeout_ms: u64, now_ms: u64) -> (r: Runner)
        ensures
            r.state() == RunnerState::Connecting,
            r.idle_timeout_ms() == idle_timeout_ms,
            r.last_read_ms() == now_ms,
    {
        Runner { state: RunnerState::Connecting, idle_timeout_ms, last_read_ms: now_ms }
    }

    /// The current lifecycle state, for observers.
    pub fn current_state(&self) -> (r: RunnerState)
        ensures
            r == self.state(),
    {
        self.state
    }

    /// Feed one observed event.  The state moves exactly as
    /// `next_state` says; a completed read refreshes the idle
    /// deadline; the returned status is the terminal one, if the
    /// lifecycle has ended.
    pub fn on_event(&mut self, e: RunnerEvent, now_ms: u64) -> (done: Option<Status>)
        ensures
            final(self).state() == next_state(old(self).state(), e),
            final(self).idle_timeout_ms() == old(self).idle_timeout_ms(),
            final(self).last_read_ms() == if e == RunnerEvent::MessageRead {
                now_ms
            } else {
                old(self).last_read_ms()
            },
            match done {
                Some(st) => final(self).state() == RunnerState::Terminated(st),
                None => !(final(self).state() is Terminated),
            },
    {
        self.state = match (self.state, e) {
            (RunnerState::Connecting, RunnerEvent::TransportConnected) => RunnerState::Registering,
            (RunnerState::Registering, RunnerEvent::RegistrationSent) => RunnerState::WaitingReady,
            (RunnerState::WaitingReady, RunnerEvent::ReadyReceived) => RunnerState::Running,
            (RunnerState::Running, RunnerEvent::MessageRead) => RunnerState::Running,
            (RunnerState::WaitingReady, RunnerEvent::RemoteClosed) => RunnerState::Terminated(
                Status::Eof,
            ),
            (RunnerState::Running, RunnerEvent::RemoteClosed) => RunnerState::Terminated(
                Status::Eof,
            ),
            (RunnerState::Closing, RunnerEvent::RemoteClosed) => RunnerState::Terminated(
                Status::Cancelled,
            ),
            (RunnerState::WaitingReady, RunnerEvent::IdleTimeout) => RunnerState::Terminated(
                Status::TimedOut,
            ),
            (RunnerState::Running, RunnerEvent::IdleTimeout) => RunnerState::Terminated(
                Status::TimedOut,
            ),
            (RunnerState::WaitingReady, RunnerEvent::CancelRequested) => RunnerState::Closing,
            (RunnerState::Running, RunnerEvent::CancelRequested) => RunnerState::Closing,
            (RunnerState::Closing, RunnerEvent::QuitFlushed) => RunnerState::Terminated(
                Status::Cancelled,
            ),
            (s, _) => s,
        };
        if e == RunnerEvent::MessageRead {
            self.last_read_ms = now_ms;
        }
        match self.state {
            RunnerState::Terminated(st) => Some(st),
            _ => None,
        }
    }

    /// Whether the idle window has elapsed with no completed read.
    pub fn idle_expired(&self, now_ms: u64) -> (r: bool)
        requires
            now_ms >= self.last_read_ms(),
        ensures
            r == (now_ms - self.last_read_ms() >= self.idle_timeout_ms()),
    {
        now_ms - self.last_read_ms >= self.idle_timeout_ms
    }
}

/// One pass of the writer pipeline: validation, then the token
/// bucket, then the wire encoding.  The first failing stage is
/// returned and nothing later runs: an invalid command consumes no
/// token, a rate-limited one sends no bytes.  On success the returned
/// bytes are exactly the command's wire form, ready for the
/// transport.
pub fn prepare_write(
    c: &Command,
    limiter: &mut RateLimiter,
    now_ms: u64,
    strategy: BlockingStrategy,
) -> (r: Result<Vec<u8>, WriteError>)
    requires
        old(limiter).wf(),
        now_ms >= old(limiter).last_ms(),
    ensures
        final(limiter).wf(),
        final(limiter).capacity() == old(limiter).capacity(),
        final(limiter).period_ms() == old(limiter).period_ms(),
        !valid_command(c@) ==> r is Err && *final(limiter) == *old(limiter) && matches!(
            r,
            Err(WriteError::Invalid(_)),
        ),
        valid_command(c@) ==> ({
            let avail = old(limiter).refill_spec(now_ms);
            if avail >= 1 {
                match r {
                    Ok(bytes) => bytes@ == encode_wire_spec(c@) && final(limiter).tokens() == avail
                        - 1 && final(limiter).last_ms() == now_ms,
                    Err(_) => false,
                }
            } else {
                match (strategy, r) {
                    (BlockingStrategy::NoBlock, Err(WriteError::RateLimited)) => true,
                    (BlockingStrategy::Block, Err(WriteError::WaitUntil(_))) => true,
                    _ => false,
                }
            }
        }),
{
    match validate(c) {
        Err(e) => Err(WriteError::Invalid(e)),
        Ok(_) => {
            match limiter.acquire_at(1, now_ms, strategy) {
                Acquire::Granted => Ok(encode(c)),
                Acquire::RateLimited => Err(WriteError::RateLimited),
                Acquire::WaitUntil(d) => Err(WriteError::WaitUntil(d)),
            }
        },
    }
}

/// The privileged quit: its wire bytes, handed out with no token
/// consumed — sending it is always permitted, and the runner is moved
/// to `Closing` by the accompanying `CancelRequested` event.
pub fn prepare_quit() -> (v: Vec<u8>)
    ensures
        v@ == encode_wire_spec(crate::encoder::CommandSpec::Quit),
{
    encode(&Command::Quit)
}

} // verus!

//! The rules of non-blocking message I/O: one attempt, and after an attempt
//! that would block a wait for readiness and another attempt.
//!
//! The functions here decide; they perform no I/O. The caller makes the
//! system calls and the waits that [`MessageIo::action`] asks for, and
//! reports what came of them with [`MessageIo::on_event`].

use vstd::prelude::*;

verus! {

/// Error number of an attempt that would block.
pub const EAGAIN: i32 = 11;

/// Flag of a received message: control data was cut off.
pub const MSG_CTRUNC: i32 = 8;

/// Flag of a send or receive call: raise no signal when the peer is gone.
pub const MSG_NOSIGNAL: i32 = 0x4000;

/// Flag of a receive call: received file descriptors are closed on exec.
pub const MSG_CMSG_CLOEXEC: i32 = 0x4000_0000;

/// The flags of every send call.
pub const SEND_MSG_DEFAULT_FLAGS: i32 = 0x4000;

/// The flags of every receive call.
pub const RECV_MSG_DEFAULT_FLAGS: i32 = 0x4000_4000;

/// Every receive call asks that received file descriptors are closed on
/// exec, so that no time passes between their arrival and the flag; and
/// neither a send nor a receive call raises a signal.
pub proof fn lemma_default_flags()
    ensures
        RECV_MSG_DEFAULT_FLAGS & MSG_CMSG_CLOEXEC == MSG_CMSG_CLOEXEC,
        RECV_MSG_DEFAULT_FLAGS & MSG_NOSIGNAL == MSG_NOSIGNAL,
        SEND_MSG_DEFAULT_FLAGS & MSG_NOSIGNAL == MSG_NOSIGNAL,
        RECV_MSG_DEFAULT_FLAGS == MSG_NOSIGNAL | MSG_CMSG_CLOEXEC,
{
    assert(0x4000_4000i32 & 0x4000_0000i32 == 0x4000_0000i32) by (bit_vector);
    assert(0x4000_4000i32 & 0x4000i32 == 0x4000i32) by (bit_vector);
    assert(0x4000i32 & 0x4000i32 == 0x4000i32) by (bit_vector);
    assert(0x4000i32 | 0x4000_0000i32 == 0x4000_4000i32) by (bit_vector);
}

/// An error of the operating system, by its number.
#[derive(Debug, Clone, Copy, PartialEq, Eq, Structural)]
pub struct OsError {
    /// The error number.
    pub code: i32,
}

impl OsError {
    /// The error with the given number.
    pub fn from_raw_os_error(code: i32) -> (r: Self)
        ensures
            r.code == code,
    {
        OsError { code }
    }

    /// The number of the error.
    pub fn raw_os_error(&self) -> (r: i32)
        ensures
            r == self.code,
    {
        self.code
    }

    /// Whether the error says that the call would have had to block.
    pub open spec fn would_block(&self) -> bool {
        self.code == EAGAIN
    }

    /// Whether the error says that the call would have had to block.
    pub fn is_would_block(&self) -> (r: bool)
        ensures
            r == self.would_block(),
    {
        self.code == EAGAIN
    }
}

/// Tells the size that a system call returned from its failure: a negative
/// value is the error `os_error`, any other value is the size.
pub fn check_returned_size(ret: isize, os_error: i32) -> (r: Result<usize, OsError>)
    ensures
        r == if ret < 0 {
            Err::<usize, OsError>(OsError { code: os_error })
        } else {
            Ok::<usize, OsError>(ret as usize)
        },
{
    if ret < 0 {
        Err(OsError { code: os_error })
    } else {
        Ok(ret as usize)
    }
}

/// Whether the flags of a received message say that control data was cut
/// off.
pub fn control_truncated(msg_flags: i32) -> (r: bool)
    ensures
        r == (msg_flags & MSG_CTRUNC != 0),
{
    msg_flags & MSG_CTRUNC != 0
}

/// The readiness that an operation waits for.
#[derive(Debug, Clone, Copy, PartialEq, Eq, Structural)]
pub enum Direction {
    /// The socket can be read from: a receive can make progress.
    Read,
    /// The socket can be written to: a send can make progress.
    Write,
}

/// Where an operation stands.
#[derive(Debug, Clone, Copy, PartialEq, Eq)]
pub enum IoState {
    /// The system call is to be attempted.
    AttemptIo,
    /// The last attempt would have blocked: readiness is to be awaited.
    AwaitReadiness,
    /// The operation is over, with the size transferred or an error.
    Terminal(Result<usize, OsError>),
}

/// What came of the action that an operation asked for.
#[derive(Debug, Clone, Copy, PartialEq, Eq)]
pub enum IoEvent {
    /// The system call was attempted, with this result.
    Attempted(Result<usize, OsError>),
    /// The wait for readiness is over: the socket is ready, or the wait
    /// failed.
    Ready(Result<(), OsError>),
}

/// What the caller has to do next.
#[derive(Debug, Clone, Copy, PartialEq, Eq)]
pub enum IoAction {
    /// Attempt the system call once.
    Attempt,
    /// Clear the readiness and wait until the socket is ready again.
    Wait(Direction),
    /// Hand this result to the caller: the operation is over.
    Return(Result<usize, OsError>),
}

/// The state after an event. An attempt ends the operation unless it would
/// have blocked; then readiness is awaited, and when it comes the call is
/// attempted again. A failed wait ends the operation. An event that the
/// state did not ask for changes nothing.
pub open spec fn step(state: IoState, event: IoEvent) -> IoState {
    match (state, event) {
        (IoState::AttemptIo, IoEvent::Attempted(Ok(size))) => IoState::Terminal(Ok(size)),
        (IoState::AttemptIo, IoEvent::Attempted(Err(error))) => if error.would_block() {
            IoState::AwaitReadiness
        } else {
            IoState::Terminal(Err(error))
        },
        (IoState::AwaitReadiness, IoEvent::Ready(Ok(_))) => IoState::AttemptIo,
        (IoState::AwaitReadiness, IoEvent::Ready(Err(error))) => IoState::Terminal(Err(error)),
        (state, _) => state,
    }
}

/// The state after a row of events.
pub open spec fn run(state: IoState, events: Seq<IoEvent>) -> IoState
    decreases events.len(),
{
    if events.len() == 0 {
        state
    } else {
        run(step(state, events[0]), events.skip(1))
    }
}

/// What a state asks of the caller.
pub open spec fn action_of(state: IoState, direction: Direction) -> IoAction {
    match state {
        IoState::AttemptIo => IoAction::Attempt,
        IoState::AwaitReadiness => IoAction::Wait(direction),
        IoState::Terminal(result) => IoAction::Return(result),
    }
}

/// An attempt that would block followed by the readiness it waited for: one
/// round of the retry loop.
pub open spec fn retry_round() -> Seq<IoEvent> {
    seq![IoEvent::Attempted(Err(OsError { code: EAGAIN })), IoEvent::Ready(Ok(()))]
}

/// `rounds` rounds of the retry loop, one after the other.
pub open spec fn retry_rounds(rounds: nat) -> Seq<IoEvent>
    decreases rounds,
{
    if rounds == 0 {
        Seq::empty()
    } else {
        retry_round() + retry_rounds((rounds - 1) as nat)
    }
}

/// An operation that is over stays over, with the same result.
pub proof fn lemma_terminal_stays(result: Result<usize, OsError>, events: Seq<IoEvent>)
    ensures
        run(IoState::Terminal(result), events) == IoState::Terminal(result),
    decreases events.len(),
{
    if events.len() > 0 {
        lemma_terminal_stays(result, events.skip(1));
    }
}

/// An attempt that would block never ends the operation, and its error is
/// never handed to the caller: the error of an ended operation is the error
/// of an attempt that would not block, or of a failed wait.
pub proof fn lemma_would_block_is_not_surfaced(state: IoState, event: IoEvent)
    requires
        !(state is Terminal),
    ensures
        event matches IoEvent::Attempted(Err(error)) && error.would_block() ==> !(step(
            state,
            event,
        ) is Terminal),
        step(state, event) matches IoState::Terminal(Err(error)) ==> {
            ||| state is AttemptIo && event == IoEvent::Attempted(Err(error))
                && !error.would_block()
            ||| state is AwaitReadiness && event == IoEvent::Ready(Err::<(), OsError>(error))
        },
        step(state, event) matches IoState::Terminal(Ok(size)) ==> state is AttemptIo && event
            == IoEvent::Attempted(Ok::<usize, OsError>(size)),
{
}

/// Running a row of events and then another is running the two in a row.
pub proof fn lemma_run_concat(state: IoState, first: Seq<IoEvent>, second: Seq<IoEvent>)
    ensures
        run(state, first + second) == run(run(state, first), second),
    decreases first.len(),
{
    if first.len() == 0 {
        assert(first + second =~= second);
    } else {
        assert((first + second).skip(1) =~= first.skip(1) + second);
        lemma_run_concat(step(state, first[0]), first.skip(1), second);
    }
}

/// Any number of rounds of the retry loop leaves the operation at a new
/// attempt, and the result of the attempt that then does not block ends it:
/// the size verbatim, or the error verbatim.
pub proof fn lemma_retry_until_done(rounds: nat, last: Result<usize, OsError>)
    requires
        last matches Err(error) ==> !error.would_block(),
    ensures
        run(IoState::AttemptIo, retry_rounds(rounds)) == IoState::AttemptIo,
        run(IoState::AttemptIo, retry_rounds(rounds).push(IoEvent::Attempted(last)))
            == IoState::Terminal(last),
    decreases rounds,
{
    let done = seq![IoEvent::Attempted(last)];
    if rounds > 0 {
        let rest = retry_rounds((rounds - 1) as nat);
        lemma_retry_until_done((rounds - 1) as nat, last);
        let round = retry_round();
        assert(round.skip(1).skip(1) =~= Seq::<IoEvent>::empty());
        assert(run(IoState::AttemptIo, round) == run(IoState::AwaitReadiness, round.skip(1)));
        assert(run(IoState::AwaitReadiness, round.skip(1)) == run(
            IoState::AttemptIo,
            round.skip(1).skip(1),
        ));
        lemma_run_concat(IoState::AttemptIo, round, rest);
    }
    assert(retry_rounds(rounds).push(IoEvent::Attempted(last)) =~= retry_rounds(rounds) + done);
    lemma_run_concat(IoState::AttemptIo, retry_rounds(rounds), done);
    assert(run(IoState::AttemptIo, done) == run(step(IoState::AttemptIo, done[0]), done.skip(1)));
}

/// One send or receive in progress.
#[derive(Debug, Clone, Copy)]
pub struct MessageIo {
    direction: Direction,
    state: IoState,
}

impl MessageIo {
    /// The readiness that the operation waits for.
    pub closed spec fn direction(&self) -> Direction {
        self.direction
    }

    /// Where the operation stands.
    pub closed spec fn state(&self) -> IoState {
        self.state
    }

    /// A new operation. It starts with an attempt.
    pub fn new(direction: Direction) -> (r: Self)
        ensures
            r.direction() == direction,
            r.state() == IoState::AttemptIo,
    {
        MessageIo { direction, state: IoState::AttemptIo }
    }

    /// A send: it waits until the socket can be written to.
    pub fn send() -> (r: Self)
        ensures
            r.direction() == Direction::Write,
            r.state() == IoState::AttemptIo,
    {
        MessageIo::new(Direction::Write)
    }

    /// A receive: it waits until the socket can be read from.
    pub fn recv() -> (r: Self)
        ensures
            r.direction() == Direction::Read,
            r.state() == IoState::AttemptIo,
    {
        MessageIo::new(Direction::Read)
    }

    /// What the caller has to do next.
    pub fn action(&self) -> (r: IoAction)
        ensures
            r == action_of(self.state(), self.direction()),
    {
        match self.state {
            IoState::AttemptIo => IoAction::Attempt,
            IoState::AwaitReadiness => IoAction::Wait(self.direction),
            IoState::Terminal(result) => IoAction::Return(result),
        }
    }

    /// Takes in what came of the last action, and gives the next one.
    pub fn on_event(&mut self, event: IoEvent) -> (r: IoAction)
        ensures
            final(self).direction() == old(self).direction(),
            final(self).state() == step(old(self).state(), event),
            r == action_of(final(self).state(), final(self).direction()),
    {
        let next: IoState = match (self.state, event) {
            (IoState::AttemptIo, IoEvent::Attempted(Ok(size))) => IoState::Terminal(Ok(size)),
            (IoState::AttemptIo, IoEvent::Attempted(Err(error))) => if error.is_would_block() {
                IoState::AwaitReadiness
            } else {
                IoState::Terminal(Err(error))
            },
            (IoState::AwaitReadiness, IoEvent::Ready(Ok(_))) => IoState::AttemptIo,
            (IoState::AwaitReadiness, IoEvent::Ready(Err(error))) => IoState::Terminal(
                Err(error),
            ),
            (state, _) => state,
        };
        self.state = next;
        self.action()
    }

    /// Whether the operation is over.
    pub fn is_terminal(&self) -> (r: bool)
        ensures
            r == (self.state() is Terminal),
    {
        match self.state {
            IoState::Terminal(_) => true,
            _ => false,
        }
    }

    /// The result of the operation, once it is over.
    pub fn result(&self) -> (r: Option<Result<usize, OsError>>)
        ensures
            r == match self.state() {
                IoState::Terminal(result) => Some(result),
                _ => None,
            },
    {
        match self.state {
            IoState::Terminal(result) => Some(result),
            _ => None,
        }
    }
}

} // verus!

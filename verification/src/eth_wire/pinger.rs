use vstd::prelude::*;
use crate::eth_wire::errors::PingerError;

verus! {

/// Where the exchange of pings stands.
#[derive(Clone, Copy, Debug, PartialEq, Eq, Structural)]
pub enum PingState {
    /// No ping is out.
    Ready,
    /// A ping is out and no pong has come for it yet.
    WaitingForPong,
    /// No pong came in time.
    TimedOut,
}

/// What the exchange of pings asks for.
#[derive(Clone, Copy, Debug, PartialEq, Eq, Structural)]
pub enum PingerEvent {
    /// A ping is to be sent.
    Ping,
    /// The peer has timed out.
    Timeout,
}

/// The timer that the exchange of pings waits for.
#[derive(Clone, Copy, Debug, PartialEq, Eq, Structural)]
pub enum PingTimer {
    /// The one that says when the next ping is due.
    Interval,
    /// The one that says when a pong is overdue.
    Timeout,
    /// None.
    Never,
}

/// Sends pings, waits for pongs, and times out where none comes.
///
/// The timers themselves run elsewhere: the interval timer starts anew when a pong is taken, the
/// timeout timer when a ping is sent.
#[derive(Clone, Copy, Debug, PartialEq, Eq, Structural)]
pub struct Pinger {
    pub state: PingState,
}

/// The timer that a state waits for.
pub open spec fn timer_of(state: PingState) -> PingTimer {
    match state {
        PingState::Ready => PingTimer::Interval,
        PingState::WaitingForPong => PingTimer::Timeout,
        PingState::TimedOut => PingTimer::Never,
    }
}

/// What happens when a pong comes: the next state, and whether it was waited for.
pub open spec fn ponged(state: PingState) -> (PingState, Result<(), PingerError>) {
    (
        PingState::Ready,
        match state {
            PingState::Ready => Err(PingerError::UnexpectedPong),
            _ => Ok(()),
        },
    )
}

/// What happens when the timer of a state has fired: the next state, and what is asked for.
pub open spec fn fired(state: PingState) -> (PingState, Option<PingerEvent>) {
    match state {
        PingState::Ready => (PingState::WaitingForPong, Some(PingerEvent::Ping)),
        PingState::WaitingForPong => (PingState::TimedOut, Some(PingerEvent::Timeout)),
        PingState::TimedOut => (PingState::TimedOut, None),
    }
}

impl Pinger {
    /// Starts without a ping out.
    pub fn new() -> (r: Pinger)
        ensures
            r.state == PingState::Ready,
    {
        Pinger { state: PingState::Ready }
    }

    /// Takes a pong. One for which no ping is out is an error. One that comes after the timeout
    /// is taken too: the connection is alive.
    pub fn on_pong(&mut self) -> (r: Result<(), PingerError>)
        ensures
            final(self).state == PingState::Ready,
            r == (if old(self).state == PingState::Ready {
                Err(PingerError::UnexpectedPong)
            } else {
                Ok(())
            }),
            (final(self).state, r) == ponged(old(self).state),
    {
        match self.state {
            PingState::Ready => Err(PingerError::UnexpectedPong),
            PingState::WaitingForPong => {
                self.state = PingState::Ready;
                Ok(())
            },
            PingState::TimedOut => {
                self.state = PingState::Ready;
                Ok(())
            },
        }
    }

    /// Where the exchange stands.
    pub fn state(&self) -> (r: PingState)
        ensures
            r == self.state,
    {
        self.state
    }

    /// The timer that the state waits for.
    pub fn waits_for(&self) -> (r: PingTimer)
        ensures
            r == (match self.state {
                PingState::Ready => PingTimer::Interval,
                PingState::WaitingForPong => PingTimer::Timeout,
                PingState::TimedOut => PingTimer::Never,
            }),
            r == timer_of(self.state),
    {
        match self.state {
            PingState::Ready => PingTimer::Interval,
            PingState::WaitingForPong => PingTimer::Timeout,
            PingState::TimedOut => PingTimer::Never,
        }
    }

    /// Goes on, told whether the timer that the state waits for has fired.
    pub fn poll_ping(&mut self, has_fired: bool) -> (r: Option<PingerEvent>)
        ensures
            !has_fired ==> final(self).state == old(self).state && r is None,
            has_fired ==> (final(self).state, r) == fired(old(self).state),
    {
        match self.state {
            PingState::Ready => {
                if has_fired {
                    self.state = PingState::WaitingForPong;
                    return Some(PingerEvent::Ping);
                }
            },
            PingState::WaitingForPong => {
                if has_fired {
                    self.state = PingState::TimedOut;
                    return Some(PingerEvent::Timeout);
                }
            },
            PingState::TimedOut => {},
        }
        None
    }
}

/// A timeout is told only while a ping is out, and only once: after it nothing more is asked for
/// until a pong comes.
pub proof fn lemma_timeout_once(state: PingState)
    ensures
        fired(state).1 == Some(PingerEvent::Timeout) <==> state == PingState::WaitingForPong,
        fired(state).1 == Some(PingerEvent::Timeout) ==> fired(fired(state).0).1 is None,
        fired(state).1 == Some(PingerEvent::Ping) ==> fired(state).0 == PingState::WaitingForPong,
{
}

/// A ping is asked for exactly where none is out and none has timed out, and a timer that fires asks
/// for a ping or tells a timeout before it is silent.
pub proof fn lemma_ping_when_ready(state: PingState)
    ensures
        fired(state).1 == Some(PingerEvent::Ping) <==> state == PingState::Ready,
        fired(fired(PingState::Ready).0).1 == Some(PingerEvent::Timeout),
        fired(state).1 is None <==> state == PingState::TimedOut,
        fired(state).1 is None ==> fired(state).0 == state,
        fired(state).0 != PingState::Ready,
{
}

/// Each state waits for the timer that does something in it: where none is out, for the next ping;
/// where one is, for its timeout; behind a timeout, for none.
pub proof fn lemma_states_wait_for_their_timers(state: PingState)
    ensures
        timer_of(state) == PingTimer::Interval <==> fired(state).1 == Some(PingerEvent::Ping),
        timer_of(state) == PingTimer::Timeout <==> fired(state).1 == Some(PingerEvent::Timeout),
        timer_of(state) == PingTimer::Never <==> fired(state).1 is None,
{
}

/// A pong is taken exactly where a ping was sent that is not answered, even when it comes late, and
/// the exchange starts anew behind it.
pub proof fn lemma_pongs_answer_pings(state: PingState)
    ensures
        fired(state).1 == Some(PingerEvent::Ping) ==> ponged(fired(state).0).1 is Ok,
        ponged(fired(state).0).1 is Ok,
        ponged(state).1 is Err <==> fired(state).1 == Some(PingerEvent::Ping),
        fired(ponged(state).0).1 == Some(PingerEvent::Ping),
        ponged(ponged(state).0).1 == Err::<(), PingerError>(PingerError::UnexpectedPong),
{
}

} // verus!

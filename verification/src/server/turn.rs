//! The turns of the server: what is done in each, and in which order.

use vstd::prelude::*;

verus! {

/// What the server does in a turn, in order.
#[derive(Debug, Clone, Copy, PartialEq, Eq, Structural)]
pub enum Phase {
    /// Waits for something to happen, for at most a second.
    Poll,
    /// Closes all clients, if the server was asked to shut down.
    Close,
    /// Tells the clients whose timers fired.
    Timeouts,
    /// Drops the sessions that ended.
    Sessions,
    /// Drops the clients that are gone.
    Clients,
    /// Receives all packets that have arrived.
    Receive,
    /// Sends the packets that are queued.
    Queue,
    /// Closes the streams whose workers are done.
    Workers,
    /// Writes messages and datagrams to the clients that do not drain.
    Write,
    /// Gathers the packets of all clients, and sets their timers.
    Gather,
    /// Sends the packets that were gathered.
    Send,
    /// The server is done.
    Exit,
}

/// How a phase ended.
#[derive(Debug, Clone, Copy, PartialEq, Eq, Structural)]
pub enum Outcome {
    Done,
    /// Waiting was interrupted.
    Interrupted,
    /// The socket takes no more.
    Blocked,
    /// The server shuts down, and no client is left.
    Deserted,
    Failed,
}

/// Why the server is done. The loop of the server returns only on error, and
/// that it was shut down is one.
#[derive(Debug, Clone, Copy, PartialEq, Eq, Structural)]
pub enum ServerEnd {
    /// It was asked to shut down, and no client is left.
    ShutDown,
    /// A phase failed.
    Failed,
}

impl Phase {
    /// The next phase of a turn; after the last, the next turn begins.
    pub open spec fn next(self) -> Phase {
        match self {
            Phase::Poll => Phase::Close,
            Phase::Close => Phase::Timeouts,
            Phase::Timeouts => Phase::Sessions,
            Phase::Sessions => Phase::Clients,
            Phase::Clients => Phase::Receive,
            Phase::Receive => Phase::Queue,
            Phase::Queue => Phase::Workers,
            Phase::Workers => Phase::Write,
            Phase::Write => Phase::Gather,
            Phase::Gather => Phase::Send,
            Phase::Send => Phase::Poll,
            Phase::Exit => self,
        }
    }

    /// What follows a phase. The server is done if the phase failed, or if it
    /// shuts down and everyone has left; either is an error that ends its loop.
    /// A turn ends early if nothing can be awaited or sent at the moment.
    pub open spec fn following(self, outcome: Outcome) -> Phase {
        match (self, outcome) {
            (Phase::Exit, _) => self,
            (_, Outcome::Failed) => Phase::Exit,
            (Phase::Clients, Outcome::Deserted) => Phase::Exit,
            (Phase::Poll, Outcome::Interrupted) => Phase::Poll,
            (Phase::Queue, Outcome::Blocked) => Phase::Poll,
            _ => self.next(),
        }
    }

    /// Decides what follows a phase.
    pub fn after(self, outcome: Outcome) -> (next: Phase)
        ensures
            next == self.following(outcome),
    {
        if self == Phase::Exit {
            return self;
        }
        match outcome {
            Outcome::Failed => {
                return Phase::Exit;
            },
            Outcome::Interrupted => {
                if self == Phase::Poll {
                    return Phase::Poll;
                }
            },
            Outcome::Blocked => {
                if self == Phase::Queue {
                    return Phase::Poll;
                }
            },
            Outcome::Deserted => {
                if self == Phase::Clients {
                    return Phase::Exit;
                }
            },
            Outcome::Done => {},
        }
        match self {
            Phase::Poll => Phase::Close,
            Phase::Close => Phase::Timeouts,
            Phase::Timeouts => Phase::Sessions,
            Phase::Sessions => Phase::Clients,
            Phase::Clients => Phase::Receive,
            Phase::Receive => Phase::Queue,
            Phase::Queue => Phase::Workers,
            Phase::Workers => Phase::Write,
            Phase::Write => Phase::Gather,
            Phase::Gather => Phase::Send,
            Phase::Send => Phase::Poll,
            Phase::Exit => self,
        }
    }
}

impl Phase {
    /// What the loop returns after a phase; nothing, as long as it goes on.
    pub open spec fn returned(self, outcome: Outcome) -> Option<Result<(), ServerEnd>> {
        if self is Exit || !(self.following(outcome) is Exit) {
            None
        } else if outcome is Failed {
            Some(Err(ServerEnd::Failed))
        } else {
            Some(Err(ServerEnd::ShutDown))
        }
    }

    /// Decides what the loop returns after a phase, if it returns then.
    pub fn result(self, outcome: Outcome) -> (result: Option<Result<(), ServerEnd>>)
        ensures
            result == self.returned(outcome),
            result is Some <==> !(self is Exit) && self.following(outcome) is Exit,
            result matches Some(returned) ==> returned is Err,
    {
        if self == Phase::Exit {
            return None;
        }
        match outcome {
            Outcome::Failed => Some(Err(ServerEnd::Failed)),
            Outcome::Deserted => {
                if self == Phase::Clients {
                    Some(Err(ServerEnd::ShutDown))
                } else {
                    None
                }
            },
            _ => None,
        }
    }
}

/// The phases of a turn.
pub open spec fn turn() -> Seq<Phase> {
    seq![
        Phase::Poll,
        Phase::Close,
        Phase::Timeouts,
        Phase::Sessions,
        Phase::Clients,
        Phase::Receive,
        Phase::Queue,
        Phase::Workers,
        Phase::Write,
        Phase::Gather,
        Phase::Send,
    ]
}

/// A turn in which nothing goes wrong takes every phase once, in order, and is
/// followed by another.
pub proof fn turns_take_every_phase(i: int)
    requires
        0 <= i < turn().len(),
    ensures
        turn()[i].following(Outcome::Done) == turn()[if i + 1 < turn().len() {
            i + 1
        } else {
            0
        }],
        turn().no_duplicates(),
        forall|phase: Phase| !(phase is Exit) ==> #[trigger] turn().contains(phase),
{
    assert forall|phase: Phase| !(phase is Exit) implies #[trigger] turn().contains(phase) by {
        assert(turn()[0] is Poll && turn()[1] is Close && turn()[2] is Timeouts);
        assert(turn()[3] is Sessions && turn()[4] is Clients && turn()[5] is Receive);
        assert(turn()[6] is Queue && turn()[7] is Workers && turn()[8] is Write);
        assert(turn()[9] is Gather && turn()[10] is Send);
    }
}

/// While queued packets wait for the socket, nothing is written to clients.
pub proof fn writes_wait_for_the_queue(phase: Phase, outcome: Outcome)
    ensures
        phase is Queue && outcome is Blocked ==> phase.following(outcome) is Poll,
{
}

/// The loop returns only on error: because a phase failed, or because the
/// server was shut down and everyone has left. In every other case it goes on.
pub proof fn loop_returns_only_on_error(phase: Phase, outcome: Outcome)
    ensures
        phase.returned(outcome) matches Some(result) ==> result is Err,
        !(phase is Exit) ==> (phase.returned(outcome) == Some(
            Err::<(), ServerEnd>(ServerEnd::Failed),
        ) <==> outcome is Failed),
        phase.returned(outcome) == Some(Err::<(), ServerEnd>(ServerEnd::ShutDown)) <==> phase
            is Clients && outcome is Deserted,
        !(phase is Exit) ==> (phase.following(outcome) is Exit <==> phase.returned(
            outcome,
        ) is Some),
{
}

} // verus!

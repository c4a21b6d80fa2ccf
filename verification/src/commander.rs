//! The commander: what a running server does with each message of its
//! controller.
//!
//! The commander itself only decides. Whoever drives it reads the messages,
//! hands them over one by one and carries out the action that comes back.

use vstd::prelude::*;
use crate::protocol::{Command, GraphMessage, ProtocolError};

verus! {

/// What the control connection delivers.
#[derive(Debug, PartialEq, Eq)]
pub enum ControlEvent<S> {
    /// A command.
    Command(Command<S>),
    /// A message that could not be understood.
    Malformed,
    /// The end of the connection.
    Closed,
}

/// What the commander wants done.
#[derive(Debug, PartialEq, Eq)]
pub enum CommanderAction<S> {
    /// Put these settings on the settings channel of every worker.
    BroadcastSettings(S),
    /// Load the network at this path, once, and put it on the graph channel
    /// of every inference thread.
    LoadAndBroadcastNetwork(String),
    /// Tell every inference thread to give up its network.
    BroadcastDummyNetwork,
    /// Answer the controller's ping.
    Pong,
    /// Drop every sender, so that all threads wind down.
    Shutdown,
}

/// What is put on the graph channels after a network has been loaded, or
/// could not be loaded: the network, or, for want of one, the order to go on
/// without a network until another one arrives.
pub fn graph_message_for<G>(loaded: Option<G>) -> (r: GraphMessage<G>)
    ensures
        r == (match loaded {
            Some(g) => GraphMessage::Network(g),
            None => GraphMessage::Dummy,
        }),
{
    match loaded {
        Some(g) => GraphMessage::Network(g),
        None => GraphMessage::Dummy,
    }
}

/// Whether the commander still takes commands.
#[derive(Clone, Copy, Debug, PartialEq, Eq, Structural)]
pub enum Phase {
    Running,
    Stopped,
}

/// The commander of a server that has received its startup settings.
pub struct Commander {
    phase: Phase,
}

/// What the commander answers to `event` in `phase`.
pub open spec fn respond<S>(phase: Phase, event: ControlEvent<S>) -> Result<
    CommanderAction<S>,
    ProtocolError,
> {
    match phase {
        Phase::Stopped => Err(ProtocolError::Stopped),
        Phase::Running => match event {
            ControlEvent::Closed => Ok(CommanderAction::Shutdown),
            ControlEvent::Malformed => Err(ProtocolError::UnknownCommand),
            ControlEvent::Command(Command::StartupSettings(_)) => Err(
                ProtocolError::UnexpectedStartupSettings,
            ),
            ControlEvent::Command(Command::NewSettings(s)) => Ok(
                CommanderAction::BroadcastSettings(s),
            ),
            ControlEvent::Command(Command::NewNetwork(path)) => Ok(
                CommanderAction::LoadAndBroadcastNetwork(path),
            ),
            ControlEvent::Command(Command::WaitForNewNetwork) => Ok(
                CommanderAction::BroadcastDummyNetwork,
            ),
            ControlEvent::Command(Command::Stop) => Ok(CommanderAction::Shutdown),
            ControlEvent::Command(Command::Ping) => Ok(CommanderAction::Pong),
        },
    }
}

/// The phase after an answer: a shutdown and every breach of the protocol
/// stop the commander; anything else leaves it as it was.
pub open spec fn phase_after<S>(phase: Phase, answer: Result<CommanderAction<S>, ProtocolError>) -> Phase {
    match answer {
        Ok(CommanderAction::Shutdown) => Phase::Stopped,
        Err(_) => Phase::Stopped,
        _ => phase,
    }
}

impl Commander {
    /// The phase the commander is in.
    pub closed spec fn phase_spec(&self) -> Phase {
        self.phase
    }

    /// A commander that takes commands.
    pub fn new() -> (r: Commander)
        ensures
            r.phase_spec() == Phase::Running,
    {
        Commander { phase: Phase::Running }
    }

    /// The phase the commander is in.
    pub fn phase(&self) -> (r: Phase)
        ensures
            r == self.phase_spec(),
    {
        self.phase
    }

    /// Decides what to do about `event`.
    pub fn handle<S>(&mut self, event: ControlEvent<S>) -> (r: Result<CommanderAction<S>, ProtocolError>)
        ensures
            r == respond(old(self).phase_spec(), event),
            final(self).phase_spec() == phase_after(old(self).phase_spec(), r),
    {
        match self.phase {
            Phase::Stopped => Err(ProtocolError::Stopped),
            Phase::Running => {
                let answer = match event {
                    ControlEvent::Closed => Ok(CommanderAction::Shutdown),
                    ControlEvent::Malformed => Err(ProtocolError::UnknownCommand),
                    ControlEvent::Command(command) => match command {
                        Command::StartupSettings(_) => Err(ProtocolError::UnexpectedStartupSettings),
                        Command::NewSettings(s) => Ok(CommanderAction::BroadcastSettings(s)),
                        Command::NewNetwork(path) => Ok(
                            CommanderAction::LoadAndBroadcastNetwork(path),
                        ),
                        Command::WaitForNewNetwork => Ok(CommanderAction::BroadcastDummyNetwork),
                        Command::Stop => Ok(CommanderAction::Shutdown),
                        Command::Ping => Ok(CommanderAction::Pong),
                    },
                };
                let stop = match &answer {
                    Ok(CommanderAction::Shutdown) => true,
                    Err(_) => true,
                    _ => false,
                };
                if stop {
                    self.phase = Phase::Stopped;
                }
                answer
            },
        }
    }
}

/// The answers of a commander to a run of events, one after the other,
/// starting in `phase`.
pub open spec fn respond_all<S>(phase: Phase, events: Seq<ControlEvent<S>>) -> Seq<
    Result<CommanderAction<S>, ProtocolError>,
>
    decreases events.len(),
{
    if events.len() == 0 {
        Seq::empty()
    } else {
        let answer = respond(phase, events[0]);
        seq![answer] + respond_all(phase_after(phase, answer), events.skip(1))
    }
}

/// Once stopped, a commander refuses everything.
pub proof fn lemma_stopped_refuses<S>(events: Seq<ControlEvent<S>>, i: int)
    requires
        0 <= i < events.len(),
    ensures
        respond_all(Phase::Stopped, events).len() == events.len(),
        respond_all(Phase::Stopped, events)[i] == Err::<CommanderAction<S>, ProtocolError>(
            ProtocolError::Stopped,
        ),
    decreases events.len(),
{
    lemma_respond_all_len(Phase::Stopped, events);
    if i > 0 {
        lemma_stopped_refuses(events.skip(1), i - 1);
    }
}

/// There is one answer for each event.
pub proof fn lemma_respond_all_len<S>(phase: Phase, events: Seq<ControlEvent<S>>)
    ensures
        respond_all(phase, events).len() == events.len(),
    decreases events.len(),
{
    if events.len() > 0 {
        lemma_respond_all_len(phase_after(phase, respond(phase, events[0])), events.skip(1));
    }
}

/// At most one answer asks for a shutdown or reports a breach other than
/// `Stopped`, and every answer after it is `Stopped`: nothing is acted on
/// twice and nothing is acted on after the end.
pub proof fn lemma_single_end<S>(phase: Phase, events: Seq<ControlEvent<S>>, i: int, j: int)
    requires
        0 <= i < j < events.len(),
        phase_after(phase, respond_all(phase, events)[i]) == Phase::Stopped,
    ensures
        respond_all(phase, events)[j] == Err::<CommanderAction<S>, ProtocolError>(
            ProtocolError::Stopped,
        ),
    decreases events.len(),
{
    lemma_respond_all_len(phase, events);
    let answer = respond(phase, events[0]);
    let next = phase_after(phase, answer);
    lemma_respond_all_len(next, events.skip(1));
    if i == 0 {
        if phase == Phase::Stopped {
        }
        assert(next == Phase::Stopped);
        lemma_stopped_refuses(events.skip(1), j - 1);
    } else {
        lemma_single_end(next, events.skip(1), i - 1, j - 1);
    }
}

} // verus!

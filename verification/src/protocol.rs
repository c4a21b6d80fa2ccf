//! The messages of the control connection, in both directions.

use vstd::prelude::*;
use crate::settings::StartupSettings;

verus! {

/// What a controller can tell a server. `S` is the type of the settings that
/// can be changed while the server runs.
#[derive(Debug, PartialEq, Eq)]
pub enum Command<S> {
    /// The settings of the run. Valid as the first message only.
    StartupSettings(StartupSettings),
    /// New settings for every worker.
    NewSettings(S),
    /// A network to load from the given path and to hand to every inference
    /// thread.
    NewNetwork(String),
    /// Stop evaluating with the current network until a new one arrives.
    WaitForNewNetwork,
    /// Shut the server down.
    Stop,
    /// Ask for a sign of life.
    Ping,
}

/// What reaches an inference thread on its graph channel. `G` is the type of
/// a loaded network.
#[derive(Debug, PartialEq, Eq)]
pub enum GraphMessage<G> {
    /// Evaluate with this network from the next batch on.
    Network(G),
    /// Give the network up and answer with a uniform policy until another
    /// graph message arrives.
    Dummy,
}

/// What workers tell the collector. `T` is the type of a finished game.
#[derive(Debug, PartialEq, Eq)]
pub enum GeneratorUpdate<T> {
    /// A game has finished.
    Simulation(T),
    /// A game has started.
    StartedSimulation,
    /// Moves were played and positions evaluated since the last report.
    Progress { moves: u64, evaluations: u64 },
    /// No more games will come.
    Done,
}

/// A breach of the control protocol. Each one is fatal.
#[derive(Clone, Copy, Debug, PartialEq, Eq, Structural)]
pub enum ProtocolError {
    /// The first message was not the startup settings.
    ExpectedStartupSettings,
    /// Startup settings arrived after the first message.
    UnexpectedStartupSettings,
    /// A message could not be understood.
    UnknownCommand,
    /// A message arrived after the server had been told to stop.
    Stopped,
}

/// The kind of a command, without what it carries.
#[derive(Clone, Copy, Debug, PartialEq, Eq, Structural)]
pub enum CommandKind {
    StartupSettings,
    NewSettings,
    NewNetwork,
    WaitForNewNetwork,
    Stop,
    Ping,
}

impl<S> Command<S> {
    /// The kind of this command.
    pub open spec fn kind_spec(&self) -> CommandKind {
        match self {
            Command::StartupSettings(_) => CommandKind::StartupSettings,
            Command::NewSettings(_) => CommandKind::NewSettings,
            Command::NewNetwork(_) => CommandKind::NewNetwork,
            Command::WaitForNewNetwork => CommandKind::WaitForNewNetwork,
            Command::Stop => CommandKind::Stop,
            Command::Ping => CommandKind::Ping,
        }
    }

    /// The kind of this command.
    pub fn kind(&self) -> (r: CommandKind)
        ensures
            r == self.kind_spec(),
    {
        match self {
            Command::StartupSettings(_) => CommandKind::StartupSettings,
            Command::NewSettings(_) => CommandKind::NewSettings,
            Command::NewNetwork(_) => CommandKind::NewNetwork,
            Command::WaitForNewNetwork => CommandKind::WaitForNewNetwork,
            Command::Stop => CommandKind::Stop,
            Command::Ping => CommandKind::Ping,
        }
    }
}

/// Takes the startup settings out of the first message of a connection. Any
/// other first message is a breach of the protocol.
pub fn wait_for_startup_settings<S>(first: Command<S>) -> (r: Result<StartupSettings, ProtocolError>)
    ensures
        match r {
            Ok(settings) => first == Command::<S>::StartupSettings(settings),
            Err(e) => e == ProtocolError::ExpectedStartupSettings && first.kind_spec()
                != CommandKind::StartupSettings,
        },
{
    match first {
        Command::StartupSettings(settings) => Ok(settings),
        _ => Err(ProtocolError::ExpectedStartupSettings),
    }
}

impl ProtocolError {
    /// What to tell the controller about a breach.
    pub fn message(&self) -> (r: &'static str)
        ensures
            r@ == self.message_spec(),
    {
        match self {
            ProtocolError::ExpectedStartupSettings => "Must receive startup settings before any other command",
            ProtocolError::UnexpectedStartupSettings => "Already received startup settings",
            ProtocolError::UnknownCommand => "Unknown command",
            ProtocolError::Stopped => "The server has been told to stop",
        }
    }

    /// The text of `message`.
    pub open spec fn message_spec(&self) -> Seq<char> {
        match self {
            ProtocolError::ExpectedStartupSettings => "Must receive startup settings before any other command"@,
            ProtocolError::UnexpectedStartupSettings => "Already received startup settings"@,
            ProtocolError::UnknownCommand => "Unknown command"@,
            ProtocolError::Stopped => "The server has been told to stop"@,
        }
    }
}

} // verus!

//! Startup as a whole: from the settings that the controller sent to the
//! game, its binding and the layout of the server, or to the one reason why
//! the server does not start.

use vstd::prelude::*;
use crate::dispatch::{
    dispatch_game, dispatch_spec, is_default_start_pos, Dispatch, DispatchError, DispatchRequest,
};
use crate::game::Game;
use crate::plan::{plan_server, plan_spec, PlanError, ServerPlan};
use crate::settings::{validate_spec, FolderStatus, StartupError, StartupSettings};

verus! {

/// What a server knows once it may start.
#[derive(Clone, Copy, Debug, PartialEq, Eq, Structural)]
pub struct ServerSetup {
    /// The game to play.
    pub game: Game,
    /// The pieces that play it.
    pub dispatch: Dispatch,
    /// The threads and channels to set up.
    pub plan: ServerPlan,
}

/// Why a server does not start.
#[derive(Clone, Copy, Debug, PartialEq, Eq, Structural)]
pub enum SetupError {
    /// The settings break a rule.
    Startup(StartupError),
    /// The game cannot be bound as asked.
    Dispatch(DispatchError),
    /// The server cannot be laid out.
    Plan(PlanError),
}

/// What the machine and the build add to the settings.
#[derive(Clone, Copy, Debug, PartialEq, Eq, Structural)]
pub struct Surroundings {
    /// What was found out about the output folder.
    pub folder: FolderStatus,
    /// The number of devices to run on.
    pub device_count: usize,
    /// Whether this build has a MuZero search.
    pub muzero_enabled: bool,
}

/// The request to bind the game of `settings`.
pub open spec fn dispatch_request(settings: &StartupSettings, around: Surroundings) -> DispatchRequest {
    DispatchRequest {
        start_pos_is_default: settings.start_pos@ == "default"@,
        muzero: settings.muzero,
        muzero_enabled: around.muzero_enabled,
    }
}

/// What startup decides: the settings are checked first, then the game is
/// bound, then the server is laid out. The first failure is the answer.
pub open spec fn setup_spec(settings: &StartupSettings, around: Surroundings) -> Result<
    ServerSetup,
    SetupError,
> {
    match validate_spec(settings.batch_sizes_spec(), around.folder, settings.game@) {
        Err(e) => Err(SetupError::Startup(e)),
        Ok(game) => match dispatch_spec(game, dispatch_request(settings, around)) {
            Err(e) => Err(SetupError::Dispatch(e)),
            Ok(dispatch) => match plan_spec(
                settings.batch_sizes_spec(),
                settings.cpu_threads_per_device,
                around.device_count,
            ) {
                Err(e) => Err(SetupError::Plan(e)),
                Ok(plan) => Ok(ServerSetup { game, dispatch, plan }),
            },
        },
    }
}

/// Decides whether and how a server starts.
pub fn prepare_server(settings: &StartupSettings, around: Surroundings) -> (r: Result<
    ServerSetup,
    SetupError,
>)
    ensures
        r == setup_spec(settings, around),
{
    let game = match settings.validate(around.folder) {
        Ok(game) => game,
        Err(e) => {
            return Err(SetupError::Startup(e));
        },
    };
    let request = DispatchRequest {
        start_pos_is_default: is_default_start_pos(settings.start_pos.as_str()),
        muzero: settings.muzero,
        muzero_enabled: around.muzero_enabled,
    };
    let dispatch = match dispatch_game(game, request) {
        Ok(d) => d,
        Err(e) => {
            return Err(SetupError::Dispatch(e));
        },
    };
    let plan = match plan_server(
        settings.batch_sizes(),
        settings.cpu_threads_per_device,
        around.device_count,
    ) {
        Ok(p) => p,
        Err(e) => {
            return Err(SetupError::Plan(e));
        },
    };
    Ok(ServerSetup { game, dispatch, plan })
}

/// A server that starts keeps every rule on its batch sizes, has a device,
/// and gives each device a request channel of twice the GPU batch size.
pub proof fn lemma_started_server(settings: &StartupSettings, around: Surroundings)
    requires
        setup_spec(settings, around).is_ok(),
    ensures
        settings.gpu_batch_size >= settings.search_batch_size >= 1,
        settings.muzero ==> settings.search_batch_size == 1 && settings.gpu_batch_size_root >= 1,
        around.folder.exists && around.folder.is_absolute,
        around.device_count >= 1,
        setup_spec(settings, around).unwrap().plan.request_capacity == 2 * settings.gpu_batch_size,
        setup_spec(settings, around).unwrap().plan.total_cpu_threads
            == settings.cpu_threads_per_device * around.device_count,
        Game::parse_spec(settings.game@) == Some(setup_spec(settings, around).unwrap().game),
{
}

} // verus!

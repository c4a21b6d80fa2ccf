//! Startup settings and the checks a server makes on them before any thread
//! is spawned.

use vstd::prelude::*;
use crate::game::Game;

verus! {

/// Settings that stay fixed for the lifetime of a run.
#[derive(Debug, PartialEq, Eq)]
pub struct StartupSettings {
    /// The identifier of the game to play.
    pub game: String,
    /// Whether the MuZero flavour of search is asked for.
    pub muzero: bool,
    /// The name of the start position.
    pub start_pos: String,
    /// The index of the first shard to write.
    pub first_gen: u32,
    /// The directory to write shards to.
    pub output_folder: String,
    /// The number of games in a full shard.
    pub games_per_gen: usize,
    /// The number of CPU worker threads bound to each device.
    pub cpu_threads_per_device: usize,
    /// The number of inference threads on each device.
    pub gpu_threads_per_device: usize,
    /// The largest number of positions in one network evaluation.
    pub gpu_batch_size: usize,
    /// For MuZero, the largest number of root positions in one evaluation.
    pub gpu_batch_size_root: usize,
    /// The number of searches a CPU worker keeps going at once.
    pub search_batch_size: usize,
}

/// The batch sizes of a run, which is all that the batch size rules read.
#[derive(Clone, Copy, Debug, PartialEq, Eq, Structural)]
pub struct BatchSizes {
    pub muzero: bool,
    pub gpu_batch_size: usize,
    pub gpu_batch_size_root: usize,
    pub search_batch_size: usize,
}

/// What was found out about the output folder on disk.
#[derive(Clone, Copy, Debug, PartialEq, Eq, Structural)]
pub struct FolderStatus {
    /// The folder exists.
    pub exists: bool,
    /// Its path is absolute.
    pub is_absolute: bool,
}

/// A rule that a configuration breaks.
#[derive(Clone, Copy, Debug, PartialEq, Eq, Structural)]
pub enum StartupError {
    /// The GPU batch size is zero.
    GpuBatchSizeZero,
    /// The search batch size is zero.
    SearchBatchSizeZero,
    /// The GPU batch size is smaller than the search batch size.
    GpuBatchSmallerThanSearchBatch,
    /// MuZero was asked for with a root batch size of zero.
    MuZeroRootBatchSizeZero,
    /// MuZero was asked for with a search batch size other than one.
    MuZeroSearchBatchSizeNotOne,
    /// The output folder does not exist.
    OutputFolderMissing,
    /// The output folder is not given as an absolute path.
    OutputFolderNotAbsolute,
    /// The game identifier names no game.
    UnknownGame,
}

/// The first batch size rule that `sizes` breaks, in the order in which the
/// rules are checked, or `None` if it keeps them all: both batch sizes are at
/// least one, the GPU batch holds at least one search batch, and MuZero
/// searches one position at a time with a root batch of at least one.
pub open spec fn first_batch_size_error(sizes: BatchSizes) -> Option<StartupError> {
    if sizes.gpu_batch_size == 0 {
        Some(StartupError::GpuBatchSizeZero)
    } else if sizes.search_batch_size == 0 {
        Some(StartupError::SearchBatchSizeZero)
    } else if sizes.gpu_batch_size < sizes.search_batch_size {
        Some(StartupError::GpuBatchSmallerThanSearchBatch)
    } else if sizes.muzero && sizes.gpu_batch_size_root == 0 {
        Some(StartupError::MuZeroRootBatchSizeZero)
    } else if sizes.muzero && sizes.search_batch_size != 1 {
        Some(StartupError::MuZeroSearchBatchSizeNotOne)
    } else {
        None
    }
}

/// The batch sizes keep every rule.
pub open spec fn batch_sizes_valid(sizes: BatchSizes) -> bool {
    &&& sizes.gpu_batch_size >= sizes.search_batch_size >= 1
    &&& sizes.muzero ==> sizes.search_batch_size == 1 && sizes.gpu_batch_size_root >= 1
}

/// The first rule on the output folder that is broken, if any.
pub open spec fn first_folder_error(folder: FolderStatus) -> Option<StartupError> {
    if !folder.exists {
        Some(StartupError::OutputFolderMissing)
    } else if !folder.is_absolute {
        Some(StartupError::OutputFolderNotAbsolute)
    } else {
        None
    }
}

/// What the startup check decides: the game to play, or the first rule that
/// is broken. Batch sizes are checked first, then the output folder, then the
/// game identifier.
pub open spec fn validate_spec(sizes: BatchSizes, folder: FolderStatus, game: Seq<char>) -> Result<
    Game,
    StartupError,
> {
    match first_batch_size_error(sizes) {
        Some(e) => Err(e),
        None => match first_folder_error(folder) {
            Some(e) => Err(e),
            None => match Game::parse_spec(game) {
                Some(g) => Ok(g),
                None => Err(StartupError::UnknownGame),
            },
        },
    }
}

/// Checks the batch sizes and names the first rule that is broken.
pub fn check_batch_sizes(sizes: BatchSizes) -> (r: Result<(), StartupError>)
    ensures
        r.is_ok() <==> batch_sizes_valid(sizes),
        r == (match first_batch_size_error(sizes) {
            Some(e) => Err::<(), StartupError>(e),
            None => Ok::<(), StartupError>(()),
        }),
{
    if sizes.gpu_batch_size == 0 {
        Err(StartupError::GpuBatchSizeZero)
    } else if sizes.search_batch_size == 0 {
        Err(StartupError::SearchBatchSizeZero)
    } else if sizes.gpu_batch_size < sizes.search_batch_size {
        Err(StartupError::GpuBatchSmallerThanSearchBatch)
    } else if sizes.muzero && sizes.gpu_batch_size_root == 0 {
        Err(StartupError::MuZeroRootBatchSizeZero)
    } else if sizes.muzero && sizes.search_batch_size != 1 {
        Err(StartupError::MuZeroSearchBatchSizeNotOne)
    } else {
        Ok(())
    }
}

/// Checks what was found out about the output folder.
pub fn check_output_folder(folder: FolderStatus) -> (r: Result<(), StartupError>)
    ensures
        r == (match first_folder_error(folder) {
            Some(e) => Err::<(), StartupError>(e),
            None => Ok::<(), StartupError>(()),
        }),
{
    if !folder.exists {
        Err(StartupError::OutputFolderMissing)
    } else if !folder.is_absolute {
        Err(StartupError::OutputFolderNotAbsolute)
    } else {
        Ok(())
    }
}

impl StartupSettings {
    /// The batch sizes of these settings.
    pub open spec fn batch_sizes_spec(&self) -> BatchSizes {
        BatchSizes {
            muzero: self.muzero,
            gpu_batch_size: self.gpu_batch_size,
            gpu_batch_size_root: self.gpu_batch_size_root,
            search_batch_size: self.search_batch_size,
        }
    }

    /// The batch sizes of these settings.
    pub fn batch_sizes(&self) -> (r: BatchSizes)
        ensures
            r == self.batch_sizes_spec(),
    {
        BatchSizes {
            muzero: self.muzero,
            gpu_batch_size: self.gpu_batch_size,
            gpu_batch_size_root: self.gpu_batch_size_root,
            search_batch_size: self.search_batch_size,
        }
    }

    /// Checks the settings against what was found out about the output
    /// folder. Gives the game to play, or the first rule that is broken.
    pub fn validate(&self, folder: FolderStatus) -> (r: Result<Game, StartupError>)
        ensures
            r == validate_spec(self.batch_sizes_spec(), folder, self.game@),
            r.is_ok() ==> batch_sizes_valid(self.batch_sizes_spec()),
    {
        match check_batch_sizes(self.batch_sizes()) {
            Err(e) => {
                return Err(e);
            },
            Ok(()) => {},
        }
        match check_output_folder(folder) {
            Err(e) => {
                return Err(e);
            },
            Ok(()) => {},
        }
        match Game::parse(self.game.as_str()) {
            Some(game) => Ok(game),
            None => Err(StartupError::UnknownGame),
        }
    }
}

impl StartupError {
    /// What to tell the controller about a broken rule.
    pub fn message(&self) -> (r: &'static str)
        ensures
            r@ == self.message_spec(),
    {
        match self {
            StartupError::GpuBatchSizeZero => "GPU batch size cannot be 0",
            StartupError::SearchBatchSizeZero => "Search batch size cannot be 0",
            StartupError::GpuBatchSmallerThanSearchBatch => "It's not useful to have a GPU batch size smaller than the search batch size",
            StartupError::MuZeroRootBatchSizeZero => "For muzero root batch size must be nonzero",
            StartupError::MuZeroSearchBatchSizeNotOne => "For muzero search batch size must be 1, minibatching is not yet supported",
            StartupError::OutputFolderMissing => "Output folder does not exist",
            StartupError::OutputFolderNotAbsolute => "Output folder is not an absolute path",
            StartupError::UnknownGame => "Unknown game",
        }
    }

    /// The text of `message`.
    pub open spec fn message_spec(&self) -> Seq<char> {
        match self {
            StartupError::GpuBatchSizeZero => "GPU batch size cannot be 0"@,
            StartupError::SearchBatchSizeZero => "Search batch size cannot be 0"@,
            StartupError::GpuBatchSmallerThanSearchBatch => "It's not useful to have a GPU batch size smaller than the search batch size"@,
            StartupError::MuZeroRootBatchSizeZero => "For muzero root batch size must be nonzero"@,
            StartupError::MuZeroSearchBatchSizeNotOne => "For muzero search batch size must be 1, minibatching is not yet supported"@,
            StartupError::OutputFolderMissing => "Output folder does not exist"@,
            StartupError::OutputFolderNotAbsolute => "Output folder is not an absolute path"@,
            StartupError::UnknownGame => "Unknown game"@,
        }
    }
}

/// MuZero with a search batch size of two or more is refused, whatever else
/// the settings say, unless an earlier rule is broken already.
pub proof fn lemma_muzero_guard(sizes: BatchSizes, folder: FolderStatus, game: Seq<char>)
    requires
        sizes.muzero,
        sizes.search_batch_size >= 2,
    ensures
        validate_spec(sizes, folder, game).is_err(),
        sizes.gpu_batch_size >= sizes.search_batch_size && sizes.gpu_batch_size_root >= 1
            ==> validate_spec(sizes, folder, game) == Err::<Game, StartupError>(
            StartupError::MuZeroSearchBatchSizeNotOne,
        ),
{
}

} // verus!

//! The collector: how finished games are gathered into shards.
//!
//! A shard is a file of consecutive games. Games are appended to the open
//! shard. The open shard is sealed when it holds the configured number of
//! games, or when a generation boundary is announced; the shard with the next
//! index is then opened. When the workers are done, an open shard that holds
//! at least one game is sealed as it is, and an empty one is dropped.
//!
//! The collector itself only keeps the books. Whoever drives it writes and
//! seals the files as the actions say.

use vstd::prelude::*;
use vstd::string::*;
use crate::protocol::GeneratorUpdate;
use crate::text::{decimal, push_decimal};

verus! {

/// A sealed shard: its index and the number of games in it.
#[derive(Clone, Copy, Debug, PartialEq, Eq, Structural)]
pub struct ShardSummary {
    pub index: u64,
    pub games: u64,
}

/// The name of the file that holds the games of shard `index`.
pub open spec fn games_file_name(index: u64) -> Seq<char> {
    "games_"@ + decimal(index as nat) + ".bin"@
}

/// The name of the file that describes the games of shard `index`.
pub open spec fn meta_file_name(index: u64) -> Seq<char> {
    "games_"@ + decimal(index as nat) + ".json"@
}

/// The names of the two files of a shard: the one that holds its games and
/// the one that describes them.
pub fn shard_file_names(index: u64) -> (r: (String, String))
    ensures
        r.0@ == games_file_name(index),
        r.1@ == meta_file_name(index),
{
    let mut games = String::from_str("games_");
    push_decimal(&mut games, index);
    let mut meta = games.clone();
    games.append(".bin");
    meta.append(".json");
    (games, meta)
}

/// What matters to the shards about an event.
#[derive(Clone, Copy, Debug, PartialEq, Eq, Structural)]
pub enum ShardEvent {
    /// A finished game arrived.
    Game,
    /// A generation boundary was announced.
    Boundary,
    /// The workers are done.
    Done,
    /// Anything else.
    Other,
}

/// The books of the collector as mathematics.
pub struct ShardBook {
    /// The number of games in a full shard.
    pub games_per_shard: nat,
    /// The index of the open shard.
    pub open_index: nat,
    /// The number of games in the open shard.
    pub open_games: nat,
    /// The shards sealed so far, oldest first.
    pub sealed: Seq<(nat, nat)>,
    /// Whether the workers are done.
    pub done: bool,
}

/// The books before anything has happened.
pub open spec fn initial_book(games_per_shard: nat, first_index: nat) -> ShardBook {
    ShardBook { games_per_shard, open_index: first_index, open_games: 0, sealed: Seq::empty(), done: false }
}

/// The books with the open shard sealed, holding `games` games, and the next
/// one opened.
pub open spec fn seal(book: ShardBook, games: nat) -> ShardBook {
    ShardBook {
        open_index: book.open_index + 1,
        open_games: 0,
        sealed: book.sealed.push((book.open_index, games)),
        ..book
    }
}

/// The books after one event.
pub open spec fn book_step(book: ShardBook, event: ShardEvent) -> ShardBook {
    if book.done {
        book
    } else {
        match event {
            ShardEvent::Game => if book.open_games + 1 >= book.games_per_shard {
                seal(book, book.open_games + 1)
            } else {
                ShardBook { open_games: book.open_games + 1, ..book }
            },
            ShardEvent::Boundary => seal(book, book.open_games),
            ShardEvent::Done => if book.open_games > 0 {
                ShardBook { done: true, ..seal(book, book.open_games) }
            } else {
                ShardBook { done: true, ..book }
            },
            ShardEvent::Other => book,
        }
    }
}

/// The books after a run of events.
pub open spec fn book_run(book: ShardBook, events: Seq<ShardEvent>) -> ShardBook
    decreases events.len(),
{
    if events.len() == 0 {
        book
    } else {
        book_step(book_run(book, events.drop_last()), events.last())
    }
}

/// The number of games among the events that arrive before the workers are
/// done.
pub open spec fn games_before_done(events: Seq<ShardEvent>) -> nat
    decreases events.len(),
{
    if events.len() == 0 {
        0
    } else if events.drop_last().contains(ShardEvent::Done) {
        games_before_done(events.drop_last())
    } else if events.last() == ShardEvent::Game {
        games_before_done(events.drop_last()) + 1
    } else {
        games_before_done(events.drop_last())
    }
}

/// The number of games in a run of sealed shards.
pub open spec fn games_in(sealed: Seq<(nat, nat)>) -> nat
    decreases sealed.len(),
{
    if sealed.len() == 0 {
        0
    } else {
        games_in(sealed.drop_last()) + sealed.last().1
    }
}

/// What the collector wants done. `T` is the type of a finished game.
#[derive(Debug, PartialEq, Eq)]
pub enum CollectorAction<T> {
    /// Append the game to the shard with this index. If `seal` is set, seal
    /// that shard afterwards and open the next.
    Append { shard: u64, simulation: T, seal: bool },
    /// Seal the shard with this index, which holds `games` games, and open
    /// the next.
    Seal { shard: u64, games: u64 },
    /// Seal the shard that `last_shard` names, if it names one, and stop.
    Finish { last_shard: Option<ShardSummary> },
    /// Nothing to write.
    Nothing,
}

/// Why the collector cannot go on.
#[derive(Clone, Copy, Debug, PartialEq, Eq, Structural)]
pub enum CollectorError {
    /// The index of the next shard does not fit in a `u64`.
    ShardIndexOverflow,
    /// A counter does not fit in a `u64`.
    CounterOverflow,
}

/// Counts of what has happened since the last report.
#[derive(Clone, Copy, Debug, PartialEq, Eq, Structural)]
pub struct Counters {
    pub started: u64,
    pub games: u64,
    pub moves: u64,
    pub evaluations: u64,
}

/// The collector's books.
pub struct Collector {
    games_per_shard: u64,
    open_index: u64,
    open_games: u64,
    done: bool,
    counters: Counters,
    sealed: Ghost<Seq<(nat, nat)>>,
}

impl View for Collector {
    type V = ShardBook;

    closed spec fn view(&self) -> ShardBook {
        ShardBook {
            games_per_shard: self.games_per_shard as nat,
            open_index: self.open_index as nat,
            open_games: self.open_games as nat,
            sealed: self.sealed@,
            done: self.done,
        }
    }
}

/// What an update means to the shards.
pub open spec fn shard_event<T>(update: GeneratorUpdate<T>) -> ShardEvent {
    match update {
        GeneratorUpdate::Simulation(_) => ShardEvent::Game,
        GeneratorUpdate::Done => ShardEvent::Done,
        _ => ShardEvent::Other,
    }
}

/// The counters after an update.
pub open spec fn count<T>(counters: Counters, update: GeneratorUpdate<T>) -> Counters {
    match update {
        GeneratorUpdate::Simulation(_) => Counters { games: (counters.games + 1) as u64, ..counters },
        GeneratorUpdate::StartedSimulation => Counters {
            started: (counters.started + 1) as u64,
            ..counters
        },
        GeneratorUpdate::Progress { moves, evaluations } => Counters {
            moves: (counters.moves + moves) as u64,
            evaluations: (counters.evaluations + evaluations) as u64,
            ..counters
        },
        GeneratorUpdate::Done => counters,
    }
}

/// Whether the counters can take an update without overflow.
pub open spec fn countable<T>(counters: Counters, update: GeneratorUpdate<T>) -> bool {
    match update {
        GeneratorUpdate::Simulation(_) => counters.games < u64::MAX,
        GeneratorUpdate::StartedSimulation => counters.started < u64::MAX,
        GeneratorUpdate::Progress { moves, evaluations } => counters.moves + moves <= u64::MAX
            && counters.evaluations + evaluations <= u64::MAX,
        GeneratorUpdate::Done => true,
    }
}

/// What is to be done about an update with the books as they are.
pub open spec fn action_for<T>(book: ShardBook, update: GeneratorUpdate<T>) -> CollectorAction<T> {
    if book.done {
        CollectorAction::Nothing
    } else {
        match update {
            GeneratorUpdate::Simulation(simulation) => CollectorAction::Append {
                shard: book.open_index as u64,
                simulation,
                seal: book.open_games + 1 >= book.games_per_shard,
            },
            GeneratorUpdate::Done => CollectorAction::Finish {
                last_shard: if book.open_games > 0 {
                    Some(ShardSummary { index: book.open_index as u64, games: book.open_games as u64 })
                } else {
                    None
                },
            },
            _ => CollectorAction::Nothing,
        }
    }
}

impl Collector {
    #[verifier::type_invariant]
    spec fn well_formed(self) -> bool {
        self.open_games == 0 || self.open_games < self.games_per_shard
    }

    /// What has been counted since the last report.
    pub closed spec fn counters_spec(&self) -> Counters {
        self.counters
    }

    /// A collector whose first shard has index `first_index` and whose full
    /// shards hold `games_per_shard` games.
    pub fn new(games_per_shard: u64, first_index: u64) -> (r: Collector)
        ensures
            r@ == initial_book(games_per_shard as nat, first_index as nat),
            r.counters_spec() == (Counters { started: 0, games: 0, moves: 0, evaluations: 0 }),
    {
        Collector {
            games_per_shard,
            open_index: first_index,
            open_games: 0,
            done: false,
            counters: Counters { started: 0, games: 0, moves: 0, evaluations: 0 },
            sealed: Ghost(Seq::empty()),
        }
    }

    /// The index of the open shard.
    pub fn open_index(&self) -> (r: u64)
        ensures
            r == self@.open_index,
    {
        self.open_index
    }

    /// The number of games in the open shard.
    pub fn open_games(&self) -> (r: u64)
        ensures
            r == self@.open_games,
            r == 0 || r < self@.games_per_shard,
    {
        proof {
            use_type_invariant(self);
        }
        self.open_games
    }

    /// Whether the workers are done.
    pub fn is_done(&self) -> (r: bool)
        ensures
            r == self@.done,
    {
        self.done
    }

    /// Takes note of an update and says what is to be written.
    ///
    /// After the workers are done nothing is noted any more. An error leaves
    /// the books as they were.
    pub fn on_update<T>(&mut self, update: GeneratorUpdate<T>) -> (r: Result<
        CollectorAction<T>,
        CollectorError,
    >)
        ensures
            match r {
                Ok(action) => {
                    &&& action == action_for(old(self)@, update)
                    &&& final(self)@ == book_step(old(self)@, shard_event(update))
                    &&& final(self).counters_spec() == (if old(self)@.done {
                        old(self).counters_spec()
                    } else {
                        count(old(self).counters_spec(), update)
                    })
                    &&& old(self)@.done || countable(old(self).counters_spec(), update)
                    &&& book_step(old(self)@, shard_event(update)).open_index <= u64::MAX
                },
                Err(CollectorError::CounterOverflow) => {
                    &&& !old(self)@.done
                    &&& !countable(old(self).counters_spec(), update)
                    &&& final(self)@ == old(self)@
                    &&& final(self).counters_spec() == old(self).counters_spec()
                },
                Err(CollectorError::ShardIndexOverflow) => {
                    &&& !old(self)@.done
                    &&& countable(old(self).counters_spec(), update)
                    &&& book_step(old(self)@, shard_event(update)).open_index > u64::MAX
                    &&& final(self)@ == old(self)@
                    &&& final(self).counters_spec() == old(self).counters_spec()
                },
            },
    {
        proof {
            use_type_invariant(&*self);
        }
        if self.done {
            return Ok(CollectorAction::Nothing);
        }
        match update {
            GeneratorUpdate::Simulation(simulation) => {
                if self.counters.games == u64::MAX {
                    return Err(CollectorError::CounterOverflow);
                }
                let seal = self.open_games + 1 >= self.games_per_shard;
                if seal && self.open_index == u64::MAX {
                    return Err(CollectorError::ShardIndexOverflow);
                }
                let shard = self.open_index;
                self.counters.games = self.counters.games + 1;
                if seal {
                    self.sealed = Ghost(self.sealed@.push((shard as nat, (self.open_games + 1) as nat)));
                    self.open_index = shard + 1;
                    self.open_games = 0;
                } else {
                    self.open_games = self.open_games + 1;
                }
                Ok(CollectorAction::Append { shard, simulation, seal })
            },
            GeneratorUpdate::StartedSimulation => {
                if self.counters.started == u64::MAX {
                    return Err(CollectorError::CounterOverflow);
                }
                self.counters.started = self.counters.started + 1;
                Ok(CollectorAction::Nothing)
            },
            GeneratorUpdate::Progress { moves, evaluations } => {
                if moves > u64::MAX - self.counters.moves || evaluations > u64::MAX
                    - self.counters.evaluations {
                    return Err(CollectorError::CounterOverflow);
                }
                self.counters.moves = self.counters.moves + moves;
                self.counters.evaluations = self.counters.evaluations + evaluations;
                Ok(CollectorAction::Nothing)
            },
            GeneratorUpdate::Done => {
                if self.open_games > 0 {
                    if self.open_index == u64::MAX {
                        return Err(CollectorError::ShardIndexOverflow);
                    }
                    let summary = ShardSummary { index: self.open_index, games: self.open_games };
                    self.sealed = Ghost(self.sealed@.push((summary.index as nat, summary.games as nat)));
                    self.open_index = summary.index + 1;
                    self.open_games = 0;
                    self.done = true;
                    Ok(CollectorAction::Finish { last_shard: Some(summary) })
                } else {
                    self.done = true;
                    Ok(CollectorAction::Finish { last_shard: None })
                }
            },
        }
    }

    /// Takes note of a generation boundary: the open shard is sealed with the
    /// games it holds and the next one is opened.
    pub fn on_boundary<T>(&mut self) -> (r: Result<CollectorAction<T>, CollectorError>)
        ensures
            final(self).counters_spec() == old(self).counters_spec(),
            match r {
                Ok(action) => {
                    &&& final(self)@ == book_step(old(self)@, ShardEvent::Boundary)
                    &&& action == (if old(self)@.done {
                        CollectorAction::<T>::Nothing
                    } else {
                        CollectorAction::<T>::Seal {
                            shard: old(self)@.open_index as u64,
                            games: old(self)@.open_games as u64,
                        }
                    })
                },
                Err(e) => {
                    &&& e == CollectorError::ShardIndexOverflow
                    &&& !old(self)@.done
                    &&& old(self)@.open_index == u64::MAX
                    &&& final(self)@ == old(self)@
                },
            },
    {
        proof {
            use_type_invariant(&*self);
        }
        if self.done {
            return Ok(CollectorAction::Nothing);
        }
        if self.open_index == u64::MAX {
            return Err(CollectorError::ShardIndexOverflow);
        }
        let shard = self.open_index;
        let games = self.open_games;
        self.sealed = Ghost(self.sealed@.push((shard as nat, games as nat)));
        self.open_index = shard + 1;
        self.open_games = 0;
        Ok(CollectorAction::Seal { shard, games })
    }

    /// Hands out what has been counted since the last report and starts
    /// counting afresh.
    pub fn take_counters(&mut self) -> (r: Counters)
        ensures
            r == old(self).counters_spec(),
            final(self).counters_spec() == (Counters { started: 0, games: 0, moves: 0, evaluations: 0 }),
            final(self)@ == old(self)@,
    {
        proof {
            use_type_invariant(&*self);
        }
        let r = self.counters;
        self.counters = Counters { started: 0, games: 0, moves: 0, evaluations: 0 };
        r
    }
}

/// What holds of the books after any run of events.
pub open spec fn book_invariant(book: ShardBook, games_per_shard: nat, first_index: nat) -> bool {
    &&& book.games_per_shard == games_per_shard
    &&& book.open_index == first_index + book.sealed.len()
    &&& forall|i: int| 0 <= i < book.sealed.len() ==> (#[trigger] book.sealed[i]).0 == first_index + i
    &&& book.open_games == 0 || book.open_games < games_per_shard
    &&& book.done ==> book.open_games == 0
}

/// What holds besides of the books after a run of events without a
/// generation boundary: every sealed shard is full, but for a last one
/// sealed when the workers were done, which holds at least one game.
pub open spec fn shards_full(book: ShardBook) -> bool {
    &&& forall|i: int|
        0 <= i < book.sealed.len() - 1 ==> (#[trigger] book.sealed[i]).1 == book.games_per_shard
    &&& book.sealed.len() > 0 ==> 1 <= book.sealed.last().1 <= book.games_per_shard
    &&& book.sealed.len() > 0 && !book.done ==> book.sealed.last().1 == book.games_per_shard
}

/// Running one more event is one more step.
pub proof fn lemma_book_run_push(book: ShardBook, events: Seq<ShardEvent>, event: ShardEvent)
    ensures
        book_run(book, events.push(event)) == book_step(book_run(book, events), event),
{
    assert(events.push(event).drop_last() =~= events);
}

/// Shard indices are contiguous: the shards sealed after any run of events
/// have the indices `first_index`, `first_index + 1`, and so on, without gap
/// or repetition, and the open shard has the index after the last sealed one.
pub proof fn lemma_shard_indices_contiguous(games_per_shard: nat, first_index: nat, events: Seq<ShardEvent>)
    ensures
        book_invariant(
            book_run(initial_book(games_per_shard, first_index), events),
            games_per_shard,
            first_index,
        ),
        book_run(initial_book(games_per_shard, first_index), events).done <==> events.contains(
            ShardEvent::Done,
        ),
    decreases events.len(),
{
    let start = initial_book(games_per_shard, first_index);
    if events.len() == 0 {
    } else {
        let head = events.drop_last();
        lemma_shard_indices_contiguous(games_per_shard, first_index, head);
        let before = book_run(start, head);
        let after = book_step(before, events.last());
        assert(events =~= head.push(events.last()));
        if head.contains(ShardEvent::Done) {
            let k = choose|k: int| 0 <= k < head.len() && head[k] == ShardEvent::Done;
            assert(events[k] == ShardEvent::Done);
        }
        if events.contains(ShardEvent::Done) && !head.contains(ShardEvent::Done) {
            let k = choose|k: int| 0 <= k < events.len() && events[k] == ShardEvent::Done;
            if k < head.len() {
                assert(head[k] == ShardEvent::Done);
            }
        }
        if events.last() == ShardEvent::Done {
            assert(events[events.len() - 1] == ShardEvent::Done);
        }
    }
}

/// Without generation boundaries, and with at least one game to a shard,
/// every shard holds exactly `games_per_shard` games, except possibly the
/// last, which was sealed when the workers were done and holds at least one.
pub proof fn lemma_shards_full(games_per_shard: nat, first_index: nat, events: Seq<ShardEvent>)
    requires
        games_per_shard >= 1,
        !events.contains(ShardEvent::Boundary),
    ensures
        shards_full(book_run(initial_book(games_per_shard, first_index), events)),
    decreases events.len(),
{
    let start = initial_book(games_per_shard, first_index);
    if events.len() > 0 {
        let head = events.drop_last();
        assert(!head.contains(ShardEvent::Boundary)) by {
            if head.contains(ShardEvent::Boundary) {
                let k = choose|k: int| 0 <= k < head.len() && head[k] == ShardEvent::Boundary;
                assert(events[k] == ShardEvent::Boundary);
            }
        }
        assert(events.last() != ShardEvent::Boundary) by {
            assert(events[events.len() - 1] == events.last());
        }
        lemma_shards_full(games_per_shard, first_index, head);
        lemma_shard_indices_contiguous(games_per_shard, first_index, head);
        let before = book_run(start, head);
        let after = book_step(before, events.last());
        assert forall|i: int| 0 <= i < after.sealed.len() - 1 implies (#[trigger] after.sealed[i]).1
            == after.games_per_shard by {
            if i < before.sealed.len() {
                assert(after.sealed[i] == before.sealed[i]);
            }
        }
    }
}

/// No game is lost and none is written twice: after any run of events, the
/// games in the sealed shards and in the open one are as many as arrived
/// before the workers were done.
pub proof fn lemma_games_conserved(games_per_shard: nat, first_index: nat, events: Seq<ShardEvent>)
    ensures
        games_in(book_run(initial_book(games_per_shard, first_index), events).sealed) + book_run(
            initial_book(games_per_shard, first_index),
            events,
        ).open_games == games_before_done(events),
    decreases events.len(),
{
    let start = initial_book(games_per_shard, first_index);
    if events.len() > 0 {
        let head = events.drop_last();
        lemma_games_conserved(games_per_shard, first_index, head);
        lemma_shard_indices_contiguous(games_per_shard, first_index, head);
        let before = book_run(start, head);
        let after = book_step(before, events.last());
        if after.sealed.len() > before.sealed.len() {
            assert(after.sealed.drop_last() =~= before.sealed);
        }
    }
}

} // verus!

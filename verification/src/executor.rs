//! The CPU worker's decisions: how a search proceeds from one gather to the
//! next, when a move is due, which move is played, and when new settings
//! take effect.
//!
//! The search tree itself is not here. A worker asks its tree for the next
//! leaf, sends requests, folds answers back, and tells a `TreeSlot` what
//! happened; the slot says what may be done next.

use rand::rngs::StdRng;
use vstd::prelude::*;
use crate::board::Board;
use crate::channel::Mailbox;
use crate::random::random_below;
use crate::settings::BatchSizes;
use crate::simulation::{
    lemma_total_of_prefix, total_of, DistributionError, MoveRecord, RecordError, Simulation,
    VisitDistribution,
};

verus! {

/// What a tree answers when it is asked for the next leaf.
#[derive(Clone, Copy, Debug, PartialEq, Eq, Structural)]
pub enum GatherResult {
    /// A visit was completed without the network: a terminal leaf or a
    /// cached evaluation.
    Visit,
    /// A leaf needs the network. The request has to be sent and its answer
    /// folded back before the tree is asked again.
    Request,
    /// The tree takes no more visits. A move has to be played.
    Saturated,
}

/// What may be done next with a tree.
#[derive(Clone, Copy, Debug, PartialEq, Eq, Structural)]
pub enum SlotState {
    /// The tree may be asked for the next leaf.
    Searching,
    /// A request is out. Its answer has to be folded back first.
    AwaitingReply,
    /// The search for this move is over. A move has to be played.
    MoveDue,
    /// The answer to the request that was out will never come. The tree is
    /// to be dropped, and the game it was playing with it.
    Abandoned,
}

/// A step that is out of turn.
#[derive(Clone, Copy, Debug, PartialEq, Eq, Structural)]
pub enum SlotError {
    /// The tree was asked for a leaf while a request was out.
    ReplyPending,
    /// An answer was folded back though no request was out.
    NoRequestPending,
    /// The tree was asked for a leaf, or an answer arrived, though a move is
    /// due.
    MoveDue,
    /// A move was played before the search for it was over.
    MoveNotDue,
    /// The tree has been abandoned.
    Abandoned,
}

/// The progress of the search in one tree.
pub struct TreeSlot {
    state: SlotState,
    visits: u64,
    budget: u64,
}

/// The mathematical content of a slot.
pub struct TreeSlotView {
    pub state: SlotState,
    /// The visits completed in the search for the current move.
    pub visits: nat,
    /// The visits after which a move is due.
    pub budget: nat,
}

/// The state of a search that has completed `visits` of `budget` visits and
/// has no request out.
pub open spec fn state_at(visits: nat, budget: nat) -> SlotState {
    if visits >= budget {
        SlotState::MoveDue
    } else {
        SlotState::Searching
    }
}

/// A slot after its tree has answered a gather, or the reason why the gather
/// was out of turn.
pub open spec fn after_gather(slot: TreeSlotView, result: GatherResult) -> Result<
    TreeSlotView,
    SlotError,
> {
    match slot.state {
        SlotState::AwaitingReply => Err(SlotError::ReplyPending),
        SlotState::MoveDue => Err(SlotError::MoveDue),
        SlotState::Abandoned => Err(SlotError::Abandoned),
        SlotState::Searching => match result {
            GatherResult::Visit => Ok(
                TreeSlotView {
                    state: state_at(slot.visits + 1, slot.budget),
                    visits: slot.visits + 1,
                    ..slot
                },
            ),
            GatherResult::Request => Ok(TreeSlotView { state: SlotState::AwaitingReply, ..slot }),
            GatherResult::Saturated => Ok(TreeSlotView { state: SlotState::MoveDue, ..slot }),
        },
    }
}

/// A slot after an answer has been folded back into its tree, or the reason
/// why that was out of turn.
pub open spec fn after_reply(slot: TreeSlotView) -> Result<TreeSlotView, SlotError> {
    match slot.state {
        SlotState::Searching => Err(SlotError::NoRequestPending),
        SlotState::MoveDue => Err(SlotError::MoveDue),
        SlotState::Abandoned => Err(SlotError::Abandoned),
        SlotState::AwaitingReply => Ok(
            TreeSlotView {
                state: state_at(slot.visits + 1, slot.budget),
                visits: slot.visits + 1,
                ..slot
            },
        ),
    }
}

/// A slot after the reply port of the request that was out has closed, or the
/// reason why that was out of turn.
pub open spec fn after_reply_lost(slot: TreeSlotView) -> Result<TreeSlotView, SlotError> {
    match slot.state {
        SlotState::Searching => Err(SlotError::NoRequestPending),
        SlotState::MoveDue => Err(SlotError::MoveDue),
        SlotState::Abandoned => Err(SlotError::Abandoned),
        SlotState::AwaitingReply => Ok(TreeSlotView { state: SlotState::Abandoned, ..slot }),
    }
}

/// A slot after its move has been played and a search with `budget` visits
/// begun, or the reason why that was out of turn.
pub open spec fn after_move(slot: TreeSlotView, budget: nat) -> Result<TreeSlotView, SlotError> {
    match slot.state {
        SlotState::MoveDue => Ok(TreeSlotView { state: state_at(0, budget), visits: 0, budget }),
        SlotState::Abandoned => Err(SlotError::Abandoned),
        _ => Err(SlotError::MoveNotDue),
    }
}

impl View for TreeSlot {
    type V = TreeSlotView;

    closed spec fn view(&self) -> TreeSlotView {
        TreeSlotView { state: self.state, visits: self.visits as nat, budget: self.budget as nat }
    }
}

impl TreeSlot {
    #[verifier::type_invariant]
    spec fn well_formed(self) -> bool {
        self.state == SlotState::Searching || self.state == SlotState::AwaitingReply
            ==> self.visits < self.budget
    }

    /// A slot for a fresh tree whose first move is due after `budget`
    /// visits.
    pub fn new(budget: u64) -> (r: TreeSlot)
        ensures
            r@ == (TreeSlotView { state: state_at(0, budget as nat), visits: 0, budget: budget as nat }),
    {
        TreeSlot {
            state: if budget == 0 {
                SlotState::MoveDue
            } else {
                SlotState::Searching
            },
            visits: 0,
            budget,
        }
    }

    /// What may be done next.
    pub fn state(&self) -> (r: SlotState)
        ensures
            r == self@.state,
    {
        self.state
    }

    /// The visits completed in the search for the current move.
    pub fn visits(&self) -> (r: u64)
        ensures
            r == self@.visits,
    {
        self.visits
    }

    fn count_visit(&mut self)
        requires
            old(self).state == SlotState::Searching || old(self).state == SlotState::AwaitingReply,
        ensures
            final(self)@ == (TreeSlotView {
                state: state_at(old(self)@.visits + 1, old(self)@.budget),
                visits: old(self)@.visits + 1,
                budget: old(self)@.budget,
            }),
    {
        proof {
            use_type_invariant(&*self);
        }
        let visits: u64 = self.visits + 1;
        if visits >= self.budget {
            self.state = SlotState::MoveDue;
            self.visits = visits;
        } else {
            self.visits = visits;
            self.state = SlotState::Searching;
        }
    }

    /// Notes what the tree answered to a gather. A gather that was out of
    /// turn changes nothing.
    pub fn gathered(&mut self, result: GatherResult) -> (r: Result<(), SlotError>)
        ensures
            match r {
                Ok(()) => after_gather(old(self)@, result) == Ok::<TreeSlotView, SlotError>(
                    final(self)@,
                ),
                Err(e) => after_gather(old(self)@, result) == Err::<TreeSlotView, SlotError>(e)
                    && final(self)@ == old(self)@,
            },
    {
        match self.state {
            SlotState::AwaitingReply => Err(SlotError::ReplyPending),
            SlotState::MoveDue => Err(SlotError::MoveDue),
            SlotState::Abandoned => Err(SlotError::Abandoned),
            SlotState::Searching => {
                match result {
                    GatherResult::Visit => {
                        self.count_visit();
                    },
                    GatherResult::Request => {
                        proof {
                            use_type_invariant(&*self);
                        }
                        self.state = SlotState::AwaitingReply;
                    },
                    GatherResult::Saturated => {
                        self.state = SlotState::MoveDue;
                    },
                }
                Ok(())
            },
        }
    }

    /// Notes that the answer to the request that was out has been folded
    /// back into the tree. An answer that was out of turn changes nothing.
    pub fn replied(&mut self) -> (r: Result<(), SlotError>)
        ensures
            match r {
                Ok(()) => after_reply(old(self)@) == Ok::<TreeSlotView, SlotError>(final(self)@),
                Err(e) => after_reply(old(self)@) == Err::<TreeSlotView, SlotError>(e)
                    && final(self)@ == old(self)@,
            },
    {
        match self.state {
            SlotState::Searching => Err(SlotError::NoRequestPending),
            SlotState::MoveDue => Err(SlotError::MoveDue),
            SlotState::Abandoned => Err(SlotError::Abandoned),
            SlotState::AwaitingReply => {
                self.count_visit();
                Ok(())
            },
        }
    }

    /// Notes that the reply port of the request that was out has closed:
    /// the tree is abandoned. Out of turn this changes nothing.
    pub fn reply_lost(&mut self) -> (r: Result<(), SlotError>)
        ensures
            match r {
                Ok(()) => after_reply_lost(old(self)@) == Ok::<TreeSlotView, SlotError>(final(self)@),
                Err(e) => after_reply_lost(old(self)@) == Err::<TreeSlotView, SlotError>(e)
                    && final(self)@ == old(self)@,
            },
    {
        match self.state {
            SlotState::Searching => Err(SlotError::NoRequestPending),
            SlotState::MoveDue => Err(SlotError::MoveDue),
            SlotState::Abandoned => Err(SlotError::Abandoned),
            SlotState::AwaitingReply => {
                self.state = SlotState::Abandoned;
                Ok(())
            },
        }
    }

    /// Notes that the move that was due has been played and that the search
    /// for the next one has `budget` visits. A move that was not due changes
    /// nothing.
    pub fn move_played(&mut self, budget: u64) -> (r: Result<(), SlotError>)
        ensures
            match r {
                Ok(()) => after_move(old(self)@, budget as nat) == Ok::<TreeSlotView, SlotError>(
                    final(self)@,
                ),
                Err(e) => after_move(old(self)@, budget as nat) == Err::<TreeSlotView, SlotError>(e)
                    && final(self)@ == old(self)@,
            },
    {
        match self.state {
            SlotState::MoveDue => {
                if budget == 0 {
                    self.visits = 0;
                    self.budget = 0;
                } else {
                    self.budget = budget;
                    self.visits = 0;
                    self.state = SlotState::Searching;
                }
                Ok(())
            },
            SlotState::Abandoned => Err(SlotError::Abandoned),
            _ => Err(SlotError::MoveNotDue),
        }
    }
}

/// While a request is out the tree is not asked again: a gather is refused
/// until the answer has been folded back, and an answer is refused unless a
/// request is out.
pub proof fn lemma_apply_before_next_gather(slot: TreeSlotView, result: GatherResult)
    ensures
        slot.state == SlotState::AwaitingReply ==> after_gather(slot, result).is_err(),
        after_gather(slot, GatherResult::Request) matches Ok(next) ==> next.state
            == SlotState::AwaitingReply && after_reply(next).is_ok(),
        after_reply(slot).is_ok() <==> slot.state == SlotState::AwaitingReply,
{
}

/// An abandoned tree stays abandoned: every step is refused, so that no move
/// of its game is played any more and nothing of it is handed on.
pub proof fn lemma_abandoned_stays(slot: TreeSlotView, result: GatherResult, budget: nat)
    requires
        slot.state == SlotState::Abandoned,
    ensures
        after_gather(slot, result) == Err::<TreeSlotView, SlotError>(SlotError::Abandoned),
        after_reply(slot) == Err::<TreeSlotView, SlotError>(SlotError::Abandoned),
        after_reply_lost(slot) == Err::<TreeSlotView, SlotError>(SlotError::Abandoned),
        after_move(slot, budget) == Err::<TreeSlotView, SlotError>(SlotError::Abandoned),
{
}

/// A search goes on until its budget of visits is used up, and no longer:
/// while fewer visits are done a completed visit leaves the tree searching,
/// and the visit that fills the budget makes the move due.
pub proof fn lemma_budget_ends_search(slot: TreeSlotView)
    requires
        slot.state == SlotState::Searching,
        slot.visits < slot.budget,
    ensures
        after_gather(slot, GatherResult::Visit) matches Ok(next) && (next.state == SlotState::MoveDue
            <==> slot.visits + 1 == slot.budget),
{
}

/// How a move is chosen.
#[derive(Clone, Copy, Debug, PartialEq, Eq, Structural)]
pub enum SelectionMode {
    /// The most visited move.
    Greedy,
    /// A move drawn with a probability proportional to its visits.
    Proportional,
}

/// How the move at ply `ply` is chosen, plies counted from zero: greedily if
/// the temperature is zero, and from ply `zero_temp_move_count` on whatever
/// the temperature.
pub open spec fn selection_mode_spec(ply: u32, zero_temp_move_count: u32, temperature_is_zero: bool) -> SelectionMode {
    if temperature_is_zero || ply >= zero_temp_move_count {
        SelectionMode::Greedy
    } else {
        SelectionMode::Proportional
    }
}

/// Decides how the move at ply `ply` is chosen.
pub fn selection_mode(ply: u32, zero_temp_move_count: u32, temperature_is_zero: bool) -> (r: SelectionMode)
    ensures
        r == selection_mode_spec(ply, zero_temp_move_count, temperature_is_zero),
{
    if temperature_is_zero || ply >= zero_temp_move_count {
        SelectionMode::Greedy
    } else {
        SelectionMode::Proportional
    }
}

/// `i` is the first place at which `counts` is greatest.
pub open spec fn is_first_max(counts: Seq<u64>, i: int) -> bool {
    &&& 0 <= i < counts.len()
    &&& forall|j: int| 0 <= j < counts.len() ==> counts[j] <= counts[i]
    &&& forall|j: int| 0 <= j < i ==> counts[j] < counts[i]
}

/// The first place at which `counts` is greatest, or `None` if there is no
/// count.
pub fn argmax(counts: &Vec<u64>) -> (r: Option<usize>)
    ensures
        match r {
            Some(i) => is_first_max(counts@, i as int),
            None => counts@.len() == 0,
        },
{
    if counts.len() == 0 {
        return None;
    }
    let mut best: usize = 0;
    let mut j: usize = 1;
    while j < counts.len()
        invariant
            1 <= j <= counts@.len(),
            is_first_max(counts@.take(j as int), best as int),
        decreases counts@.len() - j,
    {
        let ghost before = counts@.take(j as int);
        let ghost after = counts@.take(j + 1);
        assert(forall|k: int| 0 <= k < j ==> after[k] == before[k]);
        if counts[j] > counts[best] {
            best = j;
        }
        j = j + 1;
    }
    assert(counts@.take(j as int) =~= counts@);
    Some(best)
}

/// `i` is the place that `ticket` falls on when the counts are laid end to
/// end: the counts before `i` add up to no more than `ticket`, and with the
/// count at `i` to more.
pub open spec fn ticket_falls_on(counts: Seq<u64>, ticket: nat, i: int) -> bool {
    &&& 0 <= i < counts.len()
    &&& total_of(counts.take(i)) <= ticket < total_of(counts.take(i + 1))
}

/// The count on which a ticket falls is not zero.
pub proof fn lemma_ticket_falls_on_visited(counts: Seq<u64>, ticket: nat, i: int)
    requires
        ticket_falls_on(counts, ticket, i),
    ensures
        counts[i] > 0,
{
    assert(counts.take(i + 1).drop_last() =~= counts.take(i));
}

/// The move on which `ticket` falls, or `None` if the ticket is not below
/// the sum of the counts.
pub fn pick(policy: &VisitDistribution, ticket: u64) -> (r: Option<usize>)
    ensures
        match r {
            Some(i) => ticket_falls_on(policy.counts_spec(), ticket as nat, i as int),
            None => ticket >= total_of(policy.counts_spec()),
        },
{
    let total = policy.total();
    if ticket >= total {
        return None;
    }
    let ghost counts = policy.counts_spec();
    let n = policy.len();
    let mut below: u64 = 0;
    let mut i: usize = 0;
    while i < n
        invariant
            i <= n,
            n == counts.len(),
            counts == policy.counts_spec(),
            below == total_of(counts.take(i as int)),
            below <= ticket,
            ticket < total_of(counts),
            total_of(counts) <= u64::MAX,
        decreases n - i,
    {
        proof {
            assert(counts.take(i + 1).drop_last() =~= counts.take(i as int));
            lemma_total_of_prefix(counts, i + 1);
        }
        let here = policy.count(i);
        if ticket - below < here {
            return Some(i);
        }
        below = below + here;
        i = i + 1;
    }
    proof {
        assert(counts.take(i as int) =~= counts);
    }
    None
}

/// Draws a move with a probability proportional to its visits. Whatever is
/// drawn, the move has been visited.
pub fn sample_move(policy: &VisitDistribution, rng: &mut StdRng) -> (r: usize)
    ensures
        r < policy.counts_spec().len(),
        policy.counts_spec()[r as int] > 0,
{
    let total = policy.total();
    let ticket = random_below(rng, total);
    match pick(policy, ticket) {
        Some(i) => {
            proof {
                lemma_ticket_falls_on_visited(policy.counts_spec(), ticket as nat, i as int);
            }
            i
        },
        None => {
            proof {
                assert(false);
            }
            0
        },
    }
}

/// The most visited move, the first of them if there are several.
pub fn most_visited(policy: &VisitDistribution) -> (r: usize)
    ensures
        is_first_max(policy.counts_spec(), r as int),
        policy.counts_spec()[r as int] > 0,
{
    let total = policy.total();
    match argmax(policy.counts()) {
        Some(best) => {
            proof {
                if policy.counts_spec()[best as int] == 0 {
                    lemma_all_zero_total(policy.counts_spec());
                }
            }
            best
        },
        None => {
            proof {
                assert(total_of(policy.counts_spec()) == 0);
                assert(false);
            }
            0
        },
    }
}

/// Counts that are all zero add up to zero.
pub proof fn lemma_all_zero_total(counts: Seq<u64>)
    requires
        forall|j: int| 0 <= j < counts.len() ==> counts[j] == 0,
    ensures
        total_of(counts) == 0,
    decreases counts.len(),
{
    if counts.len() > 0 {
        lemma_all_zero_total(counts.drop_last());
    }
}

/// Chooses the move to play: the most visited one, or one drawn in
/// proportion to the visits.
pub fn select_move(policy: &VisitDistribution, mode: SelectionMode, rng: &mut StdRng) -> (r: usize)
    ensures
        r < policy.counts_spec().len(),
        policy.counts_spec()[r as int] > 0,
        mode == SelectionMode::Greedy ==> is_first_max(policy.counts_spec(), r as int),
{
    match mode {
        SelectionMode::Greedy => most_visited(policy),
        SelectionMode::Proportional => sample_move(policy, rng),
    }
}

/// The number of searches a worker keeps going at once: the search batch
/// size, and exactly one for MuZero.
pub fn pool_size(sizes: BatchSizes) -> (r: usize)
    ensures
        r == (if sizes.muzero {
            1
        } else {
            sizes.search_batch_size
        }),
{
    if sizes.muzero {
        1
    } else {
        sizes.search_batch_size
    }
}

/// Why a game is over.
#[derive(Clone, Copy, Debug, PartialEq, Eq, Structural)]
pub enum GameEnd {
    /// The board says so.
    Terminal,
    /// The player to move has given up.
    Resigned,
    /// The game has reached the greatest length allowed.
    TooLong,
}

/// Why a game is over after `ply` moves, if it is: because its board is
/// finished, or else because a player has resigned, or else because it has
/// reached the greatest length allowed, if there is one.
pub open spec fn game_end_spec(board_done: bool, resigned: bool, ply: u64, max_game_length: Option<u64>) -> Option<GameEnd> {
    if board_done {
        Some(GameEnd::Terminal)
    } else if resigned {
        Some(GameEnd::Resigned)
    } else if max_game_length matches Some(max) && ply >= max {
        Some(GameEnd::TooLong)
    } else {
        None
    }
}

/// Decides whether a game is over after `ply` moves.
pub fn game_end(board_done: bool, resigned: bool, ply: u64, max_game_length: Option<u64>) -> (r: Option<GameEnd>)
    ensures
        r == game_end_spec(board_done, resigned, ply, max_game_length),
{
    if board_done {
        return Some(GameEnd::Terminal);
    }
    if resigned {
        return Some(GameEnd::Resigned);
    }
    match max_game_length {
        Some(max) => {
            if ply >= max {
                Some(GameEnd::TooLong)
            } else {
                None
            }
        },
        None => None,
    }
}

/// The settings a worker plays by. `S` is the type of the settings.
pub struct ActiveSettings<S> {
    current: S,
}

impl<S> View for ActiveSettings<S> {
    type V = S;

    closed spec fn view(&self) -> S {
        self.current
    }
}

impl<S> ActiveSettings<S> {
    /// A worker's settings at its start.
    pub fn new(initial: S) -> (r: ActiveSettings<S>)
        ensures
            r@ == initial,
    {
        ActiveSettings { current: initial }
    }

    /// The settings in effect.
    pub fn current(&self) -> (r: &S)
        ensures
            *r == self@,
    {
        &self.current
    }

    /// To be called between two moves, and nowhere else: the settings that
    /// wait in the mailbox, if any, take effect. Says whether they did.
    pub fn at_move_boundary(&mut self, mailbox: &mut Mailbox<S>) -> (changed: bool)
        ensures
            final(mailbox)@ == None::<S>,
            changed == old(mailbox)@.is_some(),
            final(self)@ == (match old(mailbox)@ {
                Some(s) => s,
                None => old(self)@,
            }),
    {
        match mailbox.take() {
            Some(s) => {
                self.current = s;
                true
            },
            None => false,
        }
    }
}

/// What a search found for the move that is due.
pub struct Searched<E> {
    /// The visits of the available moves, in their order.
    pub visits: Vec<u64>,
    /// Whether the search ran with its full budget.
    pub is_full_search: bool,
    /// The values the search arrived at.
    pub zero_evaluation: E,
    /// The values the network gave.
    pub net_evaluation: E,
    /// Whether the player to move gives the game up after this move.
    pub resigned: bool,
}

/// The settings that bear on playing a move.
#[derive(Clone, Copy, Debug, PartialEq, Eq, Structural)]
pub struct MoveSettings {
    /// The ply from which on the most visited move is played.
    pub zero_temp_move_count: u32,
    /// Whether the temperature is zero.
    pub temperature_is_zero: bool,
    /// The greatest length of a game, if there is one.
    pub max_game_length: Option<u64>,
    /// The visits of the search for the next move.
    pub next_budget: u64,
}

/// What came of playing a move.
#[derive(Clone, Copy, Debug, PartialEq, Eq, Structural)]
pub struct Advanced {
    /// The place of the move that was played among the available moves.
    pub move_index: usize,
    /// Why the game is over, if it is.
    pub end: Option<GameEnd>,
}

/// Why no move was played.
#[derive(Clone, Copy, Debug, PartialEq, Eq, Structural)]
pub enum AdvanceError {
    /// No move is due.
    Slot(SlotError),
    /// The visits are no distribution.
    Distribution(DistributionError),
    /// The game does not take the move.
    Record(RecordError),
}

/// How the move after `played` moves is chosen.
pub open spec fn mode_after(played: nat, settings: MoveSettings) -> SelectionMode {
    if settings.temperature_is_zero || played >= settings.zero_temp_move_count {
        SelectionMode::Greedy
    } else {
        SelectionMode::Proportional
    }
}

/// Why no move can be played on `board` with these visits while the slot is
/// as it is, or `None` if one can: a move has to be due, the visits have to
/// be a distribution, the game has to be going on, and there has to be one
/// visit count for each available move.
pub open spec fn advance_error<B: Board>(slot: TreeSlotView, board: B, visits: Seq<u64>) -> Option<
    AdvanceError,
> {
    if slot.state == SlotState::Abandoned {
        Some(AdvanceError::Slot(SlotError::Abandoned))
    } else if slot.state != SlotState::MoveDue {
        Some(AdvanceError::Slot(SlotError::MoveNotDue))
    } else if total_of(visits) == 0 {
        Some(AdvanceError::Distribution(DistributionError::NoVisits))
    } else if total_of(visits) > u64::MAX {
        Some(AdvanceError::Distribution(DistributionError::TooManyVisits))
    } else if board.outcome_spec().is_some() {
        Some(AdvanceError::Record(RecordError::BoardDone))
    } else if visits.len() != board.move_count_spec() {
        Some(AdvanceError::Record(RecordError::PolicyLengthMismatch))
    } else {
        None
    }
}

/// Plays the move that is due in `game`.
///
/// The visits are renormalised into the policy that is recorded. The move is
/// the most visited one if the temperature is zero or enough moves have been
/// played, else one drawn in proportion to the visits; in either case it has
/// been visited. The game is then over if its board is finished, or the
/// player has resigned, or it has reached its greatest length. If it is not
/// over, the search for the next move begins. On an error nothing changes.
pub fn advance_move<B: Board, E>(
    game: &mut Simulation<B, E>,
    slot: &mut TreeSlot,
    searched: Searched<E>,
    settings: MoveSettings,
    rng: &mut StdRng,
) -> (r: Result<Advanced, AdvanceError>)
    ensures
        final(game).well_formed(),
        match r {
            Ok(done) => {
                let board = old(game).final_board_spec();
                let mv = board.move_at_spec(done.move_index);
                let played = old(game).positions_spec().len();
                &&& advance_error(old(slot)@, board, searched.visits@).is_none()
                &&& done.move_index < searched.visits@.len()
                &&& searched.visits@[done.move_index as int] > 0
                &&& mode_after(played, settings) == SelectionMode::Greedy ==> is_first_max(
                    searched.visits@,
                    done.move_index as int,
                )
                &&& final(game).positions_spec().len() == played + 1
                &&& final(game).positions_spec().take(played as int) == old(game).positions_spec()
                &&& final(game).positions_spec()[played as int].board == board
                &&& final(game).positions_spec()[played as int].played_mv == mv
                &&& final(game).positions_spec()[played as int].search_policy.counts_spec()
                    == searched.visits@
                &&& final(game).positions_spec()[played as int].is_full_search
                    == searched.is_full_search
                &&& final(game).positions_spec()[played as int].zero_visits == old(slot)@.visits
                &&& final(game).positions_spec()[played as int].zero_evaluation
                    == searched.zero_evaluation
                &&& final(game).positions_spec()[played as int].net_evaluation
                    == searched.net_evaluation
                &&& final(game).final_board_spec() == board.play_spec(mv)
                &&& final(game).start_spec() == old(game).start_spec()
                &&& done.end == game_end_spec(
                    board.play_spec(mv).outcome_spec().is_some(),
                    searched.resigned,
                    (played + 1) as u64,
                    settings.max_game_length,
                )
                &&& final(slot)@ == (if done.end.is_none() {
                    TreeSlotView {
                        state: state_at(0, settings.next_budget as nat),
                        visits: 0,
                        budget: settings.next_budget as nat,
                    }
                } else {
                    old(slot)@
                })
            },
            Err(e) => {
                &&& advance_error(old(slot)@, old(game).final_board_spec(), searched.visits@) == Some(
                    e,
                )
                &&& final(game).positions_spec() == old(game).positions_spec()
                &&& final(game).final_board_spec() == old(game).final_board_spec()
                &&& final(slot)@ == old(slot)@
            },
        },
{
    let played = game.len();
    match slot.state() {
        SlotState::MoveDue => {},
        SlotState::Abandoned => {
            return Err(AdvanceError::Slot(SlotError::Abandoned));
        },
        _ => {
            return Err(AdvanceError::Slot(SlotError::MoveNotDue));
        },
    }
    let ghost visits = searched.visits@;
    let policy = match VisitDistribution::from_counts(searched.visits) {
        Ok(policy) => policy,
        Err(e) => {
            return Err(AdvanceError::Distribution(e));
        },
    };
    if game.final_board().outcome().is_some() {
        return Err(AdvanceError::Record(RecordError::BoardDone));
    }
    if policy.len() != game.final_board().move_count() {
        return Err(AdvanceError::Record(RecordError::PolicyLengthMismatch));
    }
    let ply: u32 = if played > 0xffff_ffff {
        0xffff_ffff
    } else {
        played as u32
    };
    let mode = selection_mode(ply, settings.zero_temp_move_count, settings.temperature_is_zero);
    let move_index = select_move(&policy, mode, rng);
    let mv = match game.final_board().available_move(move_index) {
        Some(mv) => mv,
        None => {
            proof {
                assert(false);
            }
            return Err(AdvanceError::Record(RecordError::UnavailableMove));
        },
    };
    let found = MoveRecord {
        is_full_search: searched.is_full_search,
        zero_visits: slot.visits(),
        search_policy: policy,
        zero_evaluation: searched.zero_evaluation,
        net_evaluation: searched.net_evaluation,
    };
    match game.record(mv, found) {
        Ok(()) => {},
        Err(e) => {
            proof {
                assert(false);
            }
            return Err(AdvanceError::Record(e));
        },
    }
    let done = game.final_board().outcome().is_some();
    let now: u64 = game.len() as u64;
    let end = game_end(done, searched.resigned, now, settings.max_game_length);
    if end.is_none() {
        match slot.move_played(settings.next_budget) {
            Ok(()) => {},
            Err(_) => {
                proof {
                    assert(false);
                }
            },
        }
    }
    assert(game.positions_spec().take(played as int) =~= old(game).positions_spec());
    Ok(Advanced { move_index, end })
}

} // verus!

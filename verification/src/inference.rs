//! The inference thread's bookkeeping: how requests are gathered into a
//! batch, how the outputs of one evaluation are handed back to the requests
//! that asked for them, and which network is in use.

use vstd::prelude::*;
use crate::channel::Mailbox;
use crate::protocol::GraphMessage;
use crate::settings::BatchSizes;

verus! {

/// What an inference thread does next while it gathers a batch.
#[derive(Clone, Copy, Debug, PartialEq, Eq, Structural)]
pub enum BatchStep {
    /// Wait on the request channel until a request arrives.
    Wait,
    /// Look at the request channel without waiting.
    Poll,
    /// Evaluate the batch.
    Evaluate,
}

/// A batch of requests in the making. `T` is the type of a request.
pub struct BatchAssembler<T> {
    batch: Vec<T>,
    limit: usize,
    drained: bool,
}

impl<T> BatchAssembler<T> {
    #[verifier::type_invariant]
    spec fn well_formed(self) -> bool {
        &&& self.batch@.len() <= self.limit
        &&& self.drained ==> self.batch@.len() > 0
    }

    /// The requests gathered so far, in the order in which they arrived.
    pub closed spec fn batch_spec(&self) -> Seq<T> {
        self.batch@
    }

    /// The largest number of requests in a batch.
    pub closed spec fn limit_spec(&self) -> usize {
        self.limit
    }

    /// Whether the request channel was found empty since the batch was
    /// begun.
    pub closed spec fn drained_spec(&self) -> bool {
        self.drained
    }

    /// What to do next: wait for the first request of a batch, poll for more
    /// while there is room and the channel has not run dry, then evaluate.
    pub open spec fn step_spec(&self) -> BatchStep {
        if self.batch_spec().len() == 0 {
            if self.limit_spec() == 0 {
                BatchStep::Evaluate
            } else {
                BatchStep::Wait
            }
        } else if self.batch_spec().len() < self.limit_spec() && !self.drained_spec() {
            BatchStep::Poll
        } else {
            BatchStep::Evaluate
        }
    }

    /// An empty batch that takes up to `limit` requests.
    pub fn new(limit: usize) -> (r: BatchAssembler<T>)
        ensures
            r.batch_spec() == Seq::<T>::empty(),
            r.limit_spec() == limit,
            !r.drained_spec(),
    {
        BatchAssembler { batch: Vec::new(), limit, drained: false }
    }

    /// What to do next.
    pub fn step(&self) -> (r: BatchStep)
        ensures
            r == self.step_spec(),
            r == BatchStep::Evaluate && self.limit_spec() > 0 ==> 1 <= self.batch_spec().len()
                <= self.limit_spec(),
    {
        proof {
            use_type_invariant(self);
        }
        if self.batch.len() == 0 {
            if self.limit == 0 {
                BatchStep::Evaluate
            } else {
                BatchStep::Wait
            }
        } else if self.batch.len() < self.limit && !self.drained {
            BatchStep::Poll
        } else {
            BatchStep::Evaluate
        }
    }

    /// Adds a request that arrived. A request that arrives when the batch is
    /// due for evaluation is handed back.
    pub fn add(&mut self, request: T) -> (r: Result<(), T>)
        ensures
            final(self).limit_spec() == old(self).limit_spec(),
            final(self).drained_spec() == old(self).drained_spec(),
            match r {
                Ok(()) => old(self).step_spec() != BatchStep::Evaluate && final(self).batch_spec()
                    == old(self).batch_spec().push(request),
                Err(back) => back == request && old(self).step_spec() == BatchStep::Evaluate
                    && final(self).batch_spec() == old(self).batch_spec(),
            },
    {
        proof {
            use_type_invariant(&*self);
        }
        if self.batch.len() >= self.limit || self.drained {
            return Err(request);
        }
        let mut batch = Vec::new();
        core::mem::swap(&mut self.batch, &mut batch);
        batch.push(request);
        self.batch = batch;
        Ok(())
    }

    /// Notes that the request channel was found empty. A batch that holds a
    /// request is then due for evaluation; an empty one keeps waiting.
    pub fn nothing_pending(&mut self)
        ensures
            final(self).limit_spec() == old(self).limit_spec(),
            final(self).batch_spec() == old(self).batch_spec(),
            final(self).drained_spec() == (old(self).drained_spec() || old(self).batch_spec().len()
                > 0),
    {
        proof {
            use_type_invariant(&*self);
        }
        if self.batch.len() > 0 {
            self.drained = true;
        }
    }

    /// Takes the batch out for evaluation and begins the next one. `None`
    /// while the batch is not due.
    pub fn take(&mut self) -> (r: Option<Vec<T>>)
        ensures
            final(self).limit_spec() == old(self).limit_spec(),
            match r {
                Some(batch) => {
                    &&& old(self).step_spec() == BatchStep::Evaluate
                    &&& batch@ == old(self).batch_spec()
                    &&& batch@.len() <= old(self).limit_spec()
                    &&& old(self).limit_spec() > 0 ==> batch@.len() >= 1
                    &&& final(self).batch_spec() == Seq::<T>::empty()
                    &&& !final(self).drained_spec()
                },
                None => {
                    &&& old(self).step_spec() != BatchStep::Evaluate
                    &&& final(self).batch_spec() == old(self).batch_spec()
                    &&& final(self).drained_spec() == old(self).drained_spec()
                },
            },
    {
        proof {
            use_type_invariant(&*self);
        }
        let due = if self.batch.len() == 0 {
            self.limit == 0
        } else {
            !(self.batch.len() < self.limit && !self.drained)
        };
        if !due {
            return None;
        }
        self.drained = false;
        let mut batch = Vec::new();
        core::mem::swap(&mut self.batch, &mut batch);
        Some(batch)
    }
}

/// The greatest number of requests in one evaluation: the GPU batch size,
/// or, for the root steps of MuZero, the root batch size.
pub fn batch_limit(sizes: BatchSizes, root_step: bool) -> (r: usize)
    ensures
        r == (if sizes.muzero && root_step {
            sizes.gpu_batch_size_root
        } else {
            sizes.gpu_batch_size
        }),
{
    if sizes.muzero && root_step {
        sizes.gpu_batch_size_root
    } else {
        sizes.gpu_batch_size
    }
}

/// Row `i` of a flat run of `rows` rows of `width` entries each.
pub open spec fn row_of<T>(flat: Seq<T>, width: int, i: int) -> Seq<T> {
    flat.subrange(i * width, (i + 1) * width)
}

/// Splits the output of one evaluation into one row for each request of the
/// batch: row `i` belongs to request `i`. `None` unless `flat` holds exactly
/// `rows` rows of `width` entries.
pub fn split_rows<T: Copy>(flat: &Vec<T>, rows: usize, width: usize) -> (r: Option<Vec<Vec<T>>>)
    ensures
        r.is_some() <==> flat@.len() == rows * width,
        r matches Some(out) ==> out@.len() == rows && forall|i: int|
            0 <= i < rows ==> (#[trigger] out@[i])@ == row_of(flat@, width as int, i),
{
    let len: usize = flat.len();
    match rows.checked_mul(width) {
        None => {
            return None;
        },
        Some(n) => {
            if n != len {
                return None;
            }
        },
    }
    let mut out: Vec<Vec<T>> = Vec::new();
    let mut i: usize = 0;
    while i < rows
        invariant
            i <= rows,
            flat@.len() == rows * width,
            flat@.len() <= usize::MAX,
            out@.len() == i,
            forall|k: int| 0 <= k < i ==> (#[trigger] out@[k])@ == row_of(flat@, width as int, k),
        decreases rows - i,
    {
        assert(i * width + width <= rows * width) by (nonlinear_arith)
            requires
                i < rows,
                width >= 0,
        ;
        assert((i + 1) * width == i * width + width) by (nonlinear_arith);
        assert(0 <= i * width) by (nonlinear_arith)
            requires
                i >= 0,
                width >= 0,
        ;
        let base: usize = i * width;
        let mut row: Vec<T> = Vec::new();
        let mut j: usize = 0;
        while j < width
            invariant
                j <= width,
                base == i * width,
                base + width <= flat@.len(),
                flat@.len() <= usize::MAX,
                row@ == flat@.subrange(base as int, base + j),
            decreases width - j,
        {
            row.push(flat[base + j]);
            assert(row@ =~= flat@.subrange(base as int, base + j + 1));
            j = j + 1;
        }
        out.push(row);
        i = i + 1;
    }
    Some(out)
}

/// Rows of `width` entries each, one after the other.
pub open spec fn stacked<T>(rows: Seq<Vec<T>>, width: int) -> Seq<T> {
    Seq::new((rows.len() * width) as nat, |k: int| rows[k / width]@[k % width])
}

/// Stacks the inputs of a batch into one run of entries: row `i` of the
/// stack is the input of request `i`. `None` unless every input has `width`
/// entries and the stack fits in memory.
pub fn stack_rows<T: Copy>(rows: &Vec<Vec<T>>, width: usize) -> (r: Option<Vec<T>>)
    ensures
        r.is_some() <==> (forall|i: int| 0 <= i < rows@.len() ==> (#[trigger] rows@[i])@.len() == width)
            && rows@.len() * width <= usize::MAX,
        r matches Some(flat) ==> flat@ == stacked(rows@, width as int) && forall|i: int|
            0 <= i < rows@.len() ==> #[trigger] row_of(flat@, width as int, i) == rows@[i]@,
{
    let count = rows.len();
    let mut i: usize = 0;
    while i < count
        invariant
            i <= count,
            count == rows@.len(),
            forall|k: int| 0 <= k < i ==> (#[trigger] rows@[k])@.len() == width,
        decreases count - i,
    {
        if rows[i].len() != width {
            return None;
        }
        i = i + 1;
    }
    if count.checked_mul(width).is_none() {
        return None;
    }
    let mut flat: Vec<T> = Vec::new();
    let mut i: usize = 0;
    while i < count
        invariant
            i <= count,
            count == rows@.len(),
            count * width <= usize::MAX,
            forall|k: int| 0 <= k < count ==> (#[trigger] rows@[k])@.len() == width,
            flat@.len() == i * width,
            forall|k: int| 0 <= k < i * width ==> #[trigger] flat@[k] == rows@[k / width as int]@[k % width as int],
        decreases count - i,
    {
        let row = &rows[i];
        let ghost base = flat@;
        assert((i + 1) * width == i * width + width) by (nonlinear_arith);
        let mut j: usize = 0;
        while j < width
            invariant
                j <= width,
                i < count,
                count == rows@.len(),
                row@ == rows@[i as int]@,
                row@.len() == width,
                base.len() == i * width,
                flat@ == base + row@.take(j as int),
            decreases width - j,
        {
            flat.push(row[j]);
            assert(flat@ =~= base + row@.take(j + 1));
            j = j + 1;
        }
        proof {
            assert(row@.take(width as int) =~= row@);
            assert forall|k: int| 0 <= k < (i + 1) * width implies #[trigger] flat@[k] == rows@[k
                / width as int]@[k % width as int] by {
                if k >= i * width {
                    let w = width as int;
                    let m = k - i * w;
                    assert(0 <= m < w);
                    assert(k / w == i && k % w == m) by (nonlinear_arith)
                        requires
                            k == i * w + m,
                            0 <= m < w,
                            i >= 0,
                    ;
                    assert(flat@[k] == row@[m]);
                } else {
                    assert(flat@[k] == base[k]);
                }
            }
        }
        i = i + 1;
    }
    proof {
        let w = width as int;
        assert(flat@ =~= stacked(rows@, w));
        assert forall|r: int| 0 <= r < rows@.len() implies #[trigger] row_of(flat@, w, r) == rows@[r]@ by {
            assert(r * w + w <= rows@.len() * w) by (nonlinear_arith)
                requires
                    0 <= r < rows@.len(),
                    w >= 0,
            ;
            assert((r + 1) * w == r * w + w) by (nonlinear_arith);
            assert forall|m: int| 0 <= m < w implies flat@[r * w + m] == rows@[r]@[m] by {
                assert((r * w + m) / w == r && (r * w + m) % w == m) by (nonlinear_arith)
                    requires
                        0 <= m < w,
                        r >= 0,
                ;
            }
            assert(row_of(flat@, w, r) =~= rows@[r]@);
        }
    }
    Some(flat)
}

/// Hands each request of a batch the row of the output that belongs to it:
/// the request at place `i` gets row `i`. `None` unless `flat` holds exactly
/// one row of `width` entries for each request.
pub fn answer_batch<R, T: Copy>(requests: Vec<R>, flat: &Vec<T>, width: usize) -> (r: Option<
    Vec<(R, Vec<T>)>,
>)
    ensures
        r.is_some() <==> flat@.len() == requests@.len() * width,
        r matches Some(out) ==> out@.len() == requests@.len() && forall|i: int|
            0 <= i < out@.len() ==> (#[trigger] out@[i]).0 == requests@[i] && out@[i].1@ == row_of(
                flat@,
                width as int,
                i,
            ),
{
    let count = requests.len();
    let mut rows = match split_rows(flat, count, width) {
        Some(rows) => rows,
        None => {
            return None;
        },
    };
    let ghost all_rows = rows@;
    let mut requests = requests;
    let ghost all_requests = requests@;
    let mut out: Vec<(R, Vec<T>)> = Vec::new();
    while requests.len() > 0
        invariant
            requests@.len() == rows@.len(),
            requests@.len() + out@.len() == count,
            count == all_requests.len(),
            all_rows.len() == count,
            requests@ == all_requests.take(requests@.len() as int),
            rows@ == all_rows.take(rows@.len() as int),
            forall|i: int|
                0 <= i < out@.len() ==> (#[trigger] out@[i]).0 == all_requests[count - 1 - i]
                    && out@[i].1 == all_rows[count - 1 - i],
        decreases requests@.len(),
    {
        let request = requests.pop().unwrap();
        let row = rows.pop().unwrap();
        out.push((request, row));
    }
    let mut ordered: Vec<(R, Vec<T>)> = Vec::new();
    while out.len() > 0
        invariant
            out@.len() + ordered@.len() == count,
            count == all_requests.len(),
            all_rows.len() == count,
            forall|i: int|
                0 <= i < out@.len() ==> (#[trigger] out@[i]).0 == all_requests[count - 1 - i]
                    && out@[i].1 == all_rows[count - 1 - i],
            forall|i: int|
                0 <= i < ordered@.len() ==> (#[trigger] ordered@[i]).0 == all_requests[i]
                    && ordered@[i].1 == all_rows[i],
        decreases out@.len(),
    {
        let pair = out.pop().unwrap();
        ordered.push(pair);
    }
    Some(ordered)
}

/// The entries of `row` at the places `indices`, in the order of `indices`.
pub open spec fn picked<T>(row: Seq<T>, indices: Seq<usize>) -> Seq<T> {
    Seq::new(indices.len(), |k: int| row[indices[k] as int])
}

/// Picks from a row over the whole policy space the entries of the moves
/// that were available when the request was made: entry `k` of the answer is
/// the row's entry at `indices[k]`. `None` if an index lies outside the row.
pub fn pick_policy<T: Copy>(row: &Vec<T>, indices: &Vec<usize>) -> (r: Option<Vec<T>>)
    ensures
        r.is_some() <==> forall|k: int| 0 <= k < indices@.len() ==> #[trigger] indices@[k] < row@.len(),
        r matches Some(out) ==> out@ == picked(row@, indices@),
{
    let mut out: Vec<T> = Vec::new();
    let mut k: usize = 0;
    while k < indices.len()
        invariant
            k <= indices@.len(),
            out@.len() == k,
            forall|j: int| 0 <= j < k ==> #[trigger] indices@[j] < row@.len() && out@[j] == row@[indices@[j] as int],
        decreases indices@.len() - k,
    {
        let at = indices[k];
        if at >= row.len() {
            return None;
        }
        out.push(row[at]);
        k = k + 1;
    }
    assert(out@ =~= picked(row@, indices@));
    Some(out)
}

/// The network an inference thread evaluates with. `G` is the type of a
/// loaded network; without one the thread answers with a uniform policy.
pub struct GraphState<G> {
    network: Option<G>,
}

impl<G> View for GraphState<G> {
    type V = Option<G>;

    closed spec fn view(&self) -> Option<G> {
        self.network
    }
}

/// The network in use after a graph message.
pub open spec fn after_message<G>(message: GraphMessage<G>) -> Option<G> {
    match message {
        GraphMessage::Network(g) => Some(g),
        GraphMessage::Dummy => None,
    }
}

impl<G> GraphState<G> {
    /// A thread that has no network yet.
    pub fn new() -> (r: GraphState<G>)
        ensures
            r@ == None::<G>,
    {
        GraphState { network: None }
    }

    /// The network to evaluate the next batch with, or `None` to answer with
    /// a uniform policy.
    pub fn network(&self) -> (r: Option<&G>)
        ensures
            match r {
                Some(g) => self@ == Some(*g),
                None => self@ == None::<G>,
            },
    {
        self.network.as_ref()
    }

    /// Puts a graph message into effect and hands back the network that was
    /// in use, to be dropped.
    pub fn apply(&mut self, message: GraphMessage<G>) -> (replaced: Option<G>)
        ensures
            final(self)@ == after_message(message),
            replaced == old(self)@,
    {
        let mut next = match message {
            GraphMessage::Network(g) => Some(g),
            GraphMessage::Dummy => None,
        };
        core::mem::swap(&mut self.network, &mut next);
        next
    }

    /// To be called between two batches: puts the waiting graph message into
    /// effect, if there is one, and hands back the network it replaces.
    pub fn at_batch_boundary(&mut self, mailbox: &mut Mailbox<GraphMessage<G>>) -> (replaced: Option<G>)
        ensures
            final(mailbox)@ == None::<GraphMessage<G>>,
            match old(mailbox)@ {
                Some(message) => final(self)@ == after_message(message) && replaced == old(self)@,
                None => final(self)@ == old(self)@ && replaced == None::<G>,
            },
    {
        match mailbox.take() {
            Some(message) => self.apply(message),
            None => None,
        }
    }
}

} // verus!

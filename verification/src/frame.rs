//! Frames: a payload of bytes behind four bytes that give its length, most
//! significant byte first. Messages on the control connection and games in a
//! shard are framed in this way.

use vstd::prelude::*;

verus! {

/// The number of bytes of a length prefix.
pub const PREFIX_LEN: usize = 4;

/// The greatest length a prefix can give.
pub const MAX_PAYLOAD: usize = 0xffff_ffff;

/// The length that four bytes give.
#[verifier::opaque]
pub open spec fn prefix_value(prefix: Seq<u8>) -> nat {
    (prefix[0] as nat) * 0x100_0000 + (prefix[1] as nat) * 0x1_0000 + (prefix[2] as nat) * 0x100
        + prefix[3] as nat
}

/// The four bytes that give the length `len`.
#[verifier::opaque]
pub open spec fn prefix_of(len: nat) -> Seq<u8> {
    seq![
        ((len / 0x100_0000) % 0x100) as u8,
        ((len / 0x1_0000) % 0x100) as u8,
        ((len / 0x100) % 0x100) as u8,
        (len % 0x100) as u8,
    ]
}

/// A payload behind its prefix.
pub open spec fn framed(payload: Seq<u8>) -> Seq<u8> {
    prefix_of(payload.len()) + payload
}

/// The prefix of a length gives that length.
pub proof fn lemma_prefix_round_trip(len: nat)
    requires
        len <= MAX_PAYLOAD,
    ensures
        prefix_of(len).len() == PREFIX_LEN,
        prefix_value(prefix_of(len)) == len,
{
    reveal(prefix_of);
    reveal(prefix_value);
}

/// A prefix has four bytes.
pub proof fn lemma_prefix_len(len: nat)
    ensures
        prefix_of(len).len() == PREFIX_LEN,
{
    reveal(prefix_of);
}

/// The four bytes that give the length `len`, or `None` if `len` is too
/// great for four bytes.
pub fn encode_prefix(len: usize) -> (r: Option<[u8; 4]>)
    ensures
        r.is_some() <==> len <= MAX_PAYLOAD,
        r matches Some(prefix) ==> prefix@ == prefix_of(len as nat),
{
    if len > MAX_PAYLOAD {
        return None;
    }
    let prefix: [u8; 4] = [
        ((len / 0x100_0000) % 0x100) as u8,
        ((len / 0x1_0000) % 0x100) as u8,
        ((len / 0x100) % 0x100) as u8,
        (len % 0x100) as u8,
    ];
    assert(prefix@ =~= prefix_of(len as nat)) by {
        reveal(prefix_of);
    }
    Some(prefix)
}

/// The length that a prefix gives.
pub fn decode_prefix(prefix: &[u8; 4]) -> (r: usize)
    ensures
        r == prefix_value(prefix@),
        r <= MAX_PAYLOAD,
{
    let a: u64 = prefix[0] as u64;
    let b: u64 = prefix[1] as u64;
    let c: u64 = prefix[2] as u64;
    let d: u64 = prefix[3] as u64;
    let value: u64 = a * 0x100_0000 + b * 0x1_0000 + c * 0x100 + d;
    assert(value <= usize::MAX) by {
        assert(value <= 0xffff_ffff);
        assert(usize::MAX >= 0xffff_ffff);
    }
    proof {
        reveal(prefix_value);
    }
    value as usize
}

/// Puts `payload` behind its prefix. `None` if it is too long for one.
pub fn frame(payload: &Vec<u8>) -> (r: Option<Vec<u8>>)
    ensures
        r.is_some() <==> payload@.len() <= MAX_PAYLOAD,
        r matches Some(bytes) ==> bytes@ == framed(payload@),
{
    let prefix = match encode_prefix(payload.len()) {
        Some(p) => p,
        None => {
            return None;
        },
    };
    let mut bytes: Vec<u8> = Vec::new();
    bytes.push(prefix[0]);
    bytes.push(prefix[1]);
    bytes.push(prefix[2]);
    bytes.push(prefix[3]);
    assert(bytes@ =~= prefix@);
    let mut i: usize = 0;
    while i < payload.len()
        invariant
            i <= payload@.len(),
            bytes@ == prefix_of(payload@.len()) + payload@.take(i as int),
        decreases payload@.len() - i,
    {
        bytes.push(payload[i]);
        assert(bytes@ =~= prefix_of(payload@.len()) + payload@.take(i + 1));
        i = i + 1;
    }
    assert(payload@.take(i as int) =~= payload@);
    Some(bytes)
}

/// What stands at the start of a run of bytes.
#[derive(Debug, PartialEq, Eq)]
pub enum Unframed {
    /// Not a whole frame yet: so many bytes are missing at least.
    Incomplete { missing: usize },
    /// A frame of `used` bytes with this payload.
    Complete { payload: Vec<u8>, used: usize },
}

/// The number of bytes of the frame at the start of `buffer`, as far as it
/// can be told: four while the prefix is not whole, then four and the length
/// that the prefix gives.
pub open spec fn frame_len(buffer: Seq<u8>) -> nat {
    if buffer.len() < PREFIX_LEN {
        PREFIX_LEN as nat
    } else {
        PREFIX_LEN as nat + prefix_value(buffer.take(PREFIX_LEN as int))
    }
}

/// Takes the frame at the start of `buffer` apart.
pub fn unframe(buffer: &Vec<u8>) -> (r: Unframed)
    ensures
        match r {
            Unframed::Incomplete { missing } => buffer@.len() < frame_len(buffer@) && missing
                == frame_len(buffer@) - buffer@.len(),
            Unframed::Complete { payload, used } => used == frame_len(buffer@) && used
                <= buffer@.len() && payload@ == buffer@.subrange(PREFIX_LEN as int, used as int),
        },
{
    let have = buffer.len();
    if have < PREFIX_LEN {
        return Unframed::Incomplete { missing: PREFIX_LEN - have };
    }
    let prefix: [u8; 4] = [buffer[0], buffer[1], buffer[2], buffer[3]];
    assert(prefix@ =~= buffer@.take(PREFIX_LEN as int));
    let len = decode_prefix(&prefix);
    if have - PREFIX_LEN < len {
        return Unframed::Incomplete { missing: len - (have - PREFIX_LEN) };
    }
    let used = PREFIX_LEN + len;
    let mut payload: Vec<u8> = Vec::new();
    let mut i: usize = PREFIX_LEN;
    while i < used
        invariant
            PREFIX_LEN <= i <= used <= buffer@.len(),
            payload@ == buffer@.subrange(PREFIX_LEN as int, i as int),
        decreases used - i,
    {
        payload.push(buffer[i]);
        assert(payload@ =~= buffer@.subrange(PREFIX_LEN as int, i + 1));
        i = i + 1;
    }
    Unframed::Complete { payload, used }
}

/// What was framed is what comes out: a frame, whatever follows it, is taken
/// apart into its payload, and exactly the frame is used up.
pub proof fn lemma_frame_round_trip(payload: Seq<u8>, rest: Seq<u8>)
    requires
        payload.len() <= MAX_PAYLOAD,
    ensures
        frame_len(framed(payload) + rest) == PREFIX_LEN + payload.len(),
        (framed(payload) + rest).subrange(PREFIX_LEN as int, PREFIX_LEN + payload.len())
            == payload,
{
    let bytes = framed(payload) + rest;
    lemma_prefix_round_trip(payload.len());
    assert(bytes.take(PREFIX_LEN as int) =~= prefix_of(payload.len()));
    assert(bytes.subrange(PREFIX_LEN as int, PREFIX_LEN + payload.len()) =~= payload);
    assert(bytes.len() >= PREFIX_LEN);
}

/// Frames one after the other.
pub open spec fn framed_all(payloads: Seq<Seq<u8>>) -> Seq<u8>
    decreases payloads.len(),
{
    if payloads.len() == 0 {
        Seq::empty()
    } else {
        framed(payloads[0]) + framed_all(payloads.skip(1))
    }
}

/// The payloads of the frames that `bytes` is made of, or `None` if `bytes`
/// does not end with the end of a frame.
pub open spec fn payloads_of(bytes: Seq<u8>) -> Option<Seq<Seq<u8>>>
    decreases bytes.len(),
{
    if bytes.len() == 0 {
        Some(Seq::empty())
    } else if bytes.len() < frame_len(bytes) {
        None
    } else {
        match payloads_of(bytes.skip(frame_len(bytes) as int)) {
            Some(rest) => Some(
                seq![bytes.subrange(PREFIX_LEN as int, frame_len(bytes) as int)] + rest,
            ),
            None => None,
        }
    }
}

/// The payloads of a run of byte strings.
pub open spec fn payload_views(payloads: Seq<Vec<u8>>) -> Seq<Seq<u8>> {
    Seq::new(payloads.len(), |i: int| payloads[i]@)
}

/// Reads the frames that `bytes` is made of. `None` if `bytes` does not end
/// with the end of a frame.
pub fn read_frames(bytes: &Vec<u8>) -> (r: Option<Vec<Vec<u8>>>)
    ensures
        match r {
            Some(payloads) => payloads_of(bytes@) == Some(payload_views(payloads@)),
            None => payloads_of(bytes@).is_none(),
        },
{
    let len = bytes.len();
    let mut payloads: Vec<Vec<u8>> = Vec::new();
    let mut at: usize = 0;
    proof {
        assert(bytes@.skip(0) =~= bytes@);
        match payloads_of(bytes@) {
            Some(rest) => {
                assert(payload_views(payloads@) + rest =~= rest);
            },
            None => {},
        }
    }
    while at < len
        invariant
            at <= len,
            len == bytes@.len(),
            payloads_of(bytes@) == (match payloads_of(bytes@.skip(at as int)) {
                Some(rest) => Some(payload_views(payloads@) + rest),
                None => None,
            }),
        decreases len - at,
    {
        let ghost tail = bytes@.skip(at as int);
        if len - at < PREFIX_LEN {
            return None;
        }
        let prefix: [u8; 4] = [bytes[at], bytes[at + 1], bytes[at + 2], bytes[at + 3]];
        assert(prefix@ =~= tail.take(PREFIX_LEN as int));
        let size = decode_prefix(&prefix);
        if len - at - PREFIX_LEN < size {
            return None;
        }
        let end = at + PREFIX_LEN + size;
        let mut payload: Vec<u8> = Vec::new();
        let mut i: usize = at + PREFIX_LEN;
        while i < end
            invariant
                at + PREFIX_LEN <= i <= end <= bytes@.len(),
                payload@ == bytes@.subrange(at + PREFIX_LEN, i as int),
            decreases end - i,
        {
            payload.push(bytes[i]);
            assert(payload@ =~= bytes@.subrange(at + PREFIX_LEN, i + 1));
            i = i + 1;
        }
        proof {
            assert(payload@ =~= tail.subrange(PREFIX_LEN as int, frame_len(tail) as int));
            assert(tail.skip(frame_len(tail) as int) =~= bytes@.skip(end as int));
            let before = payload_views(payloads@);
            let after = payload_views(payloads@.push(payload));
            assert(after =~= before + seq![payload@]);
            match payloads_of(bytes@.skip(end as int)) {
                Some(rest) => {
                    assert(before + (seq![payload@] + rest) =~= after + rest);
                },
                None => {},
            }
        }
        payloads.push(payload);
        at = end;
    }
    proof {
        assert(bytes@.skip(at as int) =~= Seq::<u8>::empty());
        assert(payload_views(payloads@) + Seq::<Seq<u8>>::empty() =~= payload_views(payloads@));
    }
    Some(payloads)
}

/// What was written is what is read: frames written one after the other are
/// read back as the same payloads, byte for byte and in the same order.
pub proof fn lemma_frames_round_trip(payloads: Seq<Seq<u8>>)
    requires
        forall|i: int| 0 <= i < payloads.len() ==> (#[trigger] payloads[i]).len() <= MAX_PAYLOAD,
    ensures
        payloads_of(framed_all(payloads)) == Some(payloads),
    decreases payloads.len(),
{
    if payloads.len() == 0 {
        assert(payloads =~= Seq::<Seq<u8>>::empty());
    } else {
        let first = payloads[0];
        let rest = payloads.skip(1);
        let tail = framed_all(rest);
        let bytes = framed(first) + tail;
        assert(framed_all(payloads) == bytes);
        lemma_prefix_len(first.len());
        lemma_frame_round_trip(first, tail);
        lemma_frames_round_trip(rest);
        let used = frame_len(bytes) as int;
        assert(used == PREFIX_LEN + first.len());
        assert(framed(first).len() == used);
        assert(bytes.len() >= used);
        assert(bytes.skip(used) =~= tail);
        assert(bytes.subrange(PREFIX_LEN as int, used) == first);
        assert(seq![first] + rest =~= payloads);
    }
}

/// The place at which frame `i` begins when frames with payloads of the
/// lengths `lens` stand one after the other.
pub open spec fn offset_of(lens: Seq<nat>, i: int) -> nat
    decreases i,
{
    if i <= 0 {
        0
    } else {
        offset_of(lens, i - 1) + PREFIX_LEN as nat + lens[i - 1]
    }
}

/// Where the frames of a file begin.
pub struct FrameOffsets {
    offsets: Vec<u64>,
    end: u64,
    lens: Ghost<Seq<nat>>,
}

impl View for FrameOffsets {
    type V = Seq<nat>;

    /// The lengths of the payloads that were written, in order.
    closed spec fn view(&self) -> Seq<nat> {
        self.lens@
    }
}

impl FrameOffsets {
    #[verifier::type_invariant]
    spec fn well_formed(self) -> bool {
        &&& self.offsets@.len() == self.lens@.len()
        &&& forall|i: int|
            0 <= i < self.offsets@.len() ==> (#[trigger] self.offsets@[i]) == offset_of(self.lens@, i)
        &&& self.end == offset_of(self.lens@, self.lens@.len() as int)
    }

    /// The offsets of a file in which nothing is written yet.
    pub fn new() -> (r: FrameOffsets)
        ensures
            r@ == Seq::<nat>::empty(),
    {
        FrameOffsets { offsets: Vec::new(), end: 0, lens: Ghost(Seq::empty()) }
    }

    /// Notes that a frame with a payload of `len` bytes is written at the end
    /// of the file and says where it begins. `None`, and nothing is noted,
    /// if the payload is too long for a frame or the file would outgrow a
    /// `u64`.
    pub fn push(&mut self, len: usize) -> (r: Option<u64>)
        ensures
            match r {
                Some(offset) => {
                    &&& final(self)@ == old(self)@.push(len as nat)
                    &&& offset == offset_of(old(self)@, old(self)@.len() as int)
                    &&& len <= MAX_PAYLOAD
                    &&& offset_of(final(self)@, final(self)@.len() as int) <= u64::MAX
                },
                None => {
                    &&& final(self)@ == old(self)@
                    &&& len > MAX_PAYLOAD || offset_of(old(self)@, old(self)@.len() as int)
                        + PREFIX_LEN + len > u64::MAX
                },
            },
    {
        proof {
            use_type_invariant(&*self);
        }
        if len > MAX_PAYLOAD {
            return None;
        }
        let size: u64 = PREFIX_LEN as u64 + len as u64;
        if size > u64::MAX - self.end {
            return None;
        }
        let offset = self.end;
        let ghost before = self.lens@;
        let ghost after = before.push(len as nat);
        proof {
            lemma_offsets_keep(before, len as nat, before.len() as int);
            assert(after[before.len() as int] == len as nat);
            assert forall|i: int| 0 <= i < before.len() implies offset_of(after, i) == offset_of(
                before,
                i,
            ) by {
                lemma_offsets_keep(before, len as nat, i);
            }
        }
        let mut taken = FrameOffsets::new();
        core::mem::swap(self, &mut taken);
        let mut offsets = taken.offsets;
        offsets.push(offset);
        *self = FrameOffsets { offsets, end: offset + size, lens: Ghost(after) };
        Some(offset)
    }

    /// Where the frames begin, in order.
    pub fn offsets(&self) -> (r: &Vec<u64>)
        ensures
            r@.len() == self@.len(),
            forall|i: int| 0 <= i < r@.len() ==> (#[trigger] r@[i]) == offset_of(self@, i),
    {
        proof {
            use_type_invariant(self);
        }
        &self.offsets
    }

    /// The length of the file.
    pub fn end(&self) -> (r: u64)
        ensures
            r == offset_of(self@, self@.len() as int),
    {
        proof {
            use_type_invariant(self);
        }
        self.end
    }
}

/// Writing one more frame leaves the frames before it where they are.
pub proof fn lemma_offsets_keep(lens: Seq<nat>, len: nat, i: int)
    requires
        0 <= i <= lens.len(),
    ensures
        offset_of(lens.push(len), i) == offset_of(lens, i),
    decreases i,
{
    if i > 0 {
        lemma_offsets_keep(lens, len, i - 1);
        assert(lens.push(len)[i - 1] == lens[i - 1]);
    }
}

/// Frames do not overlap and leave no gap: each begins where the one before
/// it ends.
pub proof fn lemma_offsets_contiguous(lens: Seq<nat>, i: int)
    requires
        0 <= i < lens.len(),
    ensures
        offset_of(lens, i + 1) == offset_of(lens, i) + PREFIX_LEN + lens[i],
        offset_of(lens, 0) == 0,
{
}

} // verus!

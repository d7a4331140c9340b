//! Edge-triggered bit sampler: rebuilds one byte from each frame of eleven
//! falling clock edges.
//!
//! A frame is a start bit, eight data bits sent least significant first, a
//! parity bit and a stop bit. The start, parity and stop bits are sampled and
//! passed over without any check.

use vstd::prelude::*;

verus! {

/// Clock edges in one frame.
pub const FRAME_EDGES: usize = 11;

/// What a data-line level contributes to a byte at the given bit weight.
pub open spec fn weighted(level: bool, weight: nat) -> nat {
    if level {
        weight
    } else {
        0
    }
}

/// The byte carried by a frame of eleven levels: level `i + 1` is bit `i`.
/// Levels 0, 9 and 10 take no part.
pub open spec fn frame_byte(levels: Seq<bool>) -> u8 {
    (weighted(levels[1], 1) + weighted(levels[2], 2) + weighted(levels[3], 4) + weighted(
        levels[4],
        8,
    ) + weighted(levels[5], 16) + weighted(levels[6], 32) + weighted(levels[7], 64) + weighted(
        levels[8],
        128,
    )) as u8
}

/// The bytes carried by the complete frames of `levels`, in order. Edges
/// after the last complete frame carry nothing yet.
pub open spec fn frame_bytes(levels: Seq<bool>) -> Seq<u8> {
    Seq::new(
        levels.len() / (FRAME_EDGES as nat),
        |j: int| frame_byte(levels.subrange(FRAME_EDGES * j, FRAME_EDGES * j + FRAME_EDGES)),
    )
}

/// Whether bit `i` of `byte` is set, bit 0 being the least significant.
pub open spec fn bit_set(byte: u8, i: u8) -> bool {
    byte & (1u8 << i) != 0
}

/// The eleven levels that carry `byte` on the wire: the start level, the
/// eight bits of the byte from the least significant up, the parity level
/// and the stop level.
pub open spec fn frame_levels(byte: u8, start: bool, parity: bool, stop: bool) -> Seq<bool> {
    seq![
        start,
        bit_set(byte, 0),
        bit_set(byte, 1),
        bit_set(byte, 2),
        bit_set(byte, 3),
        bit_set(byte, 4),
        bit_set(byte, 5),
        bit_set(byte, 6),
        bit_set(byte, 7),
        parity,
        stop,
    ]
}

/// The accumulator after one data bit: shifted one place toward the least
/// significant bit, with the sampled level as the new most significant bit.
pub open spec fn shift_in(accumulator: u8, level: bool) -> u8 {
    (accumulator / 2 + weighted(level, 128)) as u8
}

/// The accumulator after the eight data levels of a frame have been shifted
/// in, one after the other.
pub open spec fn eight_shifts(accumulator: u8, levels: Seq<bool>) -> u8 {
    shift_in(
        shift_in(
            shift_in(
                shift_in(
                    shift_in(
                        shift_in(
                            shift_in(shift_in(accumulator, levels[1]), levels[2]),
                            levels[3],
                        ),
                        levels[4],
                    ),
                    levels[5],
                ),
                levels[6],
            ),
            levels[7],
        ),
        levels[8],
    )
}

/// Eight shifts push out whatever the accumulator held and leave the eight
/// levels packed least significant bit first.
proof fn lemma_shifts_pack(
    accumulator: u8,
    b1: bool,
    b2: bool,
    b3: bool,
    b4: bool,
    b5: bool,
    b6: bool,
    b7: bool,
    b8: bool,
)
    by (bit_vector)
    ensures
        shift_in(
            shift_in(
                shift_in(
                    shift_in(
                        shift_in(shift_in(shift_in(shift_in(accumulator, b1), b2), b3), b4),
                        b5,
                    ),
                    b6,
                ),
                b7,
            ),
            b8,
        ) == (weighted(b1, 1) + weighted(b2, 2) + weighted(b3, 4) + weighted(b4, 8) + weighted(
            b5,
            16,
        ) + weighted(b6, 32) + weighted(b7, 64) + weighted(b8, 128)) as u8,
{
}

/// The eight data levels of a frame, shifted in one after the other, leave
/// the frame's byte, whatever the accumulator held before.
pub proof fn lemma_eight_shifts(accumulator: u8, levels: Seq<bool>)
    ensures
        eight_shifts(accumulator, levels) == frame_byte(levels),
{
    lemma_shifts_pack(
        accumulator,
        levels[1],
        levels[2],
        levels[3],
        levels[4],
        levels[5],
        levels[6],
        levels[7],
        levels[8],
    );
}

/// Mathematical state of the sampler.
pub struct SamplerState {
    /// Edges seen so far in the current frame.
    pub bit_count: nat,
    /// Data bits gathered so far, newest in the most significant place.
    pub accumulator: u8,
}

impl SamplerState {
    /// Between frames: no edge seen, accumulator clear.
    pub open spec fn idle() -> Self {
        SamplerState { bit_count: 0, accumulator: 0 }
    }

    /// The edge count stays below the frame length.
    pub open spec fn wf(self) -> bool {
        self.bit_count < FRAME_EDGES
    }

    /// The accumulator once this edge has been sampled: only edges 1 to 8 of
    /// a frame shift a bit in.
    pub open spec fn sampled(self, level: bool) -> u8 {
        if 0 < self.bit_count < 9 {
            shift_in(self.accumulator, level)
        } else {
            self.accumulator
        }
    }

    /// Whether this edge is the last of its frame.
    pub open spec fn completes(self) -> bool {
        self.bit_count + 1 == FRAME_EDGES
    }

    /// The byte handed on by this edge, if it completes a frame.
    pub open spec fn emits(self, level: bool) -> Option<u8> {
        if self.completes() {
            Some(self.sampled(level))
        } else {
            None
        }
    }

    /// State after this edge: back to idle when the frame is complete, else
    /// one edge further.
    pub open spec fn after_edge(self, level: bool) -> Self {
        if self.completes() {
            Self::idle()
        } else {
            SamplerState { bit_count: self.bit_count + 1, accumulator: self.sampled(level) }
        }
    }

    /// State after a run of edges.
    pub open spec fn after_edges(self, levels: Seq<bool>) -> Self
        decreases levels.len(),
    {
        if levels.len() == 0 {
            self
        } else {
            self.after_edges(levels.drop_last()).after_edge(levels.last())
        }
    }

    /// The bytes handed on during a run of edges, in edge order.
    pub open spec fn bytes_from(self, levels: Seq<bool>) -> Seq<u8>
        decreases levels.len(),
    {
        if levels.len() == 0 {
            Seq::empty()
        } else {
            followed_by(
                self.bytes_from(levels.drop_last()),
                self.after_edges(levels.drop_last()).emits(levels.last()),
            )
        }
    }
}

/// `bytes` with one more byte behind them, if there is one.
pub open spec fn followed_by(bytes: Seq<u8>, byte: Option<u8>) -> Seq<u8> {
    match byte {
        Some(byte) => bytes.push(byte),
        None => bytes,
    }
}

impl SamplerState {
    /// A run of edges can be taken in two parts: the second part starts
    /// from the state the first part leaves, and the bytes follow each other.
    pub proof fn lemma_edges_split(self, first: Seq<bool>, rest: Seq<bool>)
        ensures
            self.after_edges(first + rest) == self.after_edges(first).after_edges(rest),
            self.bytes_from(first + rest) == self.bytes_from(first) + self.after_edges(
                first,
            ).bytes_from(rest),
        decreases rest.len(),
    {
        if rest.len() == 0 {
            assert(first + rest =~= first);
            assert(self.bytes_from(first) + Seq::<u8>::empty() =~= self.bytes_from(first));
        } else {
            assert((first + rest).drop_last() =~= first + rest.drop_last());
            assert((first + rest).last() == rest.last());
            self.lemma_edges_split(first, rest.drop_last());
            let middle = self.after_edges(first);
            let earlier = middle.bytes_from(rest.drop_last());
            match middle.after_edges(rest.drop_last()).emits(rest.last()) {
                Some(byte) => {
                    assert((self.bytes_from(first) + earlier).push(byte) =~= self.bytes_from(first)
                        + earlier.push(byte));
                },
                None => {},
            }
        }
    }

    /// Edges that do not reach the end of the frame hand on nothing.
    pub proof fn lemma_partial_frame(self, levels: Seq<bool>)
        requires
            self.bit_count + levels.len() < FRAME_EDGES,
        ensures
            self.after_edges(levels).bit_count == self.bit_count + levels.len(),
            self.bytes_from(levels) == Seq::<u8>::empty(),
        decreases levels.len(),
    {
        if levels.len() > 0 {
            self.lemma_partial_frame(levels.drop_last());
        }
    }

    /// A whole frame taken at a frame boundary hands on exactly its byte and
    /// leaves the sampler idle, whatever the accumulator held before.
    pub proof fn lemma_whole_frame(self, levels: Seq<bool>)
        requires
            self.bit_count == 0,
            levels.len() == FRAME_EDGES,
        ensures
            self.after_edges(levels) == Self::idle(),
            self.bytes_from(levels) == seq![frame_byte(levels)],
    {
        let packed = eight_shifts(self.accumulator, levels);
        assert(self.after_edges(levels.subrange(0, 0)) == self);
        assert(self.bytes_from(levels.subrange(0, 0)) == Seq::<u8>::empty());
        self.lemma_next_edge(levels, 0);
        self.lemma_next_edge(levels, 1);
        self.lemma_next_edge(levels, 2);
        self.lemma_next_edge(levels, 3);
        self.lemma_next_edge(levels, 4);
        self.lemma_next_edge(levels, 5);
        self.lemma_next_edge(levels, 6);
        self.lemma_next_edge(levels, 7);
        self.lemma_next_edge(levels, 8);
        assert(self.after_edges(levels.subrange(0, 9)) == SamplerState {
            bit_count: 9,
            accumulator: packed,
        });
        self.lemma_next_edge(levels, 9);
        self.lemma_next_edge(levels, 10);
        assert(levels.subrange(0, 11) =~= levels);
        lemma_eight_shifts(self.accumulator, levels);
        assert(self.bytes_from(levels) =~= seq![frame_byte(levels)]);
    }

    /// Taking edge `i` of a run after the `i` edges before it.
    pub proof fn lemma_next_edge(self, levels: Seq<bool>, i: int)
        requires
            0 <= i < levels.len(),
        ensures
            self.after_edges(levels.subrange(0, i + 1)) == self.after_edges(
                levels.subrange(0, i),
            ).after_edge(levels[i]),
            self.bytes_from(levels.subrange(0, i + 1)) == followed_by(
                self.bytes_from(levels.subrange(0, i)),
                self.after_edges(levels.subrange(0, i)).emits(levels[i]),
            ),
    {
        assert(levels.subrange(0, i + 1).drop_last() =~= levels.subrange(0, i));
    }
}

/// Eleven edges from idle hand on exactly one byte: the eight data levels
/// packed least significant bit first. The sampler is idle again afterwards.
pub proof fn law_frame_yields_packed_byte(levels: Seq<bool>)
    requires
        levels.len() == FRAME_EDGES,
    ensures
        SamplerState::idle().bytes_from(levels) == seq![frame_byte(levels)],
        SamplerState::idle().after_edges(levels) == SamplerState::idle(),
{
    SamplerState::idle().lemma_whole_frame(levels);
}

/// The start, parity and stop levels have no influence on the byte: two
/// frames that agree on levels 1 to 8 hand on the same byte.
pub proof fn law_frame_ignores_framing_bits(one: Seq<bool>, other: Seq<bool>)
    requires
        one.len() == FRAME_EDGES,
        other.len() == FRAME_EDGES,
        forall|i: int| 1 <= i <= 8 ==> one[i] == other[i],
    ensures
        SamplerState::idle().bytes_from(one) == SamplerState::idle().bytes_from(other),
{
    SamplerState::idle().lemma_whole_frame(one);
    SamplerState::idle().lemma_whole_frame(other);
}

/// A byte is the sum of its bits, each at its weight.
proof fn lemma_bits_sum(byte: u8)
    by (bit_vector)
    ensures
        byte == (weighted(bit_set(byte, 0), 1) + weighted(bit_set(byte, 1), 2) + weighted(
            bit_set(byte, 2),
            4,
        ) + weighted(bit_set(byte, 3), 8) + weighted(bit_set(byte, 4), 16) + weighted(
            bit_set(byte, 5),
            32,
        ) + weighted(bit_set(byte, 6), 64) + weighted(bit_set(byte, 7), 128)) as u8,
{
}

/// The sampler undoes the framing: the frame that carries a byte hands on
/// that byte, whatever its start, parity and stop levels.
pub proof fn law_frame_carries_its_byte(byte: u8, start: bool, parity: bool, stop: bool)
    ensures
        frame_byte(frame_levels(byte, start, parity, stop)) == byte,
        SamplerState::idle().bytes_from(frame_levels(byte, start, parity, stop)) == seq![byte],
{
    let levels = frame_levels(byte, start, parity, stop);
    assert(levels[1] == bit_set(byte, 0));
    assert(levels[2] == bit_set(byte, 1));
    assert(levels[3] == bit_set(byte, 2));
    assert(levels[4] == bit_set(byte, 3));
    assert(levels[5] == bit_set(byte, 4));
    assert(levels[6] == bit_set(byte, 5));
    assert(levels[7] == bit_set(byte, 6));
    assert(levels[8] == bit_set(byte, 7));
    lemma_bits_sum(byte);
    assert(frame_byte(levels) == byte);
    SamplerState::idle().lemma_whole_frame(levels);
}

/// Any run of edges from idle hands on one byte per complete frame, in frame
/// order; a run of whole frames leaves the sampler idle.
pub proof fn law_frames_in_order(levels: Seq<bool>)
    ensures
        SamplerState::idle().bytes_from(levels) == frame_bytes(levels),
        SamplerState::idle().bytes_from(levels).len() == levels.len() / (FRAME_EDGES as nat),
        levels.len() % (FRAME_EDGES as nat) == 0 ==> SamplerState::idle().after_edges(levels)
            == SamplerState::idle(),
    decreases levels.len(),
{
    let idle = SamplerState::idle();
    if levels.len() < FRAME_EDGES {
        idle.lemma_partial_frame(levels);
        assert(frame_bytes(levels) =~= Seq::<u8>::empty());
    } else {
        let frame = levels.subrange(0, FRAME_EDGES as int);
        let rest = levels.subrange(FRAME_EDGES as int, levels.len() as int);
        assert(levels =~= frame + rest);
        idle.lemma_edges_split(frame, rest);
        idle.lemma_whole_frame(frame);
        law_frames_in_order(rest);
        let joined = seq![frame_byte(frame)] + frame_bytes(rest);
        assert(joined.len() == frame_bytes(levels).len());
        assert forall|j: int| 0 <= j < joined.len() implies joined[j] == frame_bytes(levels)[j] by {
            if j > 0 {
                assert(rest.subrange(FRAME_EDGES * (j - 1), FRAME_EDGES * (j - 1) + FRAME_EDGES)
                    =~= levels.subrange(FRAME_EDGES * j, FRAME_EDGES * j + FRAME_EDGES));
            }
        }
        assert(joined =~= frame_bytes(levels));
    }
}

/// The sampler: an edge counter and a one-byte accumulator, owned by the
/// edge handler alone.
pub struct Sampler {
    bit_count: usize,
    accumulator: u8,
}

impl View for Sampler {
    type V = SamplerState;

    closed spec fn view(&self) -> SamplerState {
        SamplerState { bit_count: self.bit_count as nat, accumulator: self.accumulator }
    }
}

impl Sampler {
    /// Holds of every sampler value: the edge count is below the frame length.
    #[verifier::type_invariant]
    pub open spec fn well_formed(&self) -> bool {
        self@.wf()
    }

    /// A sampler between frames.
    pub fn new() -> (sampler: Sampler)
        ensures
            sampler@ == SamplerState::idle(),
    {
        Sampler { bit_count: 0, accumulator: 0 }
    }

    /// Takes one falling clock edge, with the data-line level read at that
    /// edge. Returns the frame's byte on the eleventh edge of a frame and
    /// nothing on the others.
    pub fn on_falling_edge(&mut self, data_high: bool) -> (byte: Option<u8>)
        ensures
            final(self)@ == old(self)@.after_edge(data_high),
            byte == old(self)@.emits(data_high),
            final(self).well_formed(),
    {
        proof {
            use_type_invariant(&*self);
        }
        let bit: u8 = if data_high {
            1
        } else {
            0
        };
        let mut current: u8 = self.accumulator;
        if self.bit_count > 0 && self.bit_count < 9 {
            assert((current >> 1u8) | (bit << 7u8) == current / 2 + bit * 128) by (bit_vector)
                requires
                    bit == 0 || bit == 1,
            ;
            current = (current >> 1) | (bit << 7);
        }
        let count: usize = self.bit_count + 1;
        if count == FRAME_EDGES {
            self.bit_count = 0;
            self.accumulator = 0;
            Some(current)
        } else {
            self.accumulator = current;
            self.bit_count = count;
            None
        }
    }

    /// Takes a bounded run of edges, one level per edge, and returns the
    /// bytes handed on along the way, in edge order.
    pub fn sample_edges(&mut self, levels: &[bool]) -> (bytes: Vec<u8>)
        ensures
            final(self)@ == old(self)@.after_edges(levels@),
            bytes@ == old(self)@.bytes_from(levels@),
            old(self)@ == SamplerState::idle() ==> bytes@ == frame_bytes(levels@),
            final(self).well_formed(),
    {
        let mut bytes: Vec<u8> = Vec::new();
        let mut i: usize = 0;
        while i < levels.len()
            invariant
                i <= levels.len(),
                self@ == old(self)@.after_edges(levels@.subrange(0, i as int)),
                bytes@ == old(self)@.bytes_from(levels@.subrange(0, i as int)),
            decreases levels.len() - i,
        {
            proof {
                assert(levels@.subrange(0, i + 1).drop_last() =~= levels@.subrange(0, i as int));
            }
            match self.on_falling_edge(levels[i]) {
                Some(byte) => bytes.push(byte),
                None => {},
            }
            i += 1;
        }
        proof {
            assert(levels@.subrange(0, i as int) =~= levels@);
            law_frames_in_order(levels@);
            use_type_invariant(&*self);
        }
        bytes
    }
}

} // verus!

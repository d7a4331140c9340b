//! The path of a byte from the clock edge to the sink: the edge handler
//! samples and enqueues, the consumer dequeues and, in overlay mode,
//! translates.
//!
//! The queue lives in a cell that starts out empty and is filled in by the
//! first byte sent. Whoever owns the cell hands it out under mutual
//! exclusion; the functions here take it as `&mut` and never wait.

use crate::queue::SimpleQueue;
use crate::ring::RingState;
use crate::sampler::Sampler;
use crate::translator::{
    decoded, frame_of_outcome, marker_in, next_phase, DecoderPhase, ScancodeTranslator,
};
use vstd::prelude::*;

verus! {

/// Slots in the byte queue between the edge handler and the consumer.
pub const QUEUE_CAPACITY: usize = 5;

/// The queue state that a cell stands for: a cell that holds no queue yet
/// behaves as an empty queue.
pub open spec fn cell_state(cell: Option<SimpleQueue<u8, QUEUE_CAPACITY>>) -> RingState<u8> {
    match cell {
        Some(queue) => queue@,
        None => RingState::<u8>::vacant(QUEUE_CAPACITY as nat),
    }
}

/// What one clock edge came to.
#[derive(Clone, Copy, Debug, PartialEq, Eq)]
pub enum EdgeOutcome {
    /// The frame is not complete yet.
    Sampling,
    /// The frame's byte was enqueued.
    Queued(u8),
    /// The frame's byte was stored, but the queue reported itself full and
    /// now reads as empty.
    Overrun(u8),
}

/// Producer side: enqueues `byte`, making the queue first if the cell holds
/// none. Returns what `enqueue` reported.
pub fn send_byte(cell: &mut Option<SimpleQueue<u8, QUEUE_CAPACITY>>, byte: u8) -> (accepted: bool)
    ensures
        *final(cell) is Some,
        cell_state(*final(cell)) == cell_state(*old(cell)).enqueue(byte),
        cell_state(*final(cell)).wf(),
        accepted == cell_state(*old(cell)).accepts(),
        accepted <==> cell_state(*old(cell)).len() + 1 < QUEUE_CAPACITY,
        accepted ==> cell_state(*final(cell)).pending() == cell_state(*old(cell)).pending().push(
            byte,
        ),
        !accepted ==> cell_state(*final(cell)).pending() == Seq::<u8>::empty(),
{
    if cell.is_none() {
        *cell = Some(SimpleQueue::new());
    }
    cell.as_mut().unwrap().enqueue(byte)
}

/// Consumer side: takes the oldest waiting byte, if there is one. A cell
/// that holds no queue yet has nothing to give and stays as it is.
pub fn get_byte(cell: &mut Option<SimpleQueue<u8, QUEUE_CAPACITY>>) -> (byte: Option<u8>)
    ensures
        byte == cell_state(*old(cell)).front(),
        cell_state(*final(cell)) == cell_state(*old(cell)).dequeue(),
        cell_state(*final(cell)).wf(),
        *final(cell) is Some <==> *old(cell) is Some,
        byte is None <==> cell_state(*old(cell)).pending().len() == 0,
        byte is None ==> cell_state(*final(cell)) == cell_state(*old(cell)),
        byte is Some ==> byte == Some(cell_state(*old(cell)).pending()[0]),
        byte is Some ==> cell_state(*final(cell)).pending() == cell_state(
            *old(cell),
        ).pending().drop_first(),
{
    match cell {
        Some(queue) => queue.dequeue(),
        None => None,
    }
}

/// What an edge comes to, given the byte it handed on, if any, and the queue
/// it found.
pub open spec fn outcome_of(byte: Option<u8>, queue: RingState<u8>) -> EdgeOutcome {
    match byte {
        None => EdgeOutcome::Sampling,
        Some(byte) => if queue.accepts() {
            EdgeOutcome::Queued(byte)
        } else {
            EdgeOutcome::Overrun(byte)
        },
    }
}

/// The queue after an edge: with the byte enqueued, if the edge handed one
/// on.
pub open spec fn queue_after(byte: Option<u8>, queue: RingState<u8>) -> RingState<u8> {
    match byte {
        None => queue,
        Some(byte) => queue.enqueue(byte),
    }
}

/// The edge handler's work for one falling clock edge, given the data-line
/// level read at that edge: the sampler takes the edge, and the byte of a
/// completed frame goes into the queue. Never waits and never fails; an
/// overrun is reported to the caller and otherwise ignored.
pub fn on_clock_edge(
    sampler: &mut Sampler,
    cell: &mut Option<SimpleQueue<u8, QUEUE_CAPACITY>>,
    data_high: bool,
) -> (outcome: EdgeOutcome)
    ensures
        final(sampler)@ == old(sampler)@.after_edge(data_high),
        outcome == outcome_of(old(sampler)@.emits(data_high), cell_state(*old(cell))),
        cell_state(*final(cell)) == queue_after(
            old(sampler)@.emits(data_high),
            cell_state(*old(cell)),
        ),
        old(sampler)@.emits(data_high) is None ==> *final(cell) == *old(cell),
        old(sampler)@.emits(data_high) is Some ==> *final(cell) is Some,
{
    match sampler.on_falling_edge(data_high) {
        Some(byte) => {
            if send_byte(cell, byte) {
                EdgeOutcome::Queued(byte)
            } else {
                EdgeOutcome::Overrun(byte)
            }
        },
        None => EdgeOutcome::Sampling,
    }
}

/// The frame that a poll returns, given the byte it found waiting, if any,
/// and the phase the translator stood in.
pub open spec fn polled_frame(byte: Option<u8>, phase: DecoderPhase) -> Option<(u8, u8)> {
    match byte {
        None => None,
        Some(byte) => frame_of_outcome(decoded(phase, byte)),
    }
}

/// The phase the translator stands in after a poll: moved on by the byte
/// the poll found waiting, unchanged if it found none.
pub open spec fn polled_phase(byte: Option<u8>, phase: DecoderPhase) -> DecoderPhase {
    match byte {
        None => phase,
        Some(byte) => next_phase(phase, byte),
    }
}

/// The consumer's work in overlay mode for one poll: takes the oldest
/// waiting byte, gives it to the translator, and returns the frame to write
/// to the sink, if any. With nothing waiting, the translator is not touched.
pub fn poll_translated(
    cell: &mut Option<SimpleQueue<u8, QUEUE_CAPACITY>>,
    translator: &mut ScancodeTranslator,
) -> (frame: Option<(u8, u8)>)
    ensures
        cell_state(*final(cell)) == cell_state(*old(cell)).dequeue(),
        *final(cell) is Some <==> *old(cell) is Some,
        frame == polled_frame(cell_state(*old(cell)).front(), old(translator)@),
        final(translator)@ == polled_phase(cell_state(*old(cell)).front(), old(translator)@),
        frame matches Some(written) ==> written.0 == marker_in(old(translator)@),
{
    match get_byte(cell) {
        Some(byte) => translator.translate(byte),
        None => None,
    }
}

} // verus!

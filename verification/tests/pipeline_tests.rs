use ps2_keyboard::pipeline::{
    get_byte, on_clock_edge, poll_translated, send_byte, EdgeOutcome, QUEUE_CAPACITY,
};
use ps2_keyboard::queue::SimpleQueue;
use ps2_keyboard::sampler::Sampler;
use ps2_keyboard::translator::ScancodeTranslator;
use std::cell::RefCell;

fn frame_of(byte: u8) -> Vec<bool> {
    let mut levels = vec![false];
    for bit in 0..8 {
        levels.push((byte >> bit) & 1 == 1);
    }
    levels.push(byte.count_ones() % 2 == 0);
    levels.push(true);
    levels
}

#[test]
fn queue_capacity_is_five() {
    assert_eq!(QUEUE_CAPACITY, 5);
}

#[test]
fn get_byte_on_a_cell_without_queue_returns_nothing() {
    let mut cell: Option<SimpleQueue<u8, QUEUE_CAPACITY>> = None;
    assert_eq!(get_byte(&mut cell), None);
    assert!(cell.is_none());
}

#[test]
fn send_byte_makes_the_queue_on_first_use() {
    let mut cell: Option<SimpleQueue<u8, QUEUE_CAPACITY>> = None;
    assert!(send_byte(&mut cell, 0x1C));
    assert!(cell.is_some());
    assert!(send_byte(&mut cell, 0xF0));
    assert_eq!(get_byte(&mut cell), Some(0x1C));
    assert_eq!(get_byte(&mut cell), Some(0xF0));
    assert_eq!(get_byte(&mut cell), None);
    assert!(cell.is_some());
}

#[test]
fn send_byte_reports_the_overrun() {
    let mut cell: Option<SimpleQueue<u8, QUEUE_CAPACITY>> = None;
    for byte in 0u8..4 {
        assert!(send_byte(&mut cell, byte));
    }
    assert!(!send_byte(&mut cell, 4));
    assert_eq!(get_byte(&mut cell), None);
}

#[test]
fn eleventh_edge_enqueues_the_byte() {
    let mut sampler = Sampler::new();
    let mut cell: Option<SimpleQueue<u8, QUEUE_CAPACITY>> = None;
    let levels = frame_of(0x5A);
    for level in &levels[..10] {
        assert_eq!(on_clock_edge(&mut sampler, &mut cell, *level), EdgeOutcome::Sampling);
        assert!(cell.is_none());
    }
    assert_eq!(on_clock_edge(&mut sampler, &mut cell, levels[10]), EdgeOutcome::Queued(0x5A));
    assert_eq!(get_byte(&mut cell), Some(0x5A));
}

#[test]
fn fifth_unread_frame_overruns_the_queue() {
    let mut sampler = Sampler::new();
    let mut cell: Option<SimpleQueue<u8, QUEUE_CAPACITY>> = None;
    let mut outcomes: Vec<EdgeOutcome> = Vec::new();
    for byte in [1u8, 2, 3, 4, 5] {
        for level in frame_of(byte) {
            match on_clock_edge(&mut sampler, &mut cell, level) {
                EdgeOutcome::Sampling => {}
                outcome => outcomes.push(outcome),
            }
        }
    }
    assert_eq!(
        outcomes,
        vec![
            EdgeOutcome::Queued(1),
            EdgeOutcome::Queued(2),
            EdgeOutcome::Queued(3),
            EdgeOutcome::Queued(4),
            EdgeOutcome::Overrun(5),
        ]
    );
    assert_eq!(get_byte(&mut cell), None);
}

#[test]
fn edges_to_sink_for_a_key_press() {
    let mut sampler = Sampler::new();
    let mut cell: Option<SimpleQueue<u8, QUEUE_CAPACITY>> = None;
    let mut translator = ScancodeTranslator::new();
    let mut sink: Vec<u8> = Vec::new();
    let levels = [false, false, false, true, true, true, false, false, false, false, true];
    for level in levels {
        on_clock_edge(&mut sampler, &mut cell, level);
    }
    while let Some((marker, payload)) = poll_translated(&mut cell, &mut translator) {
        sink.push(marker);
        sink.push(payload);
    }
    assert_eq!(sink, vec![b'0', b'a']);
}

#[test]
fn edges_to_sink_for_press_and_release() {
    let mut sampler = Sampler::new();
    let mut cell: Option<SimpleQueue<u8, QUEUE_CAPACITY>> = None;
    let mut translator = ScancodeTranslator::new();
    let mut sink: Vec<u8> = Vec::new();
    for byte in [0x1Cu8, 0xF0, 0x1C] {
        for level in frame_of(byte) {
            on_clock_edge(&mut sampler, &mut cell, level);
        }
    }
    for _ in 0..3 {
        if let Some((marker, payload)) = poll_translated(&mut cell, &mut translator) {
            sink.push(marker);
            sink.push(payload);
        }
    }
    assert_eq!(sink, vec![b'0', b'a', b'1', b'a']);
    assert_eq!(poll_translated(&mut cell, &mut translator), None);
}

#[test]
fn raw_forwarding_hands_on_every_byte_unchanged() {
    let mut sampler = Sampler::new();
    let mut cell: Option<SimpleQueue<u8, QUEUE_CAPACITY>> = None;
    let mut sink: Vec<u8> = Vec::new();
    for byte in [0xE0u8, 0xF0, 0x75, 0x02] {
        for level in frame_of(byte) {
            on_clock_edge(&mut sampler, &mut cell, level);
        }
    }
    while let Some(byte) = get_byte(&mut cell) {
        sink.push(byte);
    }
    assert_eq!(sink, vec![0xE0, 0xF0, 0x75, 0x02]);
}

#[test]
fn poll_with_nothing_waiting_leaves_the_translator_alone() {
    let mut cell: Option<SimpleQueue<u8, QUEUE_CAPACITY>> = None;
    let mut translator = ScancodeTranslator::new();
    assert!(send_byte(&mut cell, 0xF0));
    assert_eq!(poll_translated(&mut cell, &mut translator), None);
    // Empty polls in between must not use up the pending break prefix.
    assert_eq!(poll_translated(&mut cell, &mut translator), None);
    assert_eq!(poll_translated(&mut cell, &mut translator), None);
    assert!(send_byte(&mut cell, 0x1C));
    assert_eq!(poll_translated(&mut cell, &mut translator), Some((b'1', b'a')));
}

#[test]
fn producer_and_consumer_take_turns_through_a_guarded_cell() {
    let shared: RefCell<Option<SimpleQueue<u8, QUEUE_CAPACITY>>> = RefCell::new(None);
    let mut sampler = Sampler::new();
    let mut received: Vec<u8> = Vec::new();
    let mut waiting = 0usize;
    let mut sent: Vec<u8> = Vec::new();
    for byte in 0u8..200 {
        // Keep the producer at the capacity boundary: four bytes may wait.
        while waiting == QUEUE_CAPACITY - 1 || (waiting > 0 && byte % 3 == 0) {
            let taken = get_byte(&mut shared.borrow_mut());
            received.push(taken.unwrap());
            waiting -= 1;
        }
        for level in frame_of(byte) {
            match on_clock_edge(&mut sampler, &mut shared.borrow_mut(), level) {
                EdgeOutcome::Sampling => {}
                EdgeOutcome::Queued(queued) => {
                    assert_eq!(queued, byte);
                    sent.push(queued);
                    waiting += 1;
                }
                EdgeOutcome::Overrun(_) => panic!("overrun below the capacity boundary"),
            }
        }
    }
    while let Some(byte) = get_byte(&mut shared.borrow_mut()) {
        received.push(byte);
    }
    assert_eq!(received, sent);
    assert_eq!(received.len(), 200);
}

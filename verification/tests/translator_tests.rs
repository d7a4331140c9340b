use pc_keyboard::KeyCode;
use ps2_keyboard::translator::{
    frame_event, frame_outcome, payload_byte, DecodeError, KeyEvent, KeyState, ScancodeTranslator,
    MARKER_DOWN, MARKER_UP,
};

#[test]
fn markers_are_the_characters_zero_and_one() {
    assert_eq!(MARKER_DOWN, b'0');
    assert_eq!(MARKER_UP, b'1');
}

#[test]
fn make_code_gives_key_down() {
    let mut translator = ScancodeTranslator::new();
    assert_eq!(
        translator.add_byte(0x1C),
        Ok(Some(KeyEvent { code: KeyCode::A, state: KeyState::Down }))
    );
}

#[test]
fn break_prefix_then_code_gives_exactly_one_key_up() {
    let mut translator = ScancodeTranslator::new();
    let mut events: Vec<KeyEvent> = Vec::new();
    for byte in [0xF0u8, 0x1C] {
        if let Ok(Some(event)) = translator.add_byte(byte) {
            events.push(event);
        }
    }
    assert_eq!(events, vec![KeyEvent { code: KeyCode::A, state: KeyState::Up }]);
}

#[test]
fn break_prefix_alone_gives_nothing_yet() {
    let mut translator = ScancodeTranslator::new();
    assert_eq!(translator.add_byte(0xF0), Ok(None));
}

#[test]
fn release_flag_is_cleared_after_one_key() {
    let mut translator = ScancodeTranslator::new();
    assert_eq!(translator.add_byte(0xF0), Ok(None));
    assert_eq!(
        translator.add_byte(0x1C),
        Ok(Some(KeyEvent { code: KeyCode::A, state: KeyState::Up }))
    );
    assert_eq!(
        translator.add_byte(0x1B),
        Ok(Some(KeyEvent { code: KeyCode::S, state: KeyState::Down }))
    );
}

#[test]
fn unknown_scancode_is_an_error() {
    let mut translator = ScancodeTranslator::new();
    assert_eq!(translator.add_byte(0x02), Err(DecodeError::UnknownKeyCode));
    // The next byte is decoded as if nothing had happened.
    assert_eq!(
        translator.add_byte(0x1C),
        Ok(Some(KeyEvent { code: KeyCode::A, state: KeyState::Down }))
    );
}

#[test]
fn extended_prefix_is_tracked() {
    let mut translator = ScancodeTranslator::new();
    assert_eq!(translator.add_byte(0xE0), Ok(None));
    assert_eq!(
        translator.add_byte(0x75),
        Ok(Some(KeyEvent { code: KeyCode::ArrowUp, state: KeyState::Down }))
    );
    assert_eq!(translator.add_byte(0xE0), Ok(None));
    assert_eq!(translator.add_byte(0xF0), Ok(None));
    assert_eq!(
        translator.add_byte(0x75),
        Ok(Some(KeyEvent { code: KeyCode::ArrowUp, state: KeyState::Up }))
    );
}

#[test]
fn power_on_report_is_single_shot() {
    let mut translator = ScancodeTranslator::new();
    assert_eq!(
        translator.add_byte(0xAA),
        Ok(Some(KeyEvent { code: KeyCode::PowerOnTestOk, state: KeyState::SingleShot }))
    );
}

#[test]
fn payload_is_the_seven_bit_character() {
    assert_eq!(payload_byte('a'), Some(0x61));
    assert_eq!(payload_byte('\u{0}'), Some(0x00));
    assert_eq!(payload_byte('\u{7f}'), Some(0x7F));
    assert_eq!(payload_byte('\u{80}'), None);
    assert_eq!(payload_byte('é'), None);
}

#[test]
fn frame_is_marker_then_payload() {
    assert_eq!(frame_event(KeyState::Down, Some('a')), Some((b'0', b'a')));
    assert_eq!(frame_event(KeyState::Up, Some('a')), Some((b'1', b'a')));
    assert_eq!(frame_event(KeyState::Down, Some('5')), Some((0x30, 0x35)));
}

#[test]
fn no_frame_without_marker_or_payload() {
    assert_eq!(frame_event(KeyState::Down, None), None);
    assert_eq!(frame_event(KeyState::Up, None), None);
    assert_eq!(frame_event(KeyState::SingleShot, Some('a')), None);
    assert_eq!(frame_event(KeyState::SingleShot, None), None);
    assert_eq!(frame_event(KeyState::Down, Some('é')), None);
}

#[test]
fn key_down_is_framed_with_its_layout_character() {
    let mut translator = ScancodeTranslator::new();
    assert_eq!(translator.translate(0x1C), Some((b'0', b'a')));
    assert_eq!(translator.translate(0x16), Some((b'0', b'1')));
    assert_eq!(translator.translate(0x29), Some((b'0', b' ')));
}

#[test]
fn key_up_is_framed_after_the_break_prefix() {
    let mut translator = ScancodeTranslator::new();
    assert_eq!(translator.translate(0xF0), None);
    assert_eq!(translator.translate(0x1C), Some((b'1', b'a')));
}

#[test]
fn keys_without_a_character_are_not_framed() {
    let mut translator = ScancodeTranslator::new();
    // Left shift has no character in the layout.
    assert_eq!(translator.translate(0x12), None);
    // Unknown scancode.
    assert_eq!(translator.translate(0x02), None);
    // Power-on report.
    assert_eq!(translator.translate(0xAA), None);
    assert_eq!(translator.translate(0x1C), Some((b'0', b'a')));
}

#[test]
fn outcome_with_an_event_is_framed_through_the_layout() {
    let press = KeyEvent { code: KeyCode::A, state: KeyState::Down };
    assert_eq!(frame_outcome(Ok(Some(press))), Some((b'0', b'a')));
    let release = KeyEvent { code: KeyCode::Escape, state: KeyState::Up };
    assert_eq!(frame_outcome(Ok(Some(release))), Some((b'1', 0x1B)));
    let enter = KeyEvent { code: KeyCode::Return, state: KeyState::Down };
    assert_eq!(frame_outcome(Ok(Some(enter))), Some((b'0', 10)));
}

#[test]
fn outcome_without_a_framed_key_gives_nothing() {
    assert_eq!(frame_outcome(Ok(None)), None);
    assert_eq!(frame_outcome(Err(DecodeError::UnknownKeyCode)), None);
    let shift = KeyEvent { code: KeyCode::LShift, state: KeyState::Down };
    assert_eq!(frame_outcome(Ok(Some(shift))), None);
    let arrow = KeyEvent { code: KeyCode::ArrowUp, state: KeyState::Down };
    assert_eq!(frame_outcome(Ok(Some(arrow))), None);
    let report = KeyEvent { code: KeyCode::PowerOnTestOk, state: KeyState::SingleShot };
    assert_eq!(frame_outcome(Ok(Some(report))), None);
}

// The byte sequences that lead a fresh translator into each of its six
// phases, with whether the phase is a release phase and which bytes are
// prefixes in it.
fn phases() -> Vec<(Vec<u8>, bool, Vec<u8>)> {
    vec![
        (vec![], false, vec![0xE0, 0xE1, 0xF0]),
        (vec![0xE0], false, vec![0xF0]),
        (vec![0xF0], true, vec![]),
        (vec![0xE0, 0xF0], true, vec![]),
        (vec![0xE1], false, vec![0xF0]),
        (vec![0xE1, 0xF0], true, vec![]),
    ]
}

#[test]
fn nothing_is_answered_exactly_to_a_prefix_in_every_phase() {
    for (lead, _, prefixes) in phases() {
        for byte in 0u8..=255 {
            let mut translator = ScancodeTranslator::new();
            for step in &lead {
                assert_eq!(translator.add_byte(*step), Ok(None));
            }
            let outcome = translator.add_byte(byte);
            assert_eq!(outcome == Ok(None), prefixes.contains(&byte));
        }
    }
}

#[test]
fn an_event_is_a_release_exactly_in_a_release_phase() {
    for (lead, release, _) in phases() {
        for byte in 0u8..=255 {
            let mut translator = ScancodeTranslator::new();
            for step in &lead {
                assert_eq!(translator.add_byte(*step), Ok(None));
            }
            if let Ok(Some(event)) = translator.add_byte(byte) {
                assert_eq!(event.state == KeyState::Up, release);
            }
        }
    }
}

#[test]
fn any_byte_that_is_no_prefix_leads_back_to_the_start() {
    for (lead, _, prefixes) in phases() {
        for byte in 0u8..=255 {
            if prefixes.contains(&byte) {
                continue;
            }
            let mut translator = ScancodeTranslator::new();
            for step in &lead {
                assert_eq!(translator.add_byte(*step), Ok(None));
            }
            let _ = translator.add_byte(byte);
            // At the start again: a plain make code is a press.
            assert_eq!(
                translator.add_byte(0x1C),
                Ok(Some(KeyEvent { code: KeyCode::A, state: KeyState::Down }))
            );
        }
    }
}

#[test]
fn a_prefix_leads_to_the_phase_it_announces() {
    let mut translator = ScancodeTranslator::new();
    assert_eq!(translator.add_byte(0xE1), Ok(None));
    assert_eq!(
        translator.add_byte(0x14),
        Ok(Some(KeyEvent { code: KeyCode::RControl2, state: KeyState::Down }))
    );
    assert_eq!(translator.add_byte(0xE1), Ok(None));
    assert_eq!(translator.add_byte(0xF0), Ok(None));
    assert_eq!(
        translator.add_byte(0x14),
        Ok(Some(KeyEvent { code: KeyCode::RControl2, state: KeyState::Up }))
    );
    assert_eq!(translator.add_byte(0xE0), Ok(None));
    assert_eq!(
        translator.add_byte(0x14),
        Ok(Some(KeyEvent { code: KeyCode::RControl, state: KeyState::Down }))
    );
}

#[test]
fn marker_follows_the_break_prefix() {
    let mut translator = ScancodeTranslator::new();
    for code in [0x1Cu8, 0x1B, 0x23, 0x16, 0x29] {
        let pressed = translator.translate(code).unwrap();
        assert_eq!(pressed.0, MARKER_DOWN);
        assert_eq!(translator.translate(0xF0), None);
        let released = translator.translate(code).unwrap();
        assert_eq!(released.0, MARKER_UP);
        assert_eq!(released.1, pressed.1);
    }
}

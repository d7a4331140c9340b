//! Scancode translation: from the raw byte stream of a Scan Code Set 2
//! keyboard to key events, and from key events to the two-byte frames
//! written to the output sink.
//!
//! Decoding the byte stream and looking a key up in the keyboard layout are
//! the work of the `pc_keyboard` crate. Of the decoder this module states
//! the phases it moves through and which bytes are prefixes; which key a
//! scancode names is left to the crate. What is made of its answers is
//! proved here.

use pc_keyboard::layouts::Us104Key;
use pc_keyboard::{DecodedKey, HandleControl, KeyCode, KeyboardLayout, Modifiers};
use pc_keyboard::{ScancodeSet, ScancodeSet2};
use vstd::prelude::*;

verus! {

/// The stateful Scan Code Set 2 decoder of `pc_keyboard`, carried as an
/// opaque value.
#[verifier::external_type_specification]
#[verifier::external_body]
pub struct ExScancodeSet2(ScancodeSet2);

/// The key identifier of `pc_keyboard`, carried as an opaque value.
#[verifier::external_type_specification]
#[verifier::external_body]
pub struct ExKeyCode(KeyCode);

/// Marker byte that opens the frame of a key-down event: the character `'0'`.
pub const MARKER_DOWN: u8 = 0x30;

/// Marker byte that opens the frame of a key-up event: the character `'1'`.
pub const MARKER_UP: u8 = 0x31;

/// What happened to a key.
#[derive(Clone, Copy, Debug, PartialEq, Eq)]
pub enum KeyState {
    /// The key was released.
    Up,
    /// The key was pressed.
    Down,
    /// An event with neither press nor release, such as the power-on report.
    SingleShot,
}

/// One key transition.
#[derive(Clone, Copy, Debug, PartialEq, Eq)]
pub struct KeyEvent {
    /// Which key.
    pub code: KeyCode,
    /// What happened to it.
    pub state: KeyState,
}

/// Why a byte could not be decoded.
#[derive(Clone, Copy, Debug, PartialEq, Eq)]
pub enum DecodeError {
    /// The byte is no scancode that the decoder knows at this point.
    UnknownKeyCode,
}

/// Byte that announces an extended scancode.
pub const EXTENDED_PREFIX: u8 = 0xE0;

/// Byte that announces a scancode of the second extended set.
pub const EXTENDED2_PREFIX: u8 = 0xE1;

/// Break prefix: the byte that announces the release of the key whose
/// scancode follows.
pub const RELEASE_PREFIX: u8 = 0xF0;

/// Where the decoder stands in a scancode sequence.
#[derive(Clone, Copy, Debug, PartialEq, Eq)]
pub enum DecoderPhase {
    /// Between sequences.
    Start,
    /// After the extended prefix.
    Extended,
    /// After the break prefix.
    Release,
    /// After the extended prefix and the break prefix.
    ExtendedRelease,
    /// After the second extended prefix.
    Extended2,
    /// After the second extended prefix and the break prefix.
    Extended2Release,
}

/// Whether `byte` is a prefix in this phase: it completes no key and only
/// moves the decoder on.
pub open spec fn is_prefix(phase: DecoderPhase, byte: u8) -> bool {
    match phase {
        DecoderPhase::Start => byte == EXTENDED_PREFIX || byte == EXTENDED2_PREFIX || byte
            == RELEASE_PREFIX,
        DecoderPhase::Extended | DecoderPhase::Extended2 => byte == RELEASE_PREFIX,
        _ => false,
    }
}

/// Whether the next scancode names a key that was released.
pub open spec fn releases(phase: DecoderPhase) -> bool {
    phase == DecoderPhase::Release || phase == DecoderPhase::ExtendedRelease || phase
        == DecoderPhase::Extended2Release
}

/// The phase after `byte`: a prefix leads to the phase it announces, every
/// other byte leads back to the start, known scancode or not.
pub open spec fn next_phase(phase: DecoderPhase, byte: u8) -> DecoderPhase {
    match phase {
        DecoderPhase::Start => if byte == EXTENDED_PREFIX {
            DecoderPhase::Extended
        } else if byte == EXTENDED2_PREFIX {
            DecoderPhase::Extended2
        } else if byte == RELEASE_PREFIX {
            DecoderPhase::Release
        } else {
            DecoderPhase::Start
        },
        DecoderPhase::Extended => if byte == RELEASE_PREFIX {
            DecoderPhase::ExtendedRelease
        } else {
            DecoderPhase::Start
        },
        DecoderPhase::Extended2 => if byte == RELEASE_PREFIX {
            DecoderPhase::Extended2Release
        } else {
            DecoderPhase::Start
        },
        _ => DecoderPhase::Start,
    }
}

/// What holds of every answer of the decoder: it answers with nothing
/// exactly to a prefix, and an event is a release exactly when the decoder
/// stood in a release phase.
pub open spec fn fits(
    phase: DecoderPhase,
    byte: u8,
    outcome: Result<Option<KeyEvent>, DecodeError>,
) -> bool {
    &&& outcome == Ok::<Option<KeyEvent>, DecodeError>(None) <==> is_prefix(phase, byte)
    &&& outcome matches Ok(Some(event)) ==> (event.state == KeyState::Up <==> releases(phase))
}

/// The phase a decoder stands in.
pub uninterp spec fn phase_of(decoder: ScancodeSet2) -> DecoderPhase;

/// What a decoder that stands in `phase` answers to `byte`.
pub uninterp spec fn decoded(phase: DecoderPhase, byte: u8) -> Result<
    Option<KeyEvent>,
    DecodeError,
>;

/// The character of a key in the US 104-key layout with no modifier key
/// held and no lock engaged, if the layout gives it one.
pub uninterp spec fn layout_char(code: KeyCode) -> Option<char>;

/// Makes a decoder with `ScancodeSet2::new`, which sets its one field, the
/// phase, to the start.
#[verifier::external_body]
fn new_decoder() -> (decoder: ScancodeSet2)
    ensures
        phase_of(decoder) == DecoderPhase::Start,
{
    ScancodeSet2::new()
}

/// Gives the decoder one byte with `ScancodeSet::advance_state` and hands
/// its answer on: the event with its state variant for variant, and any
/// error as `UnknownKeyCode`, the only one this decoder raises.
///
/// The decoder reads nothing but its phase and the byte, so these two fix
/// its answer. As its source lays out phase by phase: a prefix moves it to
/// the phase the prefix announces and is answered with nothing; any other
/// byte moves it back to the start and is answered with an event or an
/// error; the event is a release in the three release phases and in no
/// other. It does not panic on any byte.
#[verifier::external_body]
fn advance_decoder(decoder: &mut ScancodeSet2, byte: u8) -> (outcome: Result<
    Option<KeyEvent>,
    DecodeError,
>)
    ensures
        outcome == decoded(phase_of(*old(decoder)), byte),
        fits(phase_of(*old(decoder)), byte, outcome),
        phase_of(*final(decoder)) == next_phase(phase_of(*old(decoder)), byte),
{
    match decoder.advance_state(byte) {
        Ok(None) => Ok(None),
        Ok(Some(event)) => Ok(Some(KeyEvent { code: event.code, state: match event.state {
            pc_keyboard::KeyState::Up => KeyState::Up,
            pc_keyboard::KeyState::Down => KeyState::Down,
            pc_keyboard::KeyState::SingleShot => KeyState::SingleShot,
        } })),
        Err(_) => Err(DecodeError::UnknownKeyCode),
    }
}

/// Looks a key up with `KeyboardLayout::map_keycode` of the US 104-key
/// layout, with no modifier key held and no lock engaged, and hands on the
/// character if the layout gives one rather than a raw key. The lookup reads
/// nothing but its arguments and does not panic.
#[verifier::external_body]
fn lookup_layout(code: KeyCode) -> (mapped: Option<char>)
    ensures
        mapped == layout_char(code),
{
    match Us104Key.map_keycode(code, &Modifiers::default(), HandleControl::MapLettersToUnicode) {
        DecodedKey::Unicode(character) => Some(character),
        DecodedKey::RawKey(_) => None,
    }
}

/// The marker byte of a key state: `'0'` for a press, `'1'` for a release,
/// none for an event that is neither.
pub open spec fn marker_of(state: KeyState) -> Option<u8> {
    match state {
        KeyState::Down => Some(MARKER_DOWN),
        KeyState::Up => Some(MARKER_UP),
        KeyState::SingleShot => None,
    }
}

/// The output byte of a layout character: the character itself when it fits
/// in seven bits, none otherwise.
pub open spec fn payload_of(character: char) -> Option<u8> {
    if (character as u32) < 128 {
        Some(character as u8)
    } else {
        None
    }
}

/// The frame written for a key transition: marker byte, then output byte.
/// Nothing is written unless the event has a marker and the key an output
/// byte.
pub open spec fn frame_of(state: KeyState, mapped: Option<char>) -> Option<(u8, u8)> {
    match (marker_of(state), mapped) {
        (Some(marker), Some(character)) => match payload_of(character) {
            Some(payload) => Some((marker, payload)),
            None => None,
        },
        _ => None,
    }
}

/// The frame written for what the decoder answered: that of the event, if
/// there is one; nothing for a byte that completes no event or is unknown.
pub open spec fn frame_of_outcome(outcome: Result<Option<KeyEvent>, DecodeError>) -> Option<
    (u8, u8),
> {
    match outcome {
        Ok(Some(event)) => frame_of(event.state, layout_char(event.code)),
        _ => None,
    }
}

/// The output byte of a layout character, if it has one.
pub fn payload_byte(character: char) -> (payload: Option<u8>)
    ensures
        payload == payload_of(character),
{
    let point: u32 = character as u32;
    if point < 128 {
        Some(point as u8)
    } else {
        None
    }
}

/// Builds the frame for a key transition from the event's state and the
/// character the layout gave for its key.
pub fn frame_event(state: KeyState, mapped: Option<char>) -> (frame: Option<(u8, u8)>)
    ensures
        frame == frame_of(state, mapped),
{
    let marker: u8 = match state {
        KeyState::Down => MARKER_DOWN,
        KeyState::Up => MARKER_UP,
        KeyState::SingleShot => {
            return None;
        },
    };
    match mapped {
        Some(character) => match payload_byte(character) {
            Some(payload) => Some((marker, payload)),
            None => None,
        },
        None => None,
    }
}

/// Builds the frame for what the decoder answered: the key of an event is
/// looked up in the layout and framed; without an event nothing is written.
pub fn frame_outcome(outcome: Result<Option<KeyEvent>, DecodeError>) -> (frame: Option<(u8, u8)>)
    ensures
        frame == frame_of_outcome(outcome),
{
    match outcome {
        Ok(Some(event)) => frame_event(event.state, lookup_layout(event.code)),
        _ => None,
    }
}

/// The marker byte that a frame carries when the decoder stood in `phase`.
pub open spec fn marker_in(phase: DecoderPhase) -> u8 {
    if releases(phase) {
        MARKER_UP
    } else {
        MARKER_DOWN
    }
}

/// A prefix is never framed, and a frame's marker tells a release from a
/// press by the phase the decoder stood in.
pub proof fn law_frames_follow_the_phase(
    phase: DecoderPhase,
    byte: u8,
    outcome: Result<Option<KeyEvent>, DecodeError>,
)
    requires
        fits(phase, byte, outcome),
    ensures
        is_prefix(phase, byte) ==> frame_of_outcome(outcome) is None,
        frame_of_outcome(outcome) matches Some(frame) ==> frame.0 == marker_in(phase),
{
}

/// The break prefix at the start is answered with nothing and makes the
/// next byte a release: whatever that byte is, it is no prefix, an event it
/// completes is a key-up event, and the decoder is back at the start
/// afterwards, so that the byte after it is a press again.
pub proof fn law_break_prefix_marks_one_release(
    code: u8,
    first: Result<Option<KeyEvent>, DecodeError>,
    second: Result<Option<KeyEvent>, DecodeError>,
)
    requires
        fits(DecoderPhase::Start, RELEASE_PREFIX, first),
        fits(next_phase(DecoderPhase::Start, RELEASE_PREFIX), code, second),
    ensures
        first == Ok::<Option<KeyEvent>, DecodeError>(None),
        next_phase(DecoderPhase::Start, RELEASE_PREFIX) == DecoderPhase::Release,
        second != Ok::<Option<KeyEvent>, DecodeError>(None),
        second matches Ok(Some(event)) ==> event.state == KeyState::Up,
        next_phase(DecoderPhase::Release, code) == DecoderPhase::Start,
        !releases(next_phase(DecoderPhase::Release, code)),
{
}

/// A byte at the start that is no prefix completes a key at once: the
/// answer is an event or an error, an event is no release, and the decoder
/// stays at the start.
pub proof fn law_plain_code_is_no_release(
    code: u8,
    outcome: Result<Option<KeyEvent>, DecodeError>,
)
    requires
        !is_prefix(DecoderPhase::Start, code),
        fits(DecoderPhase::Start, code, outcome),
    ensures
        outcome != Ok::<Option<KeyEvent>, DecodeError>(None),
        outcome matches Ok(Some(event)) ==> event.state != KeyState::Up,
        next_phase(DecoderPhase::Start, code) == DecoderPhase::Start,
{
}

/// The translator: a Scan Code Set 2 decoder and the rule that frames its
/// events for the sink. The decoder keeps track of prefixes, such as the
/// break prefix that announces a release, across calls.
pub struct ScancodeTranslator {
    decoder: ScancodeSet2,
}

impl View for ScancodeTranslator {
    type V = DecoderPhase;

    /// The phase the translator's decoder stands in.
    closed spec fn view(&self) -> DecoderPhase {
        phase_of(self.decoder)
    }
}

impl ScancodeTranslator {
    /// A translator at the start of a scancode sequence.
    pub fn new() -> (translator: ScancodeTranslator)
        ensures
            translator@ == DecoderPhase::Start,
    {
        ScancodeTranslator { decoder: new_decoder() }
    }

    /// Gives the translator one byte and returns what the decoder answers:
    /// nothing yet for a prefix, else an event or an error for a byte it
    /// does not know. A release is reported exactly for the key that follows
    /// a break prefix; after any byte that is no prefix the translator is
    /// back at the start.
    pub fn add_byte(&mut self, byte: u8) -> (outcome: Result<Option<KeyEvent>, DecodeError>)
        ensures
            outcome == decoded(old(self)@, byte),
            fits(old(self)@, byte, outcome),
            final(self)@ == next_phase(old(self)@, byte),
    {
        advance_decoder(&mut self.decoder, byte)
    }

    /// Gives the translator one byte and returns the frame to write to the
    /// sink, if the byte completes an event whose key has an output byte. A
    /// prefix is never framed; the marker of a frame is `'1'` exactly when
    /// the byte followed a break prefix.
    pub fn translate(&mut self, byte: u8) -> (frame: Option<(u8, u8)>)
        ensures
            frame == frame_of_outcome(decoded(old(self)@, byte)),
            final(self)@ == next_phase(old(self)@, byte),
            is_prefix(old(self)@, byte) ==> frame is None,
            frame matches Some(written) ==> written.0 == marker_in(old(self)@),
    {
        let outcome = self.add_byte(byte);
        proof {
            law_frames_follow_the_phase(old(self)@, byte, outcome);
        }
        frame_outcome(outcome)
    }
}

} // verus!

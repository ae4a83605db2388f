//! The keyboard decoder: raw scancodes are fed one at a time into a
//! layout-aware decoder that accumulates multi-byte sequences and modifier
//! state and yields decoded key events. Malformed sequences are discarded
//! silently and decoding resumes with the next scancode; transient hardware
//! noise must never be fatal.

use vstd::prelude::*;

verus! {

#[verifier::external_type_specification]
#[verifier::external_body]
pub struct ExKeyEvent(pc_keyboard::KeyEvent);

#[verifier::external_type_specification]
#[verifier::external_body]
pub struct ExKeyCode(pc_keyboard::KeyCode);

/// A decoded key: a printable or control character, or a named key that
/// produces no character (arrows, function keys and the like).
pub enum KeyPress {
    Char(char),
    Raw(pc_keyboard::KeyCode),
}

/// What one scancode byte did to the decoder: completed a key event, asked
/// for more bytes, or turned out malformed.
pub enum DecodeStep {
    Event(pc_keyboard::KeyEvent),
    NoEvent,
    Malformed,
}

/// A stateful scancode-to-key decoder over the US 104-key layout and
/// scancode set 1. The decoder type carries generic layout bounds that
/// cannot be declared here, so the whole field is held opaquely; what its
/// operations return is a pure function of the decoder state and their
/// arguments, named by `decode_step_of` and `process_of` below.
#[verifier::external_body]
pub struct KeyDecoder {
    keyboard: pc_keyboard::PS2Keyboard<
        pc_keyboard::layouts::Us104Key,
        pc_keyboard::ScancodeSet1,
    >,
}

/// Whether a decoder is in the initial state: no scancode sequence in
/// progress and every modifier and lock released.
pub uninterp spec fn decoder_initial(kb: KeyDecoder) -> bool;

/// The decoder state and outcome that feeding one scancode byte produces:
/// a completed key event, a request for more bytes, or a malformed
/// sequence. A deterministic table lookup: it depends on the decoder state
/// and the byte alone.
pub uninterp spec fn decode_step_of(kb: KeyDecoder, byte: u8) -> (KeyDecoder, DecodeStep);

/// The decoder state and decoded key that applying the decoder's modifier
/// and lock state to a completed key event produces. A deterministic table
/// lookup: it depends on the decoder state and the event alone.
pub uninterp spec fn process_of(kb: KeyDecoder, event: pc_keyboard::KeyEvent) -> (
    KeyDecoder,
    Option<KeyPress>,
);

/// Relies on pc_keyboard::PS2Keyboard::new: builds the decoder for the US
/// 104-key layout over scancode set 1, in its initial state, with control
/// characters passed through unmapped.
#[verifier::external_body]
fn keyboard_new() -> (r: KeyDecoder)
    ensures
        decoder_initial(r),
{
    KeyDecoder {
        keyboard: pc_keyboard::PS2Keyboard::new(
            pc_keyboard::ScancodeSet1::new(),
            pc_keyboard::layouts::Us104Key,
            pc_keyboard::HandleControl::Ignore,
        ),
    }
}

/// Relies on pc_keyboard::PS2Keyboard::add_byte: advances the scancode
/// state machine by one byte; a completed sequence yields its key event,
/// an unfinished one yields nothing, and an unrecognised byte is an error.
#[verifier::external_body]
fn keyboard_add_byte(kb: &mut KeyDecoder, byte: u8) -> (r: DecodeStep)
    ensures
        (*final(kb), r) == decode_step_of(*old(kb), byte),
{
    match kb.keyboard.add_byte(byte) {
        Ok(Some(event)) => DecodeStep::Event(event),
        Ok(None) => DecodeStep::NoEvent,
        Err(_) => DecodeStep::Malformed,
    }
}

/// Relies on pc_keyboard::PS2Keyboard::process_keyevent: applies the
/// decoder's modifier and lock state to a key event, yielding a character
/// or a raw key code when the event produces one.
#[verifier::external_body]
fn keyboard_process(kb: &mut KeyDecoder, event: pc_keyboard::KeyEvent) -> (r: Option<KeyPress>)
    ensures
        (*final(kb), r) == process_of(*old(kb), event),
{
    match kb.keyboard.process_keyevent(event) {
        Some(pc_keyboard::DecodedKey::Unicode(c)) => Some(KeyPress::Char(c)),
        Some(pc_keyboard::DecodedKey::RawKey(k)) => Some(KeyPress::Raw(k)),
        None => None,
    }
}

/// The decoder state and decoded key that feeding one raw scancode
/// produces: a byte that completes a sequence has the resulting key event
/// processed at once; an unfinished or malformed byte yields no key, and a
/// malformed sequence is discarded silently so that decoding resumes with
/// the next scancode.
pub open spec fn feed_of(kb: KeyDecoder, scancode: u8) -> (KeyDecoder, Option<KeyPress>) {
    let stepped = decode_step_of(kb, scancode);
    match stepped.1 {
        DecodeStep::Event(event) => process_of(stepped.0, event),
        DecodeStep::NoEvent => (stepped.0, None),
        DecodeStep::Malformed => (stepped.0, None),
    }
}

impl KeyDecoder {
    /// Builds a decoder in its initial state.
    pub fn new() -> (r: KeyDecoder)
        ensures
            decoder_initial(r),
    {
        keyboard_new()
    }

    /// Feeds one raw scancode into the decoder and returns the decoded key
    /// it completes, if any. A malformed sequence is discarded silently and
    /// decoding resumes with the next scancode.
    pub fn feed(&mut self, scancode: u8) -> (r: Option<KeyPress>)
        ensures
            (*final(self), r) == feed_of(*old(self), scancode),
    {
        match keyboard_add_byte(self, scancode) {
            DecodeStep::Event(event) => keyboard_process(self, event),
            DecodeStep::NoEvent => None,
            DecodeStep::Malformed => None,
        }
    }
}

} // verus!

//! Keyboard input: the shared scancode decoder and the keyboard interrupt
//! handler.
//!
//! Decoding is done by pc_keyboard's scancode state machine (set 1, US
//! layout).  The decoder's consumed-byte history is its abstract state, and
//! what a byte decodes to is a pure function of that history; both are named
//! here and assumed only of the wrapped calls.  The handler feeds the byte
//! it was handed, delivers the decoded event to the text sink or the debug
//! token list, and acknowledges the interrupt controller exactly once, as
//! its last action, on every path.

use vstd::prelude::*;

use crate::interrupts::InterruptIndex;
use crate::pic::ControllerBridge;
use crate::vesa_buffer::{char_model, is_supported_char, text_state, Screen, TextState, Writer};

verus! {

/// One decoded input event: a Unicode scalar value, or a key with no
/// Unicode meaning, carried as its numeric keycode for debug output.
#[derive(Debug, Clone, Copy, PartialEq, Eq)]
pub enum KeyOutput {
    Unicode(char),
    RawKey(u8),
}

/// The single shared scancode decoder: set 1, US layout, partial
/// multi-byte sequences held between interrupts.  The wrapped pc_keyboard
/// state machine carries trait bounds the verifier cannot declare, so the
/// whole struct is opaque and its state is abstracted by `kb_history`.
#[verifier::external_body]
pub struct KeyboardDecoder {
    inner: pc_keyboard::PS2Keyboard<pc_keyboard::layouts::Us104Key, pc_keyboard::ScancodeSet1>,
}

/// The bytes a decoder has consumed since it was created.
pub uninterp spec fn kb_history(d: KeyboardDecoder) -> Seq<u8>;

/// What feeding `scancode` to a decoder with the given byte history yields.
/// The decoder state machine is deterministic and reads nothing but its
/// input bytes, so the result is a function of the history and the byte.
pub uninterp spec fn spec_kb_decode(history: Seq<u8>, scancode: u8) -> Option<KeyOutput>;

/// Relies on `PS2Keyboard::new`: a fresh decoder has consumed no bytes.
#[verifier::external_body]
fn new_decoder_raw() -> (d: KeyboardDecoder)
    ensures
        kb_history(d) == Seq::<u8>::empty(),
{
    KeyboardDecoder {
        inner: pc_keyboard::PS2Keyboard::new(
            pc_keyboard::ScancodeSet1::new(),
            pc_keyboard::layouts::Us104Key,
            pc_keyboard::HandleControl::MapLettersToUnicode,
        ),
    }
}

/// Relies on `PS2Keyboard::add_byte` and `PS2Keyboard::process_keyevent`:
/// one call of each per byte, as the interrupt handler uses them.  Together
/// they advance the decoder by exactly the byte fed to it, and what they
/// yield depends on the byte history alone; a malformed or unsupported
/// sequence yields nothing.
#[verifier::external_body]
fn advance_decoder(d: &mut KeyboardDecoder, scancode: u8) -> (r: Option<KeyOutput>)
    ensures
        kb_history(*final(d)) == kb_history(*old(d)).push(scancode),
        r == spec_kb_decode(kb_history(*old(d)), scancode),
{
    match d.inner.add_byte(scancode) {
        Ok(Some(event)) => match d.inner.process_keyevent(event) {
            Some(pc_keyboard::DecodedKey::Unicode(character)) => Some(
                KeyOutput::Unicode(character),
            ),
            Some(pc_keyboard::DecodedKey::RawKey(key)) => Some(KeyOutput::RawKey(key as u8)),
            None => None,
        },
        _ => None,
    }
}

impl KeyboardDecoder {
    /// The bytes fed so far.
    pub open spec fn history(self) -> Seq<u8> {
        kb_history(self)
    }

    /// A fresh decoder.
    pub fn new() -> (d: KeyboardDecoder)
        ensures
            d.history() == Seq::<u8>::empty(),
    {
        new_decoder_raw()
    }

    /// Feed one scancode byte; zero or one decoded event comes out.
    pub fn feed(&mut self, scancode: u8) -> (r: Option<KeyOutput>)
        ensures
            final(self).history() == old(self).history().push(scancode),
            r == spec_kb_decode(old(self).history(), scancode),
    {
        advance_decoder(self, scancode)
    }
}

/// What delivering one decoded event does: a printable character or newline
/// reaches the text sink, a raw key becomes a debug token, a non-printable
/// Unicode value is dropped silently.
pub open spec fn deliver_model(t: TextState, tokens: Seq<u8>, event: Option<KeyOutput>) -> (
    TextState,
    Seq<u8>,
) {
    match event {
        None => (t, tokens),
        Some(KeyOutput::Unicode(c)) => if is_supported_char(c) {
            (char_model(t, c), tokens)
        } else {
            (t, tokens)
        },
        Some(KeyOutput::RawKey(key)) => (t, tokens.push(key)),
    }
}

/// Deliver one decoded event to the sinks, exactly as `deliver_model` says.
pub fn deliver_key_event(
    event: Option<KeyOutput>,
    writer: &mut Writer,
    screen: &mut Screen,
    debug_tokens: &mut Vec<u8>,
)
    requires
        old(writer).wf(),
        old(screen).wf(),
    ensures
        final(writer).wf(),
        final(screen).wf(),
        (text_state(*final(writer), *final(screen)), final(debug_tokens)@) == deliver_model(
            text_state(*old(writer), *old(screen)),
            old(debug_tokens)@,
            event,
        ),
{
    match event {
        None => {},
        Some(KeyOutput::Unicode(character)) => {
            if character == '\n' || (' ' <= character && character <= '~') {
                writer.write_char(screen, character);
            }
        },
        Some(KeyOutput::RawKey(key)) => {
            debug_tokens.push(key);
        },
    }
}

/// Keyboard interrupt handler.  The caller has already read exactly one
/// byte from the data port — unconditionally, even after a decode failure,
/// or the controller would re-raise the stale byte.  The byte is fed to the
/// shared decoder whatever it is, the decoded event is delivered, and the
/// controller is acknowledged exactly once, as the last action, on every
/// path.
pub fn keyboard_interrupt_handler(
    decoder: &mut KeyboardDecoder,
    bridge: &mut ControllerBridge,
    writer: &mut Writer,
    screen: &mut Screen,
    debug_tokens: &mut Vec<u8>,
    scancode: u8,
)
    requires
        old(bridge).is_initialized(),
        old(bridge).handles(InterruptIndex::Keyboard.spec_vector()),
        old(writer).wf(),
        old(screen).wf(),
    ensures
        final(decoder).history() == old(decoder).history().push(scancode),
        final(bridge).acks() == old(bridge).acks().push(InterruptIndex::Keyboard.spec_vector()),
        final(bridge).is_initialized(),
        final(bridge).primary() == old(bridge).primary(),
        final(bridge).secondary() == old(bridge).secondary(),
        final(writer).wf(),
        final(screen).wf(),
        (text_state(*final(writer), *final(screen)), final(debug_tokens)@) == deliver_model(
            text_state(*old(writer), *old(screen)),
            old(debug_tokens)@,
            spec_kb_decode(old(decoder).history(), scancode),
        ),
{
    let event = decoder.feed(scancode);
    deliver_key_event(event, writer, screen, debug_tokens);
    bridge.acknowledge(InterruptIndex::Keyboard.as_u8());
}

} // verus!

//! The PS/2 keyboard: scancodes decoded by `pc_keyboard`, characters handed
//! to the shell, and the draining of the controller's output buffer.
use vstd::prelude::*;
use pc_keyboard::{layouts, HandleControl, KeyEvent, PS2Keyboard, ScancodeSet1};

verus! {

#[verifier::external_type_specification]
#[verifier::external_body]
pub struct ExKeyEvent(KeyEvent);

#[verifier::external_type_specification]
#[verifier::external_body]
pub struct ExKeyboardError(pc_keyboard::Error);

/// A decoded key, as far as the shell cares.
#[derive(Clone, Copy, PartialEq, Eq, Structural, Debug)]
pub enum Key {
    /// A key that gives a character.
    Unicode(char),
    /// Any other key (Shift, arrows, ...).
    Raw,
}

/// The `pc_keyboard` decoder for a US 104-key keyboard in scancode set 1,
/// held as an opaque value: what it remembers between bytes (prefixes,
/// modifiers) is its own.
#[verifier::external_body]
pub struct Decoder {
    kb: PS2Keyboard<layouts::Us104Key, ScancodeSet1>,
}

/// `PS2Keyboard::new` for scancode set 1, the US 104-key layout, and Ctrl
/// left alone.  Nothing is claimed of the decoder it builds.
#[verifier::external_body]
fn new_decoder() -> (r: Decoder) {
    Decoder { kb: PS2Keyboard::new(ScancodeSet1::new(), layouts::Us104Key, HandleControl::Ignore) }
}

/// `PS2Keyboard::add_byte`: feeds one scancode byte to the decoder's state
/// machine.  What comes back depends on the bytes fed before (prefixes,
/// break codes), which the decoder keeps out of sight, so nothing is
/// claimed of it.
#[verifier::external_body]
fn add_byte(d: &mut Decoder, byte: u8) -> (r: Result<Option<KeyEvent>, pc_keyboard::Error>) {
    d.kb.add_byte(byte)
}

/// `PS2Keyboard::process_keyevent`, its `DecodedKey` told apart as a
/// character or a raw key.  The result depends on the modifier state the
/// decoder keeps, so nothing is claimed of it.
#[verifier::external_body]
fn process_keyevent(d: &mut Decoder, ev: KeyEvent) -> (r: Option<Key>) {
    match d.kb.process_keyevent(ev) {
        Some(pc_keyboard::DecodedKey::Unicode(c)) => Some(Key::Unicode(c)),
        Some(pc_keyboard::DecodedKey::RawKey(_)) => Some(Key::Raw),
        None => None,
    }
}

/// The byte the shell gets for a decoded key: an ASCII character (newline
/// and backspace included), nothing for anything else.
pub open spec fn spec_shell_byte(key: Option<Key>) -> Option<u8> {
    match key {
        Some(Key::Unicode(c)) => if (c as u32) < 128 {
            Some(c as u8)
        } else {
            None
        },
        _ => None,
    }
}

/// Law: every ASCII character the decoder produces reaches the shell as
/// that same byte; a character outside ASCII, a raw key, or no key at all
/// gives the shell nothing.
pub proof fn law_ascii_keys_delivered(key: Option<Key>)
    ensures
        key matches Some(Key::Unicode(c)) ==> ((c as u32) < 128 ==> spec_shell_byte(key) == Some(
            c as u8,
        ) && (c as u8) as u32 == c as u32),
        spec_shell_byte(key) is Some <==> (key matches Some(Key::Unicode(c)) && (c as u32) < 128),
{
    if let Some(Key::Unicode(c)) = key {
        let v = c as u32;
        assert(v < 128 ==> (v as u8) as u32 == v) by (bit_vector);
    }
}

/// The byte the shell gets for a decoded key: the character itself for
/// every ASCII character, nothing for any other key.
pub fn shell_byte(key: Option<Key>) -> (r: Option<u8>)
    ensures
        r == spec_shell_byte(key),
        key matches Some(Key::Unicode(c)) ==> if (c as u32) < 128 {
            r == Some(c as u8)
        } else {
            r is None
        },
        !(key matches Some(Key::Unicode(_))) ==> r is None,
{
    match key {
        Some(Key::Unicode(c)) => {
            if (c as u32) < 128 {
                Some(c as u8)
            } else {
                None
            }
        },
        _ => None,
    }
}

/// The keyboard: the scancode decoder, and (for the proofs) the key that
/// the decoder made of the last scancode.
pub struct Keyboard {
    decoder: Decoder,
    decoded: Ghost<Option<Key>>,
}

impl Keyboard {
    /// The key the decoder produced for the last scancode fed: `None` when
    /// that byte completed no key event, or the event gave no key.
    pub closed spec fn decoded(&self) -> Option<Key> {
        self.decoded@
    }

    /// A keyboard with a fresh decoder.
    pub fn init() -> (r: Self)
        ensures
            r.decoded() is None,
    {
        Keyboard { decoder: new_decoder(), decoded: Ghost(None) }
    }

    /// Feed one scancode: the character for the shell, if the byte
    /// completes a key press that gives an ASCII character.  Every ASCII
    /// character the decoder produces reaches the shell unchanged (space,
    /// newline and backspace among them); any other key gives nothing.
    pub fn on_scancode(&mut self, scancode: u8) -> (r: Option<u8>)
        ensures
            final(self).decoded() matches Some(Key::Unicode(c)) ==> if (c as u32) < 128 {
                r == Some(c as u8)
            } else {
                r is None
            },
            !(final(self).decoded() matches Some(Key::Unicode(_))) ==> r is None,
            r == spec_shell_byte(final(self).decoded()),
            r matches Some(c) ==> c < 128,
    {
        match add_byte(&mut self.decoder, scancode) {
            Ok(Some(ev)) => {
                let key = process_keyevent(&mut self.decoder, ev);
                self.decoded = Ghost(key);
                shell_byte(key)
            },
            _ => {
                self.decoded = Ghost(None);
                None
            },
        }
    }
}

// ---------------------------------------------------------------------------
// Draining the controller
// ---------------------------------------------------------------------------

/// Output buffer full, in the status register.
pub const OBF: u8 = 1;
/// Bytes read in one interrupt before the buffer counts as stuck.
pub const DRAIN_LIMIT: u32 = 256;

/// What the interrupt handler does after reading the status register.
#[derive(Clone, Copy, PartialEq, Eq, Structural, Debug)]
pub enum DrainStep {
    /// The buffer is empty: acknowledge the interrupt.
    Done,
    /// Read the data port and decode the byte.
    Read,
    /// Too many bytes: read and drop everything left, then acknowledge.
    Flush,
}

/// The count of bytes read in this interrupt.
pub struct Drain {
    guard: u32,
}

impl Drain {
    pub closed spec fn reads(&self) -> u32 {
        self.guard
    }

    /// Nothing read yet.
    pub fn new() -> (r: Self)
        ensures
            r.reads() == 0,
    {
        Drain { guard: 0 }
    }

    /// Every byte must be taken, or the edge-triggered line never fires
    /// again; but a buffer that never empties must not hold the handler
    /// forever.  Given the status register: empty ends; else count the
    /// byte, and past the limit flush.
    pub fn on_status(&mut self, status: u8) -> (r: DrainStep)
        requires
            old(self).reads() <= DRAIN_LIMIT,
        ensures
            status & OBF == 0 ==> r == DrainStep::Done && final(self).reads() == old(self).reads(),
            status & OBF != 0 ==> final(self).reads() == old(self).reads() + 1 && (if final(self).reads()
                > DRAIN_LIMIT {
                r == DrainStep::Flush
            } else {
                r == DrainStep::Read
            }),
            r == DrainStep::Read ==> final(self).reads() <= DRAIN_LIMIT,
    {
        if status & OBF == 0 {
            return DrainStep::Done;
        }
        self.guard = self.guard + 1;
        if self.guard > DRAIN_LIMIT {
            DrainStep::Flush
        } else {
            DrainStep::Read
        }
    }
}

} // verus!

//! Keyboard input: the queue of scancodes that the keyboard interrupt fills,
//! the stream that a task reads them from, and their decoding into keys.
//!
//! The library decides; its caller acts. Whoever delivers a scancode wakes
//! the reader when told that the scancode is queued, and whoever polls the
//! stream registers the reader's waker between the two looks into the queue.

use crate::task::queue::{queue_pop, queue_push, scancode_queue_capacity, scancode_queue_new};
use crossbeam_queue::ArrayQueue;
use pc_keyboard::layouts::Us104Key;
use std::sync::Arc;
use pc_keyboard::{HandleControl, KeyCode, KeyEvent, Keyboard, ScancodeSet1};
use vstd::prelude::*;

verus! {

/// How many scancodes the queue can hold before further ones are dropped.
pub const SCANCODE_QUEUE_CAPACITY: usize = 100;

/// Creates the queue that carries scancodes from the keyboard interrupt to
/// the task that reads them: a queue for `SCANCODE_QUEUE_CAPACITY` scancodes.
pub fn new_scancode_queue() -> (queue: ArrayQueue<u8>)
    ensures
        scancode_queue_capacity(queue) == SCANCODE_QUEUE_CAPACITY,
{
    scancode_queue_new(SCANCODE_QUEUE_CAPACITY)
}

/// What became of a scancode that the keyboard interrupt delivered.
#[derive(Clone, Copy, Debug, PartialEq, Eq, Structural)]
pub enum Delivery {
    /// The scancode is in the queue: the reader is to be woken.
    Queued,
    /// The queue was full: the scancode is lost.
    Dropped,
    /// There is no queue yet: the scancode is lost.
    NoQueue,
}

/// What becomes of a scancode, given whether there is a queue and, if so,
/// what the push into it came to.
pub fn delivery(pushed: Option<Result<(), u8>>) -> (outcome: Delivery)
    ensures
        outcome == match pushed {
            Some(Ok(_)) => Delivery::Queued,
            Some(Err(_)) => Delivery::Dropped,
            None => Delivery::NoQueue,
        },
{
    match pushed {
        Some(Ok(_)) => Delivery::Queued,
        Some(Err(_)) => Delivery::Dropped,
        None => Delivery::NoQueue,
    }
}

/// The writing end of a scancode queue, for the keyboard interrupt.
pub struct ScancodeSender {
    queue: Arc<ArrayQueue<u8>>,
}

impl ScancodeSender {
    /// The queue that the sender writes to.
    pub closed spec fn queue(&self) -> ArrayQueue<u8> {
        *self.queue
    }
}

/// Hands a scancode from the keyboard interrupt to the reading task.
///
/// Puts the scancode into the queue, if there is one and it has room;
/// otherwise the scancode is dropped. The caller wakes the reader exactly
/// when the scancode is queued. Never blocks and never allocates.
pub fn add_scancode(sender: Option<&ScancodeSender>, scancode: u8) -> (outcome: Delivery)
    ensures
        sender.is_none() <==> outcome == Delivery::NoQueue,
{
    let pushed = match sender {
        Some(sender) => Some(queue_push(&sender.queue, scancode)),
        None => None,
    };
    delivery(pushed)
}

/// What a poll of the scancode stream came to.
#[derive(Clone, Copy, Debug, PartialEq, Eq, Structural)]
pub enum ScancodePoll {
    /// The next scancode.
    Ready(u8),
    /// No scancode is waiting; the registered waker will be woken when one
    /// arrives.
    Pending,
}

/// What a poll comes to at its first look into the queue, given what the
/// look found: a scancode ends the poll at once; without one the poll goes
/// on to register the waker.
pub fn after_first_look(first: Option<u8>) -> (outcome: Option<ScancodePoll>)
    ensures
        outcome == match first {
            Some(scancode) => Some(ScancodePoll::Ready(scancode)),
            None => None,
        },
{
    match first {
        Some(scancode) => Some(ScancodePoll::Ready(scancode)),
        None => None,
    }
}

/// What a poll comes to once the waker is registered, given what the second
/// look into the queue found, and whether the registered waker is to be
/// taken back.
pub fn after_register(second: Option<u8>) -> (outcome: (ScancodePoll, bool))
    ensures
        outcome == match second {
            Some(scancode) => (ScancodePoll::Ready(scancode), true),
            None => (ScancodePoll::Pending, false),
        },
{
    match second {
        Some(scancode) => (ScancodePoll::Ready(scancode), true),
        None => (ScancodePoll::Pending, false),
    }
}

/// The reading end of a scancode queue. A queue has one reader: the stream
/// that was made together with it.
pub struct ScancodeStream {
    queue: Arc<ArrayQueue<u8>>,
}

impl ScancodeStream {
    /// The queue that the stream reads from.
    pub closed spec fn queue(&self) -> ArrayQueue<u8> {
        *self.queue
    }

    /// Creates an empty queue for `SCANCODE_QUEUE_CAPACITY` scancodes and
    /// hands out its two ends: the sender for the keyboard interrupt and the
    /// only stream that reads from the queue.
    pub fn new() -> (ends: (ScancodeSender, ScancodeStream))
        ensures
            ends.0.queue() == ends.1.queue(),
            scancode_queue_capacity(ends.1.queue()) == SCANCODE_QUEUE_CAPACITY,
    {
        let queue = Arc::new(new_scancode_queue());
        (ScancodeSender { queue: queue.clone() }, ScancodeStream { queue })
    }

    /// Begins a poll with a first look into the queue.
    ///
    /// A scancode that is waiting ends the poll at once. Otherwise the
    /// caller registers the waker of the reading task and goes on with
    /// `poll_registered`: a scancode may arrive in between.
    pub fn poll_next(&mut self) -> (first: Option<ScancodePoll>)
        ensures
            final(self).queue() == old(self).queue(),
            first != Some(ScancodePoll::Pending),
    {
        after_first_look(queue_pop(&self.queue))
    }

    /// Ends a poll with a second look into the queue, once the waker is
    /// registered.
    ///
    /// Returns what the poll came to, and whether the caller is to take the
    /// registered waker back: it is exactly when a scancode had arrived
    /// after all.
    pub fn poll_registered(&mut self) -> (second: (ScancodePoll, bool))
        ensures
            final(self).queue() == old(self).queue(),
            second.1 == (second.0 != ScancodePoll::Pending),
    {
        after_register(queue_pop(&self.queue))
    }
}

/// `pc_keyboard::KeyEvent`: a key and whether it went down or up.
#[verifier::external_type_specification]
#[verifier::external_body]
pub struct ExKeyEvent(KeyEvent);

/// `pc_keyboard::KeyCode`: a key of the keyboard.
#[verifier::external_type_specification]
#[verifier::external_body]
pub struct ExKeyCode(KeyCode);

/// `pc_keyboard::Error`: why a scancode could not be decoded.
#[verifier::external_type_specification]
#[verifier::external_body]
pub struct ExKeyboardError(pc_keyboard::Error);

/// A key press as the decoder reports it.
pub enum DecodedKey {
    /// A key without a character of its own.
    RawKey(KeyCode),
    /// A key that stands for a character.
    Unicode(char),
}

/// Decodes the scancodes of a US keyboard with 104 keys that speaks scancode
/// set 1, keeping track of the modifier keys. The Ctrl keys change nothing.
///
/// Holds a `pc_keyboard::Keyboard`, whose type is bounded by traits of that
/// crate and is therefore kept out of sight of the verifier.
#[verifier::external_body]
pub struct KeyDecoder {
    keyboard: Keyboard<Us104Key, ScancodeSet1>,
}

/// The key event that a scancode completes, given what the decoder made of
/// the scancode: none when the decoder refused it or waits for more.
pub fn completed_event(fed: Result<Option<KeyEvent>, pc_keyboard::Error>) -> (event: Option<
    KeyEvent,
>)
    ensures
        event == match fed {
            Ok(Some(key_event)) => Some(key_event),
            _ => None,
        },
{
    match fed {
        Ok(Some(key_event)) => Some(key_event),
        _ => None,
    }
}

/// What `Keyboard::add_byte` reports when `byte` is fed to `decoder`: a key
/// event, the wish for more bytes, or the refusal of the byte.
pub uninterp spec fn fed_event(decoder: KeyDecoder, byte: u8) -> Result<Option<KeyEvent>, pc_keyboard::Error>;

/// The decoder that `Keyboard::add_byte` leaves when `byte` is fed to
/// `decoder`.
pub uninterp spec fn fed_decoder(decoder: KeyDecoder, byte: u8) -> KeyDecoder;

/// The key press that `Keyboard::process_keyevent` makes of `event` in
/// `decoder`, if the event is one: not a released key or a modifier.
pub uninterp spec fn pressed_key(decoder: KeyDecoder, event: KeyEvent) -> Option<DecodedKey>;

/// The decoder that `Keyboard::process_keyevent` leaves when `decoder` is
/// given `event`.
pub uninterp spec fn pressed_decoder(decoder: KeyDecoder, event: KeyEvent) -> KeyDecoder;

/// The text of a key's `Debug` form, as `pc_keyboard` derives it.
pub uninterp spec fn key_debug_text(code: KeyCode) -> Seq<char>;

/// `Keyboard::new` with the layout `Us104Key`, the set `ScancodeSet1` and
/// `HandleControl::Ignore`: a decoder that has seen no scancode yet.
#[verifier::external_body]
fn keyboard_new() -> (decoder: KeyDecoder) {
    KeyDecoder { keyboard: Keyboard::new(Us104Key, ScancodeSet1, HandleControl::Ignore) }
}

impl KeyDecoder {
    /// Creates a decoder that has seen no scancode yet.
    pub fn new() -> (decoder: KeyDecoder) {
        keyboard_new()
    }

    /// `Keyboard::add_byte`: feeds one scancode to the decoder, which
    /// reports a key event, asks for more bytes, or refuses the byte. What
    /// it reports and how it leaves the decoder depend on the decoder and
    /// the byte alone.
    #[verifier::external_body]
    fn add_byte(&mut self, byte: u8) -> (event: Result<Option<KeyEvent>, pc_keyboard::Error>)
        ensures
            event == fed_event(*old(self), byte),
            *final(self) == fed_decoder(*old(self), byte),
    {
        self.keyboard.add_byte(byte)
    }

    /// `Keyboard::process_keyevent`: turns a key event into a key press,
    /// unless the event only changes a modifier or releases a key. What it
    /// gives and how it leaves the decoder depend on the decoder and the
    /// event alone.
    #[verifier::external_body]
    fn process_keyevent(&mut self, event: KeyEvent) -> (key: Option<DecodedKey>)
        ensures
            key == pressed_key(*old(self), event),
            *final(self) == pressed_decoder(*old(self), event),
    {
        match self.keyboard.process_keyevent(event) {
            Some(pc_keyboard::DecodedKey::RawKey(code)) => Some(DecodedKey::RawKey(code)),
            Some(pc_keyboard::DecodedKey::Unicode(character)) => Some(
                DecodedKey::Unicode(character),
            ),
            None => None,
        }
    }

    /// Feeds one scancode to the decoder and reports the key press that it
    /// completes, if any: a scancode that is refused, that belongs to a
    /// longer sequence, or that ends no key press gives none, and the
    /// decoder takes no key event from it.
    pub fn decode(&mut self, scancode: u8) -> (key: Option<DecodedKey>)
        ensures
            key == match fed_event(*old(self), scancode) {
                Ok(Some(key_event)) => pressed_key(fed_decoder(*old(self), scancode), key_event),
                _ => None,
            },
            *final(self) == match fed_event(*old(self), scancode) {
                Ok(Some(key_event)) => pressed_decoder(
                    fed_decoder(*old(self), scancode),
                    key_event,
                ),
                _ => fed_decoder(*old(self), scancode),
            },
    {
        match completed_event(self.add_byte(scancode)) {
            Some(key_event) => self.process_keyevent(key_event),
            None => None,
        }
    }
}

/// The derived `Debug` form of `pc_keyboard::KeyCode`: the name of the key,
/// which depends on the key alone.
#[verifier::external_body]
fn key_name(code: &KeyCode) -> (name: String)
    ensures
        name@ == key_debug_text(*code),
{
    format!("{:?}", code)
}

/// `String::from` for a `char`: the string that holds this one character.
#[verifier::external_body]
fn char_text(character: char) -> (text: String)
    ensures
        text@ == seq![character],
{
    String::from(character)
}

/// The text that a key press is shown as: the character itself, or the name
/// of a key that has none.
pub fn keypress_text(key: &DecodedKey) -> (text: String)
    ensures
        text@ == match *key {
            DecodedKey::Unicode(character) => seq![character],
            DecodedKey::RawKey(code) => key_debug_text(code),
        },
{
    match key {
        DecodedKey::Unicode(character) => char_text(*character),
        DecodedKey::RawKey(code) => key_name(code),
    }
}

} // verus!

//! The scan-code decoder, kept in a `pc_keyboard::Keyboard`.

use crate::task::line_editor::{Key, RawKey};
use pc_keyboard::layouts::Us104Key;
use pc_keyboard::{HandleControl, KeyEvent, Keyboard, ScancodeSet1};
use vstd::prelude::*;

verus! {

/// `pc_keyboard::KeyEvent`: a key with its new state, carried from one call
/// to the next.
#[verifier::external_type_specification]
#[verifier::external_body]
pub struct ExKeyEvent(KeyEvent);

/// `pc_keyboard::Error`: why a scan code gave no key event.
#[verifier::external_type_specification]
#[verifier::external_body]
pub struct ExKeyboardError(pc_keyboard::Error);

/// `pc_keyboard::DecodedKey`: a symbol or a key code, which
/// `decoded_key_from` reads.
#[verifier::external_type_specification]
#[verifier::external_body]
pub struct ExDecodedKey(pc_keyboard::DecodedKey);

/// The scan codes that a decoder has been fed since it was made, in order.
pub uninterp spec fn fed_bytes(decoder: Decoder) -> Seq<u8>;

/// The key events that a decoder has been given to process since it was
/// made, in order.
pub uninterp spec fn handled_events(decoder: Decoder) -> Seq<KeyEvent>;

/// What `Keyboard::add_byte` answers to `byte` on a keyboard for scan code
/// set 1 that has been fed `fed` before.
pub uninterp spec fn scan_event(fed: Seq<u8>, byte: u8) -> Result<
    Option<KeyEvent>,
    pc_keyboard::Error,
>;

/// What `Keyboard::process_keyevent` makes of `event` on a keyboard with the
/// US 104-key layout and the control keys passed through, which has
/// processed `handled` before.
pub uninterp spec fn event_key(handled: Seq<KeyEvent>, event: KeyEvent) -> Option<
    pc_keyboard::DecodedKey,
>;

/// The key of this library that stands for a `pc_keyboard::DecodedKey`.
pub uninterp spec fn key_from(key: pc_keyboard::DecodedKey) -> Key;

/// `Keyboard::new`, for scan code set 1 on a US 104-key layout, with the
/// control keys passed through as named keys. The new keyboard has been fed
/// nothing and has processed nothing.
#[verifier::external_body]
fn keyboard_new() -> (decoder: Decoder)
    ensures
        fed_bytes(decoder) == Seq::<u8>::empty(),
        handled_events(decoder) == Seq::<KeyEvent>::empty(),
{
    Decoder { keyboard: Keyboard::new(ScancodeSet1::new(), Us104Key, HandleControl::Ignore) }
}

/// `Keyboard::add_byte`: feeds one scan code to the keyboard, which answers
/// with a key event once a scan sequence is complete. The answer depends on
/// the scan codes fed before and on nothing else; no event is processed.
#[verifier::external_body]
fn keyboard_add_byte(decoder: &mut Decoder, byte: u8) -> (scanned: Result<
    Option<KeyEvent>,
    pc_keyboard::Error,
>)
    ensures
        scanned == scan_event(fed_bytes(*old(decoder)), byte),
        fed_bytes(*final(decoder)) == fed_bytes(*old(decoder)).push(byte),
        handled_events(*final(decoder)) == handled_events(*old(decoder)),
{
    decoder.keyboard.add_byte(byte)
}

/// `Keyboard::process_keyevent`: turns a key event into a decoded key, where
/// the event gives one, and follows the modifier keys. The answer depends on
/// the events processed before and on nothing else; no scan code is fed.
#[verifier::external_body]
fn keyboard_process_keyevent(decoder: &mut Decoder, event: KeyEvent) -> (key: Option<
    pc_keyboard::DecodedKey,
>)
    ensures
        key == event_key(handled_events(*old(decoder)), event),
        handled_events(*final(decoder)) == handled_events(*old(decoder)).push(event),
        fed_bytes(*final(decoder)) == fed_bytes(*old(decoder)),
{
    decoder.keyboard.process_keyevent(event)
}

/// Reads a `pc_keyboard::DecodedKey` into this library's own type: a symbol
/// as it is, a named key as one of the four that the editor tells apart, or
/// with the name that its `Debug` form gives.
#[verifier::external_body]
fn decoded_key_from(key: pc_keyboard::DecodedKey) -> (own: Key)
    ensures
        own == key_from(key),
{
    match key {
        pc_keyboard::DecodedKey::Unicode(symbol) => Key::Unicode(symbol),
        pc_keyboard::DecodedKey::RawKey(pc_keyboard::KeyCode::LShift) => Key::Named(RawKey::LShift),
        pc_keyboard::DecodedKey::RawKey(pc_keyboard::KeyCode::RShift) => Key::Named(RawKey::RShift),
        pc_keyboard::DecodedKey::RawKey(pc_keyboard::KeyCode::LControl) => Key::Named(RawKey::LControl),
        pc_keyboard::DecodedKey::RawKey(pc_keyboard::KeyCode::RControl) => Key::Named(RawKey::RControl),
        pc_keyboard::DecodedKey::RawKey(other) => Key::Named(
            RawKey::Other(format!("{:?}", other).chars().collect()),
        ),
    }
}

/// The key events that a keyboard gives for `bytes`, fed in turn to a new
/// one.
pub open spec fn events_of(bytes: Seq<u8>) -> Seq<KeyEvent>
    decreases bytes.len(),
{
    if bytes.len() == 0 {
        Seq::empty()
    } else {
        let earlier = events_of(bytes.drop_last());
        match scan_event(bytes.drop_last(), bytes.last()) {
            Ok(Some(event)) => earlier.push(event),
            _ => earlier,
        }
    }
}

/// The key that `byte` gives on a decoder which has decoded `bytes` before:
/// the key of the event that completes with `byte`, if one does and has a
/// key.
pub open spec fn decoded(bytes: Seq<u8>, byte: u8) -> Option<Key> {
    (DecoderView { fed: bytes, handled: events_of(bytes) }).key_for(byte)
}

/// A decoder as a mathematical value: what it has been given since it was
/// made.
pub struct DecoderView {
    /// The scan codes fed, in order.
    pub fed: Seq<u8>,
    /// The key events processed, in order.
    pub handled: Seq<KeyEvent>,
}

impl DecoderView {
    /// A decoder that has been given nothing.
    pub open spec fn fresh() -> DecoderView {
        DecoderView { fed: Seq::empty(), handled: Seq::empty() }
    }

    /// Every event that the scan codes gave has been processed, and nothing
    /// else: the state of a decoder that was made and then only decoded.
    pub open spec fn settled(self) -> bool {
        self.handled == events_of(self.fed)
    }

    /// The key that the decoder gives for `byte`: none where the scan
    /// sequence is incomplete or unknown, the key of the event that completes
    /// with `byte` otherwise, if that event has one.
    pub open spec fn key_for(self, byte: u8) -> Option<Key> {
        match scan_event(self.fed, byte) {
            Ok(Some(event)) => match event_key(self.handled, event) {
                Some(key) => Some(key_from(key)),
                None => None,
            },
            _ => None,
        }
    }

    /// The decoder after it has decoded `byte`: the scan code is fed, and
    /// the event that completes with it, if any, is processed.
    pub open spec fn after(self, byte: u8) -> DecoderView {
        DecoderView {
            fed: self.fed.push(byte),
            handled: match scan_event(self.fed, byte) {
                Ok(Some(event)) => self.handled.push(event),
                _ => self.handled,
            },
        }
    }

    /// The decoder after it has decoded `bytes` in turn.
    pub open spec fn after_all(self, bytes: Seq<u8>) -> DecoderView
        decreases bytes.len(),
    {
        if bytes.len() == 0 {
            self
        } else {
            self.after_all(bytes.drop_last()).after(bytes.last())
        }
    }
}

/// The decoder is deterministic in the scan codes: a new decoder is settled,
/// decoding keeps it so, and the key that a settled decoder gives for a scan
/// code is a function of the scan codes that it has decoded before.
pub proof fn lemma_decoder_follows_bytes(view: DecoderView, byte: u8)
    requires
        view.settled(),
    ensures
        DecoderView::fresh().settled(),
        view.after(byte).settled(),
        view.key_for(byte) == decoded(view.fed, byte),
{
    assert(view.fed.push(byte).drop_last() =~= view.fed);
}

/// A new decoder that has decoded `bytes` is settled and has been fed
/// exactly `bytes`, so that what it gives next is `decoded(bytes, _)`.
pub proof fn lemma_decoder_after_all(bytes: Seq<u8>)
    ensures
        DecoderView::fresh().after_all(bytes).settled(),
        DecoderView::fresh().after_all(bytes).fed == bytes,
    decreases bytes.len(),
{
    if bytes.len() > 0 {
        let earlier = bytes.drop_last();
        lemma_decoder_after_all(earlier);
        lemma_decoder_follows_bytes(DecoderView::fresh().after_all(earlier), bytes.last());
        assert(earlier.push(bytes.last()) =~= bytes);
    }
}

/// A stateful decoder of raw scan codes into keys. It follows
/// multi-byte scan sequences and gives at most one key for each byte. The
/// state is that of the `pc_keyboard::Keyboard` inside, which is opaque here:
/// its type is bounded by traits of that crate.
#[verifier::external_body]
pub struct Decoder {
    keyboard: Keyboard<Us104Key, ScancodeSet1>,
}

impl View for Decoder {
    type V = DecoderView;

    closed spec fn view(&self) -> DecoderView {
        DecoderView { fed: fed_bytes(*self), handled: handled_events(*self) }
    }
}

impl Decoder {
    /// A decoder at the start of a scan sequence, with no modifier held.
    pub fn new() -> (decoder: Self)
        ensures
            decoder@ == DecoderView::fresh(),
    {
        keyboard_new()
    }

    /// Feeds one scan code. Gives the decoded key where the code completes a
    /// key press that has one, and `None` where the sequence is incomplete,
    /// unknown, or a release.
    pub fn decode(&mut self, scancode: u8) -> (key: Option<Key>)
        ensures
            final(self)@ == old(self)@.after(scancode),
            key == old(self)@.key_for(scancode),
    {
        match keyboard_add_byte(self, scancode) {
            Ok(Some(event)) => match keyboard_process_keyevent(self, event) {
                Some(key) => Some(decoded_key_from(key)),
                None => None,
            },
            _ => None,
        }
    }
}

} // verus!

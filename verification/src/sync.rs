//! Decisions of the two loops that run over a phone connection: what a received
//! frame asks of the clipboard, and what a change of the local clipboard sends.
//! The loops themselves (reading, writing, sleeping) stand outside the library;
//! they hand each observation to these functions and carry out the answer.

use vstd::prelude::*;
use vstd::utf8::{decode_utf8, encode_utf8, valid_utf8};
use crate::protocol::{
    decode_frame, decoded_frame, encode_frame, encoded_frame, FrameError, FrameType,
};

verus! {

/// Decodes UTF-8 bytes into a `String`.
///
/// Calls `String::from_utf8`, which std documents as failing exactly on bytes that
/// are not valid UTF-8 and otherwise keeping the bytes as the string's contents.
/// Claimed in vstd's terms: `Some` exactly for `valid_utf8` bytes, holding their
/// `decode_utf8` characters.
#[verifier::external_body]
fn string_from_utf8(bytes: Vec<u8>) -> (s: Option<String>)
    ensures
        s is Some <==> valid_utf8(bytes@),
        s matches Some(t) ==> t@ == decode_utf8(bytes@),
{
    match String::from_utf8(bytes) {
        Ok(s) => Some(s),
        Err(_) => None,
    }
}

/// What a frame received from the phone asks for.
pub enum Inbound {
    /// Put this text on the clipboard.
    SetText(String),
    /// Put the image in these compressed bytes on the clipboard.
    SetImage(Vec<u8>),
    /// A text frame whose payload is not UTF-8: it is dropped.
    InvalidText,
    /// The bytes are not a frame.
    Invalid(FrameError),
}

/// Mathematical value of an [`Inbound`].
pub enum InboundView {
    SetText(Seq<char>),
    SetImage(Seq<u8>),
    InvalidText,
    Invalid(FrameError),
}

impl View for Inbound {
    type V = InboundView;

    open spec fn view(&self) -> InboundView {
        match self {
            Inbound::SetText(t) => InboundView::SetText(t@),
            Inbound::SetImage(b) => InboundView::SetImage(b@),
            Inbound::InvalidText => InboundView::InvalidText,
            Inbound::Invalid(e) => InboundView::Invalid(*e),
        }
    }
}

/// What a received frame buffer asks for.
pub open spec fn inbound_of(raw: Seq<u8>) -> InboundView {
    match decoded_frame(raw) {
        Err(e) => InboundView::Invalid(e),
        Ok(f) => match f.frame_type {
            FrameType::Text => if valid_utf8(f.payload) {
                InboundView::SetText(decode_utf8(f.payload))
            } else {
                InboundView::InvalidText
            },
            FrameType::Image => InboundView::SetImage(f.payload),
        },
    }
}

/// Whether carrying out an inbound action writes the clipboard, so that the
/// next local change is its echo.
pub open spec fn writes_clipboard(a: InboundView) -> bool {
    a is SetText || a is SetImage
}

impl Inbound {
    /// Whether this action writes the clipboard: the local change it causes is
    /// then not sent back to the phone.
    pub fn writes_clipboard(&self) -> (b: bool)
        ensures
            b == writes_clipboard(self@),
    {
        match self {
            Inbound::SetText(_) => true,
            Inbound::SetImage(_) => true,
            _ => false,
        }
    }
}

/// Decides what a complete frame buffer received from the phone asks for.
pub fn inbound_action(raw: &[u8]) -> (a: Inbound)
    ensures
        a@ == inbound_of(raw@),
{
    match decode_frame(raw) {
        Err(e) => Inbound::Invalid(e),
        Ok(frame) => match frame.frame_type {
            FrameType::Text => match string_from_utf8(frame.payload) {
                Some(text) => Inbound::SetText(text),
                None => Inbound::InvalidText,
            },
            FrameType::Image => Inbound::SetImage(frame.payload),
        },
    }
}

/// What the sending loop remembers between two looks at the clipboard.
pub struct SyncState {
    /// The clipboard text last seen (sent, or written by the phone).
    pub last_text: String,
    /// Hash of the image last sent or written by the phone.
    pub last_image_hash: u64,
}

/// Mathematical value of a [`SyncState`].
pub struct SyncView {
    pub last_text: Seq<char>,
    pub last_image_hash: u64,
}

impl View for SyncState {
    type V = SyncView;

    open spec fn view(&self) -> SyncView {
        SyncView { last_text: self.last_text@, last_image_hash: self.last_image_hash }
    }
}

/// What the sending loop does after one look at the clipboard.
pub enum Outbound {
    /// Nothing new on the clipboard.
    Idle,
    /// The change was the echo of a write from the phone: remembered, not sent.
    Suppressed,
    /// Send this text frame.
    SendText(Vec<u8>),
    /// Send this image frame; once it is written, record `hash` as sent.
    SendImage { hash: u64, frame: Vec<u8> },
    /// The payload does not fit the 32-bit length of a frame: nothing is sent.
    TooLarge,
}

/// Mathematical value of an [`Outbound`].
pub enum OutboundView {
    Idle,
    Suppressed,
    SendText(Seq<u8>),
    SendImage(u64, Seq<u8>),
    TooLarge,
}

impl View for Outbound {
    type V = OutboundView;

    open spec fn view(&self) -> OutboundView {
        match self {
            Outbound::Idle => OutboundView::Idle,
            Outbound::Suppressed => OutboundView::Suppressed,
            Outbound::SendText(f) => OutboundView::SendText(f@),
            Outbound::SendImage { hash, frame } => OutboundView::SendImage(*hash, frame@),
            Outbound::TooLarge => OutboundView::TooLarge,
        }
    }
}

/// A clipboard text counts as new when it is not empty and differs from the
/// text last seen.
pub open spec fn is_new_text(text: Seq<char>, last_text: Seq<char>) -> bool {
    text.len() > 0 && text != last_text
}

/// The image to consider: the one from a dropped file, else the clipboard's own.
pub open spec fn chosen_image(
    file: Option<(u64, Seq<u8>)>,
    clip: Option<(u64, Seq<u8>)>,
) -> Option<(u64, Seq<u8>)> {
    match file {
        Some(x) => Some(x),
        None => clip,
    }
}

/// One step of the sending loop: from the remembered state, the pending-echo
/// flag, the clipboard text read (if any) and the changed image found (if any),
/// to the new state, the new flag and the action. A new text wins over an image.
pub open spec fn outbound_step_of(
    s: SyncView,
    echo: bool,
    text: Option<Seq<char>>,
    image: Option<(u64, Seq<u8>)>,
) -> (SyncView, bool, OutboundView) {
    if text is Some && is_new_text(text->0, s.last_text) {
        let t = text->0;
        let s2 = SyncView { last_text: t, ..s };
        if echo {
            (s2, false, OutboundView::Suppressed)
        } else if encode_utf8(t).len() <= u32::MAX {
            (s2, false, OutboundView::SendText(encoded_frame(FrameType::Text, encode_utf8(t))))
        } else {
            (s2, false, OutboundView::TooLarge)
        }
    } else {
        match image {
            Some((h, png)) => if echo {
                (SyncView { last_image_hash: h, ..s }, false, OutboundView::Suppressed)
            } else if png.len() <= u32::MAX {
                (s, false, OutboundView::SendImage(h, encoded_frame(FrameType::Image, png)))
            } else {
                (s, false, OutboundView::TooLarge)
            },
            None => (s, echo, OutboundView::Idle),
        }
    }
}

/// Mathematical value of an optional string.
pub open spec fn text_view(t: Option<String>) -> Option<Seq<char>> {
    match t {
        Some(s) => Some(s@),
        None => None,
    }
}

/// Mathematical value of an optional hash and file.
pub open spec fn image_view(i: Option<(u64, Vec<u8>)>) -> Option<(u64, Seq<u8>)> {
    match i {
        Some((h, b)) => Some((h, b@)),
        None => None,
    }
}

impl SyncState {
    /// The state when a connection starts: the clipboard text now (empty if it
    /// cannot be read) and the hash of the image now, from a dropped file or else
    /// from the clipboard itself (0 if there is none), so that neither is sent.
    pub fn initial(text: Option<String>, file_hash: Option<u64>, image_hash: Option<u64>) -> (s:
        SyncState)
        ensures
            s.last_text@ == (match text {
                Some(t) => t@,
                None => Seq::<char>::empty(),
            }),
            s.last_image_hash == (match file_hash {
                Some(h) => h,
                None => match image_hash {
                    Some(h) => h,
                    None => 0u64,
                },
            }),
    {
        let last_text = match text {
            Some(t) => t,
            None => String::new(),
        };
        let last_image_hash = match file_hash {
            Some(h) => h,
            None => match image_hash {
                Some(h) => h,
                None => 0,
            },
        };
        SyncState { last_text, last_image_hash }
    }

    /// Records that the image with this hash reached the phone.
    pub fn image_sent(&mut self, hash: u64)
        ensures
            final(self).last_image_hash == hash,
            final(self).last_text == old(self).last_text,
    {
        self.last_image_hash = hash;
    }

    /// Whether one look at the clipboard finds something to act on: a new text or
    /// an image. Only then does [`SyncState::step`] read or clear the pending echo.
    pub fn has_change(
        &self,
        text: &Option<String>,
        file_image: &Option<(u64, Vec<u8>)>,
        clipboard_image: &Option<(u64, Vec<u8>)>,
    ) -> (b: bool)
        ensures
            b == ((text_view(*text) is Some && is_new_text(text_view(*text)->0, self@.last_text))
                || chosen_image(image_view(*file_image), image_view(*clipboard_image)) is Some),
    {
        let new_text = match text {
            Some(t) => !t.as_str().is_empty() && !(*t == self.last_text),
            None => false,
        };
        new_text || file_image.is_some() || clipboard_image.is_some()
    }

    /// One look at the clipboard. `text` is the clipboard text read (`None` if it
    /// could not be read); `file_image` and `clipboard_image` are the changed
    /// images found in a dropped file and on the clipboard. `echo_pending` is set
    /// by a write from the phone and is consumed by the next change seen.
    pub fn step(
        &mut self,
        echo_pending: &mut bool,
        text: Option<String>,
        file_image: Option<(u64, Vec<u8>)>,
        clipboard_image: Option<(u64, Vec<u8>)>,
    ) -> (out: Outbound)
        ensures
            (final(self)@, *final(echo_pending), out@) == outbound_step_of(
                old(self)@,
                *old(echo_pending),
                text_view(text),
                chosen_image(image_view(file_image), image_view(clipboard_image)),
            ),
    {
        let new_text: Option<String> = match text {
            Some(t) => if !t.as_str().is_empty() && !(t == self.last_text) {
                Some(t)
            } else {
                None
            },
            None => None,
        };
        let image = match file_image {
            Some(x) => Some(x),
            None => clipboard_image,
        };
        match new_text {
            Some(t) => {
                if *echo_pending {
                    *echo_pending = false;
                    self.last_text = t;
                    return Outbound::Suppressed;
                }
                let out = {
                    let bytes = t.as_str().as_bytes();
                    if bytes.len() <= 0xFFFF_FFFF {
                        Outbound::SendText(encode_frame(FrameType::Text, bytes))
                    } else {
                        Outbound::TooLarge
                    }
                };
                self.last_text = t;
                out
            },
            None => match image {
                Some((hash, png)) => {
                    if *echo_pending {
                        *echo_pending = false;
                        self.last_image_hash = hash;
                        return Outbound::Suppressed;
                    }
                    if png.len() <= 0xFFFF_FFFF {
                        Outbound::SendImage { hash, frame: encode_frame(FrameType::Image, png.as_slice()) }
                    } else {
                        Outbound::TooLarge
                    }
                },
                None => Outbound::Idle,
            },
        }
    }
}


/// Looking twice at an unchanged clipboard text sends it at most once: the
/// second look finds nothing new and changes nothing.
pub proof fn lemma_text_step_settles(s: SyncView, echo: bool, t: Seq<char>)
    ensures
        ({
            let (s1, e1, _) = outbound_step_of(s, echo, Some(t), None);
            outbound_step_of(s1, e1, Some(t), None) == (s1, e1, OutboundView::Idle)
        }),
{
}

/// A text that the phone sends is put on the clipboard and marks the next change
/// as its echo; the sending loop then does not send it back, whatever image it
/// finds at the same time, and remembers it as the last text.
pub proof fn lemma_phone_text_not_echoed(
    s: SyncView,
    t: Seq<char>,
    image: Option<(u64, Seq<u8>)>,
)
    requires
        encode_utf8(t).len() <= u32::MAX,
    ensures
        inbound_of(encoded_frame(FrameType::Text, encode_utf8(t))) == InboundView::SetText(t),
        writes_clipboard(InboundView::SetText(t)),
        ({
            let (s1, e1, out) = outbound_step_of(s, true, Some(t), image);
            &&& !(out is SendText)
            &&& !(out is SendImage)
            &&& t.len() > 0 ==> s1.last_text == t
            &&& is_new_text(t, s.last_text) ==> out is Suppressed && !e1
        }),
{
    crate::protocol::lemma_decode_encode(FrameType::Text, encode_utf8(t));
    vstd::utf8::encode_utf8_valid_utf8(t);
    vstd::utf8::encode_utf8_decode_utf8(t);
}

/// An image that the phone sends is put on the clipboard and marks the next
/// change as its echo; the sending loop then does not send it back and records
/// its hash.
pub proof fn lemma_phone_image_not_echoed(s: SyncView, payload: Seq<u8>, h: u64, png: Seq<u8>)
    requires
        payload.len() <= u32::MAX,
    ensures
        inbound_of(encoded_frame(FrameType::Image, payload)) == InboundView::SetImage(payload),
        writes_clipboard(InboundView::SetImage(payload)),
        outbound_step_of(s, true, None, Some((h, png))) == (
            SyncView { last_image_hash: h, ..s },
            false,
            OutboundView::Suppressed,
        ),
{
    crate::protocol::lemma_decode_encode(FrameType::Image, payload);
}

/// The pending echo is consumed only by a change: with no new text and no image
/// the state and the flag stay as they are.
pub proof fn lemma_idle_keeps_echo(s: SyncView, echo: bool, text: Option<Seq<char>>)
    requires
        !(text is Some && is_new_text(text->0, s.last_text)),
    ensures
        outbound_step_of(s, echo, text, None) == (s, echo, OutboundView::Idle),
{
}


/// A frame that carries exactly `payload` as type `t`: wire byte `tag`, a
/// big-endian length equal to the payload's, then the payload; and it decodes
/// back to them.
pub open spec fn frame_carries(f: Seq<u8>, tag: u8, t: FrameType, payload: Seq<u8>) -> bool {
    &&& f.len() == payload.len() + 5
    &&& f[0] == tag
    &&& crate::protocol::be_value(f.subrange(1, 5)) == payload.len()
    &&& f.subrange(5, f.len() as int) == payload
    &&& decoded_frame(f) == Ok::<crate::protocol::FrameView, FrameError>(
        crate::protocol::FrameView { frame_type: t, length: payload.len() as u32, payload },
    )
}

proof fn lemma_encoded_frame_carries(t: FrameType, tag: u8, payload: Seq<u8>)
    requires
        payload.len() <= u32::MAX,
        tag == crate::protocol::type_byte(t),
    ensures
        frame_carries(encoded_frame(t, payload), tag, t, payload),
{
    let f = encoded_frame(t, payload);
    crate::protocol::lemma_decode_encode(t, payload);
    crate::protocol::lemma_be_value_of_bytes(payload.len() as u32);
    assert(f.subrange(1, 5) =~= crate::protocol::be_bytes(payload.len() as u32));
    assert(f.subrange(5, f.len() as int) =~= payload);
}

/// A clipboard text that is empty or equal to the remembered one does not count:
/// the step goes exactly as if no text had been read, so a changed image found
/// at the same time is still handled.
pub proof fn lemma_old_text_counts_as_none(
    s: SyncView,
    echo: bool,
    t: Seq<char>,
    image: Option<(u64, Seq<u8>)>,
)
    requires
        t.len() == 0 || t == s.last_text,
    ensures
        outbound_step_of(s, echo, Some(t), image) == outbound_step_of(s, echo, None, image),
{
}

/// With no pending echo and no new clipboard text (none read, empty, or the
/// remembered one), a found image is sent: the action is an image frame carrying
/// exactly its PNG whenever that fits the 32-bit length, and `TooLarge` only when
/// it does not. The state and the flag are left as they were; the hash is
/// recorded once the frame is written.
pub proof fn lemma_found_image_is_sent(
    s: SyncView,
    text: Option<Seq<char>>,
    h: u64,
    png: Seq<u8>,
)
    requires
        text is None || text->0.len() == 0 || text->0 == s.last_text,
    ensures
        ({
            let (s1, e1, out) = outbound_step_of(s, false, text, Some((h, png)));
            &&& s1 == s
            &&& !e1
            &&& png.len() <= u32::MAX ==> (out matches OutboundView::SendImage(h1, f) && h1 == h
                && frame_carries(f, 2u8, FrameType::Image, png))
            &&& out is TooLarge <==> png.len() > u32::MAX
            &&& !(out is Idle) && !(out is Suppressed) && !(out is SendText)
        }),
{
    if png.len() <= u32::MAX {
        lemma_encoded_frame_carries(FrameType::Image, 2u8, png);
    }
}

/// With no pending echo, a new clipboard text (not empty, not the remembered one)
/// is sent before any image: the action is a text frame carrying exactly its
/// UTF-8 bytes whenever they fit the 32-bit length, `TooLarge` only when they do
/// not; the text is remembered and the image hash is left alone.
pub proof fn lemma_new_text_is_sent_first(
    s: SyncView,
    t: Seq<char>,
    image: Option<(u64, Seq<u8>)>,
)
    requires
        t.len() > 0,
        t != s.last_text,
    ensures
        ({
            let (s1, e1, out) = outbound_step_of(s, false, Some(t), image);
            &&& s1.last_text == t
            &&& s1.last_image_hash == s.last_image_hash
            &&& !e1
            &&& encode_utf8(t).len() <= u32::MAX ==> (out matches OutboundView::SendText(f)
                && frame_carries(f, 1u8, FrameType::Text, encode_utf8(t)))
            &&& out is TooLarge <==> encode_utf8(t).len() > u32::MAX
            &&& !(out is SendImage) && !(out is Idle) && !(out is Suppressed)
        }),
{
    if encode_utf8(t).len() <= u32::MAX {
        lemma_encoded_frame_carries(FrameType::Text, 1u8, encode_utf8(t));
    }
}

/// Nothing is refused as too large unless its payload exceeds the 32-bit length
/// field of a frame.
pub proof fn lemma_too_large_only_beyond_u32(
    s: SyncView,
    echo: bool,
    text: Option<Seq<char>>,
    image: Option<(u64, Seq<u8>)>,
)
    ensures
        outbound_step_of(s, echo, text, image).2 is TooLarge ==> (
        (text is Some && text->0.len() > 0 && text->0 != s.last_text && encode_utf8(text->0).len()
            > u32::MAX) || (image matches Some((_, p)) && p.len() > u32::MAX)),
{
}

/// While an echo is pending nothing is sent; a change consumes the flag and is
/// remembered (a new text, else the image's hash).
pub proof fn lemma_pending_echo_sends_nothing(
    s: SyncView,
    text: Option<Seq<char>>,
    image: Option<(u64, Seq<u8>)>,
)
    ensures
        ({
            let (s1, e1, out) = outbound_step_of(s, true, text, image);
            &&& !(out is SendText) && !(out is SendImage) && !(out is TooLarge)
            &&& (text is Some && text->0.len() > 0 && text->0 != s.last_text) ==> (s1.last_text
                == text->0 && !e1 && out is Suppressed && s1.last_image_hash == s.last_image_hash)
            &&& !(text is Some && text->0.len() > 0 && text->0 != s.last_text) ==> (image matches Some(
                (hh, _)) ==> (s1.last_image_hash == hh && s1.last_text == s.last_text && !e1
                && out is Suppressed))
            &&& (!(text is Some && text->0.len() > 0 && text->0 != s.last_text) && image is None)
                ==> (s1 == s && e1 && out is Idle)
        }),
{
}

} // verus!

//! Protocol messages and their wire form.
//!
//! A message on the wire is a big-endian `u32` payload length and the payload. The length framing
//! is handled by the transport layer; this module deals with the *payload*: a 4-byte opcode
//! followed by the message's fields, except for the greetings, whose payload begins with a 7-byte
//! magic string instead of an opcode.

use crate::codec::{Reader, Writer};
use crate::error::{ProtoError, Result};
use crate::field::{Field, Kind};
use crate::keys::{KeyButton, KeyId, KeyModifierMask};
use crate::opcode::Opcode;
use crate::text::same_bytes;
use crate::{field, wire};
use vstd::prelude::*;
use vstd::utf8::*;

verus! {

/// Greeting magic, the ASCII letters of `SelfKVM`.
pub const HELLO_MAGIC: &'static [u8; 7] = &[0x53, 0x65, 0x6C, 0x66, 0x4B, 0x56, 0x4D];

pub const DEFAULT_PORT: u16 = 24800;

pub const PROTOCOL_MAJOR: i16 = 1;

/// Minor 9 adds the file-transfer messages. It is backward compatible: the handshake only rejects
/// on a major mismatch.
pub const PROTOCOL_MINOR: i16 = 9;

/// Keep-alive cadence in seconds, at the level of the protocol rather than of TCP.
pub const KEEP_ALIVE_SECS: u64 = 3;

/// Number of missed keep-alives after which the peer counts as gone.
pub const KEEP_ALIVES_UNTIL_DEATH: u32 = 3;

/// A single protocol message.
#[derive(Debug, PartialEq, Eq)]
#[allow(inconsistent_fields)]
pub enum Message {
    /// Server greeting: magic, major, minor.
    Hello { major: i16, minor: i16 },
    /// Client reply: magic, major, minor, client name.
    HelloBack { major: i16, minor: i16, name: String },
    /// Server asks the client to report its screen geometry.
    QueryInfo,
    /// Client screen geometry: origin, size, warp zone, current cursor.
    DeviceInfo { x: i16, y: i16, w: i16, h: i16, warp: i16, mx: i16, my: i16 },
    /// Server acknowledges `DeviceInfo`. Until it is received, the client ignores mouse moves, so
    /// that it does not warp to stale coordinates.
    InfoAck,
    /// Reset all options to defaults.
    ResetOptions,
    /// Set options as `(id, value)` pairs flattened into one vector.
    SetOptions { opts: Vec<i32> },
    KeepAlive,
    NoOp,
    Close,
    /// Screen saver state changed.
    ScreenSaver { on: bool },
    /// Cursor entered this client's screen at `(x, y)`. `seq` is the enter sequence number, used to
    /// discard stale replies; `modifiers` carries the held modifiers, to re-synchronise them.
    Enter { x: i16, y: i16, seq: u32, modifiers: KeyModifierMask },
    /// Cursor left this client's screen.
    Leave,
    KeyDown { id: KeyId, mask: KeyModifierMask, button: KeyButton },
    KeyUp { id: KeyId, mask: KeyModifierMask, button: KeyButton },
    KeyRepeat { id: KeyId, mask: KeyModifierMask, count: u16, button: KeyButton },
    /// Mouse button pressed (1 is left, 2 middle, 3 right, ...).
    MouseDown { button: i8 },
    MouseUp { button: i8 },
    /// Absolute move in the client's screen coordinate space.
    MouseMove { x: i16, y: i16 },
    /// Relative move (used for captured pointer modes).
    MouseRelMove { dx: i16, dy: i16 },
    /// Wheel deltas (x horizontal, y vertical).
    MouseWheel { x: i16, y: i16 },
    /// Declare ownership of a clipboard (0 is the clipboard, 1 the selection).
    ClipboardGrab { id: i8, seq: u32 },
    /// Clipboard payload; `mark` chunks large transfers (0 is whole or start).
    ClipboardData { id: i8, seq: u32, mark: i8, data: Vec<u8> },
    /// Announce an incoming file. `id` correlates the transfer; `name` is the sender's base file
    /// name, which the receiver must sanitise before it touches the disk; `size` is the total
    /// length.
    FileOffer { id: u32, name: String, size: u64 },
    /// One ordered chunk of file `id`. `seq` is the 0-based chunk index; `data` holds at most one
    /// chunk's bytes, well under the frame cap.
    FileChunk { id: u32, seq: u32, data: Vec<u8> },
    /// File `id` is complete; `count` is the number of chunks sent, so that the receiver can detect
    /// a lost one.
    FileEnd { id: u32, count: u32 },
    /// Receiver's verdict on a `FileOffer`.
    FileAccept { id: u32, accept: bool },
    /// Server runs an incompatible protocol version.
    ErrIncompatible { major: i16, minor: i16 },
    /// Client name already in use.
    ErrBusy,
    /// Server does not recognise the client name.
    ErrUnknown,
    /// Protocol violation; the sender closes the connection afterwards.
    ErrBad,
}

/// The mathematical value of a [`Message`].
#[allow(inconsistent_fields)]
pub enum MessageView {
    Hello { major: i16, minor: i16 },
    HelloBack { major: i16, minor: i16, name: Seq<char> },
    QueryInfo,
    DeviceInfo { x: i16, y: i16, w: i16, h: i16, warp: i16, mx: i16, my: i16 },
    InfoAck,
    ResetOptions,
    SetOptions { opts: Seq<i32> },
    KeepAlive,
    NoOp,
    Close,
    ScreenSaver { on: bool },
    Enter { x: i16, y: i16, seq: u32, modifiers: KeyModifierMask },
    Leave,
    KeyDown { id: KeyId, mask: KeyModifierMask, button: KeyButton },
    KeyUp { id: KeyId, mask: KeyModifierMask, button: KeyButton },
    KeyRepeat { id: KeyId, mask: KeyModifierMask, count: u16, button: KeyButton },
    MouseDown { button: i8 },
    MouseUp { button: i8 },
    MouseMove { x: i16, y: i16 },
    MouseRelMove { dx: i16, dy: i16 },
    MouseWheel { x: i16, y: i16 },
    ClipboardGrab { id: i8, seq: u32 },
    ClipboardData { id: i8, seq: u32, mark: i8, data: Seq<u8> },
    FileOffer { id: u32, name: Seq<char>, size: u64 },
    FileChunk { id: u32, seq: u32, data: Seq<u8> },
    FileEnd { id: u32, count: u32 },
    FileAccept { id: u32, accept: bool },
    ErrIncompatible { major: i16, minor: i16 },
    ErrBusy,
    ErrUnknown,
    ErrBad,
}

/// How a flag is written.
pub open spec fn flag(on: bool) -> nat {
    if on {
        1
    } else {
        0
    }
}

/// A number field of `width` bytes.
pub open spec fn num(width: nat, value: nat) -> Field {
    Field::Number { width, value }
}

impl View for Message {
    type V = MessageView;

    open spec fn view(&self) -> MessageView {
        match *self {
            Message::Hello { major, minor } => MessageView::Hello { major, minor },
            Message::HelloBack { major, minor, name } => MessageView::HelloBack {
                major,
                minor,
                name: name@,
            },
            Message::QueryInfo => MessageView::QueryInfo,
            Message::DeviceInfo { x, y, w, h, warp, mx, my } => MessageView::DeviceInfo {
                x,
                y,
                w,
                h,
                warp,
                mx,
                my,
            },
            Message::InfoAck => MessageView::InfoAck,
            Message::ResetOptions => MessageView::ResetOptions,
            Message::SetOptions { opts } => MessageView::SetOptions { opts: opts@ },
            Message::KeepAlive => MessageView::KeepAlive,
            Message::NoOp => MessageView::NoOp,
            Message::Close => MessageView::Close,
            Message::ScreenSaver { on } => MessageView::ScreenSaver { on },
            Message::Enter { x, y, seq, modifiers } => MessageView::Enter { x, y, seq, modifiers },
            Message::Leave => MessageView::Leave,
            Message::KeyDown { id, mask, button } => MessageView::KeyDown { id, mask, button },
            Message::KeyUp { id, mask, button } => MessageView::KeyUp { id, mask, button },
            Message::KeyRepeat { id, mask, count, button } => MessageView::KeyRepeat {
                id,
                mask,
                count,
                button,
            },
            Message::MouseDown { button } => MessageView::MouseDown { button },
            Message::MouseUp { button } => MessageView::MouseUp { button },
            Message::MouseMove { x, y } => MessageView::MouseMove { x, y },
            Message::MouseRelMove { dx, dy } => MessageView::MouseRelMove { dx, dy },
            Message::MouseWheel { x, y } => MessageView::MouseWheel { x, y },
            Message::ClipboardGrab { id, seq } => MessageView::ClipboardGrab { id, seq },
            Message::ClipboardData { id, seq, mark, data } => MessageView::ClipboardData {
                id,
                seq,
                mark,
                data: data@,
            },
            Message::FileOffer { id, name, size } => MessageView::FileOffer {
                id,
                name: name@,
                size,
            },
            Message::FileChunk { id, seq, data } => MessageView::FileChunk { id, seq, data: data@ },
            Message::FileEnd { id, count } => MessageView::FileEnd { id, count },
            Message::FileAccept { id, accept } => MessageView::FileAccept { id, accept },
            Message::ErrIncompatible { major, minor } => MessageView::ErrIncompatible {
                major,
                minor,
            },
            Message::ErrBusy => MessageView::ErrBusy,
            Message::ErrUnknown => MessageView::ErrUnknown,
            Message::ErrBad => MessageView::ErrBad,
        }
    }
}

impl Clone for Message {
    fn clone(&self) -> (m: Self)
        ensures
            m@ == self@,
    {
        match self {
            Message::Hello { major, minor } => Message::Hello { major: *major, minor: *minor },
            Message::HelloBack { major, minor, name } => Message::HelloBack {
                major: *major,
                minor: *minor,
                name: name.clone(),
            },
            Message::QueryInfo => Message::QueryInfo,
            Message::DeviceInfo { x, y, w, h, warp, mx, my } => Message::DeviceInfo {
                x: *x,
                y: *y,
                w: *w,
                h: *h,
                warp: *warp,
                mx: *mx,
                my: *my,
            },
            Message::InfoAck => Message::InfoAck,
            Message::ResetOptions => Message::ResetOptions,
            Message::SetOptions { opts } => Message::SetOptions {
                opts: vstd::slice::slice_to_vec(opts.as_slice()),
            },
            Message::KeepAlive => Message::KeepAlive,
            Message::NoOp => Message::NoOp,
            Message::Close => Message::Close,
            Message::ScreenSaver { on } => Message::ScreenSaver { on: *on },
            Message::Enter { x, y, seq, modifiers } => Message::Enter {
                x: *x,
                y: *y,
                seq: *seq,
                modifiers: *modifiers,
            },
            Message::Leave => Message::Leave,
            Message::KeyDown { id, mask, button } => Message::KeyDown {
                id: *id,
                mask: *mask,
                button: *button,
            },
            Message::KeyUp { id, mask, button } => Message::KeyUp {
                id: *id,
                mask: *mask,
                button: *button,
            },
            Message::KeyRepeat { id, mask, count, button } => Message::KeyRepeat {
                id: *id,
                mask: *mask,
                count: *count,
                button: *button,
            },
            Message::MouseDown { button } => Message::MouseDown { button: *button },
            Message::MouseUp { button } => Message::MouseUp { button: *button },
            Message::MouseMove { x, y } => Message::MouseMove { x: *x, y: *y },
            Message::MouseRelMove { dx, dy } => Message::MouseRelMove { dx: *dx, dy: *dy },
            Message::MouseWheel { x, y } => Message::MouseWheel { x: *x, y: *y },
            Message::ClipboardGrab { id, seq } => Message::ClipboardGrab { id: *id, seq: *seq },
            Message::ClipboardData { id, seq, mark, data } => Message::ClipboardData {
                id: *id,
                seq: *seq,
                mark: *mark,
                data: vstd::slice::slice_to_vec(data.as_slice()),
            },
            Message::FileOffer { id, name, size } => Message::FileOffer {
                id: *id,
                name: name.clone(),
                size: *size,
            },
            Message::FileChunk { id, seq, data } => Message::FileChunk {
                id: *id,
                seq: *seq,
                data: vstd::slice::slice_to_vec(data.as_slice()),
            },
            Message::FileEnd { id, count } => Message::FileEnd { id: *id, count: *count },
            Message::FileAccept { id, accept } => Message::FileAccept { id: *id, accept: *accept },
            Message::ErrIncompatible { major, minor } => Message::ErrIncompatible {
                major: *major,
                minor: *minor,
            },
            Message::ErrBusy => Message::ErrBusy,
            Message::ErrUnknown => Message::ErrUnknown,
            Message::ErrBad => Message::ErrBad,
        }
    }
}

/// The kinds of the fields that follow an opcode.
pub open spec fn layout(op: Opcode) -> Seq<Kind> {
    match op {
        Opcode::QueryInfo => Seq::empty(),
        Opcode::DeviceInfo => seq![
            Kind::Number(2),
            Kind::Number(2),
            Kind::Number(2),
            Kind::Number(2),
            Kind::Number(2),
            Kind::Number(2),
            Kind::Number(2),
        ],
        Opcode::InfoAck => Seq::empty(),
        Opcode::ResetOptions => Seq::empty(),
        Opcode::SetOptions => seq![Kind::Ints],
        Opcode::KeepAlive => Seq::empty(),
        Opcode::NoOp => Seq::empty(),
        Opcode::Close => Seq::empty(),
        Opcode::ScreenSaver => seq![Kind::Number(1)],
        Opcode::Enter => seq![Kind::Number(2), Kind::Number(2), Kind::Number(4), Kind::Number(2)],
        Opcode::Leave => Seq::empty(),
        Opcode::KeyDown => seq![Kind::Number(2), Kind::Number(2), Kind::Number(2)],
        Opcode::KeyUp => seq![Kind::Number(2), Kind::Number(2), Kind::Number(2)],
        Opcode::KeyRepeat => seq![
            Kind::Number(2),
            Kind::Number(2),
            Kind::Number(2),
            Kind::Number(2),
        ],
        Opcode::MouseDown => seq![Kind::Number(1)],
        Opcode::MouseUp => seq![Kind::Number(1)],
        Opcode::MouseMove => seq![Kind::Number(2), Kind::Number(2)],
        Opcode::MouseRelMove => seq![Kind::Number(2), Kind::Number(2)],
        Opcode::MouseWheel => seq![Kind::Number(2), Kind::Number(2)],
        Opcode::ClipboardGrab => seq![Kind::Number(1), Kind::Number(4)],
        Opcode::ClipboardData => seq![
            Kind::Number(1),
            Kind::Number(4),
            Kind::Number(1),
            Kind::Bytes,
        ],
        Opcode::FileOffer => seq![Kind::Number(4), Kind::Text, Kind::Number(8)],
        Opcode::FileChunk => seq![Kind::Number(4), Kind::Number(4), Kind::Bytes],
        Opcode::FileEnd => seq![Kind::Number(4), Kind::Number(4)],
        Opcode::FileAccept => seq![Kind::Number(4), Kind::Number(1)],
        Opcode::ErrIncompatible => seq![Kind::Number(2), Kind::Number(2)],
        Opcode::ErrBusy => Seq::empty(),
        Opcode::ErrUnknown => Seq::empty(),
        Opcode::ErrBad => Seq::empty(),
    }
}

/// The message with these fields.
pub open spec fn build(op: Opcode, fields: Seq<Field>) -> MessageView {
    match op {
        Opcode::QueryInfo => MessageView::QueryInfo,
        Opcode::DeviceInfo => MessageView::DeviceInfo {
            x: wire::signed16(fields[0].number()),
            y: wire::signed16(fields[1].number()),
            w: wire::signed16(fields[2].number()),
            h: wire::signed16(fields[3].number()),
            warp: wire::signed16(fields[4].number()),
            mx: wire::signed16(fields[5].number()),
            my: wire::signed16(fields[6].number()),
        },
        Opcode::InfoAck => MessageView::InfoAck,
        Opcode::ResetOptions => MessageView::ResetOptions,
        Opcode::SetOptions => MessageView::SetOptions {
            opts: fields[0]->Ints_0,
        },
        Opcode::KeepAlive => MessageView::KeepAlive,
        Opcode::NoOp => MessageView::NoOp,
        Opcode::Close => MessageView::Close,
        Opcode::ScreenSaver => MessageView::ScreenSaver {
            on: fields[0].number() != 0,
        },
        Opcode::Enter => MessageView::Enter {
            x: wire::signed16(fields[0].number()),
            y: wire::signed16(fields[1].number()),
            seq: fields[2].number() as u32,
            modifiers: fields[3].number() as u16,
        },
        Opcode::Leave => MessageView::Leave,
        Opcode::KeyDown => MessageView::KeyDown {
            id: fields[0].number() as u16,
            mask: fields[1].number() as u16,
            button: fields[2].number() as u16,
        },
        Opcode::KeyUp => MessageView::KeyUp {
            id: fields[0].number() as u16,
            mask: fields[1].number() as u16,
            button: fields[2].number() as u16,
        },
        Opcode::KeyRepeat => MessageView::KeyRepeat {
            id: fields[0].number() as u16,
            mask: fields[1].number() as u16,
            count: fields[2].number() as u16,
            button: fields[3].number() as u16,
        },
        Opcode::MouseDown => MessageView::MouseDown {
            button: wire::signed8(fields[0].number()),
        },
        Opcode::MouseUp => MessageView::MouseUp {
            button: wire::signed8(fields[0].number()),
        },
        Opcode::MouseMove => MessageView::MouseMove {
            x: wire::signed16(fields[0].number()),
            y: wire::signed16(fields[1].number()),
        },
        Opcode::MouseRelMove => MessageView::MouseRelMove {
            dx: wire::signed16(fields[0].number()),
            dy: wire::signed16(fields[1].number()),
        },
        Opcode::MouseWheel => MessageView::MouseWheel {
            x: wire::signed16(fields[0].number()),
            y: wire::signed16(fields[1].number()),
        },
        Opcode::ClipboardGrab => MessageView::ClipboardGrab {
            id: wire::signed8(fields[0].number()),
            seq: fields[1].number() as u32,
        },
        Opcode::ClipboardData => MessageView::ClipboardData {
            id: wire::signed8(fields[0].number()),
            seq: fields[1].number() as u32,
            mark: wire::signed8(fields[2].number()),
            data: fields[3]->Bytes_0,
        },
        Opcode::FileOffer => MessageView::FileOffer {
            id: fields[0].number() as u32,
            name: fields[1]->Text_0,
            size: fields[2].number() as u64,
        },
        Opcode::FileChunk => MessageView::FileChunk {
            id: fields[0].number() as u32,
            seq: fields[1].number() as u32,
            data: fields[2]->Bytes_0,
        },
        Opcode::FileEnd => MessageView::FileEnd {
            id: fields[0].number() as u32,
            count: fields[1].number() as u32,
        },
        Opcode::FileAccept => MessageView::FileAccept {
            id: fields[0].number() as u32,
            accept: fields[1].number() != 0,
        },
        Opcode::ErrIncompatible => MessageView::ErrIncompatible {
            major: wire::signed16(fields[0].number()),
            minor: wire::signed16(fields[1].number()),
        },
        Opcode::ErrBusy => MessageView::ErrBusy,
        Opcode::ErrUnknown => MessageView::ErrUnknown,
        Opcode::ErrBad => MessageView::ErrBad,
    }
}

impl MessageView {
    /// The opcode of the message. The greetings have none.
    pub open spec fn opcode(self) -> Option<Opcode> {
        match self {
            MessageView::Hello { .. } => None,
            MessageView::HelloBack { .. } => None,
            MessageView::QueryInfo => Some(Opcode::QueryInfo),
            MessageView::DeviceInfo { .. } => Some(Opcode::DeviceInfo),
            MessageView::InfoAck => Some(Opcode::InfoAck),
            MessageView::ResetOptions => Some(Opcode::ResetOptions),
            MessageView::SetOptions { .. } => Some(Opcode::SetOptions),
            MessageView::KeepAlive => Some(Opcode::KeepAlive),
            MessageView::NoOp => Some(Opcode::NoOp),
            MessageView::Close => Some(Opcode::Close),
            MessageView::ScreenSaver { .. } => Some(Opcode::ScreenSaver),
            MessageView::Enter { .. } => Some(Opcode::Enter),
            MessageView::Leave => Some(Opcode::Leave),
            MessageView::KeyDown { .. } => Some(Opcode::KeyDown),
            MessageView::KeyUp { .. } => Some(Opcode::KeyUp),
            MessageView::KeyRepeat { .. } => Some(Opcode::KeyRepeat),
            MessageView::MouseDown { .. } => Some(Opcode::MouseDown),
            MessageView::MouseUp { .. } => Some(Opcode::MouseUp),
            MessageView::MouseMove { .. } => Some(Opcode::MouseMove),
            MessageView::MouseRelMove { .. } => Some(Opcode::MouseRelMove),
            MessageView::MouseWheel { .. } => Some(Opcode::MouseWheel),
            MessageView::ClipboardGrab { .. } => Some(Opcode::ClipboardGrab),
            MessageView::ClipboardData { .. } => Some(Opcode::ClipboardData),
            MessageView::FileOffer { .. } => Some(Opcode::FileOffer),
            MessageView::FileChunk { .. } => Some(Opcode::FileChunk),
            MessageView::FileEnd { .. } => Some(Opcode::FileEnd),
            MessageView::FileAccept { .. } => Some(Opcode::FileAccept),
            MessageView::ErrIncompatible { .. } => Some(Opcode::ErrIncompatible),
            MessageView::ErrBusy => Some(Opcode::ErrBusy),
            MessageView::ErrUnknown => Some(Opcode::ErrUnknown),
            MessageView::ErrBad => Some(Opcode::ErrBad),
        }
    }

    /// The fields of the message, in the order in which they are written.
    pub open spec fn fields(self) -> Seq<Field> {
        match self {
            MessageView::Hello { major, minor } => seq![
                num(2, wire::bits16(major)),
                num(2, wire::bits16(minor)),
            ],
            MessageView::HelloBack { major, minor, name } => seq![
                num(2, wire::bits16(major)),
                num(2, wire::bits16(minor)),
                Field::Text(name),
            ],
            MessageView::QueryInfo => Seq::empty(),
            MessageView::DeviceInfo { x, y, w, h, warp, mx, my } => seq![
                num(2, wire::bits16(x)),
                num(2, wire::bits16(y)),
                num(2, wire::bits16(w)),
                num(2, wire::bits16(h)),
                num(2, wire::bits16(warp)),
                num(2, wire::bits16(mx)),
                num(2, wire::bits16(my)),
            ],
            MessageView::InfoAck => Seq::empty(),
            MessageView::ResetOptions => Seq::empty(),
            MessageView::SetOptions { opts } => seq![Field::Ints(opts)],
            MessageView::KeepAlive => Seq::empty(),
            MessageView::NoOp => Seq::empty(),
            MessageView::Close => Seq::empty(),
            MessageView::ScreenSaver { on } => seq![num(1, flag(on))],
            MessageView::Enter { x, y, seq, modifiers } => seq![
                num(2, wire::bits16(x)),
                num(2, wire::bits16(y)),
                num(4, seq as nat),
                num(2, modifiers as nat),
            ],
            MessageView::Leave => Seq::empty(),
            MessageView::KeyDown { id, mask, button } => seq![
                num(2, id as nat),
                num(2, mask as nat),
                num(2, button as nat),
            ],
            MessageView::KeyUp { id, mask, button } => seq![
                num(2, id as nat),
                num(2, mask as nat),
                num(2, button as nat),
            ],
            MessageView::KeyRepeat { id, mask, count, button } => seq![
                num(2, id as nat),
                num(2, mask as nat),
                num(2, count as nat),
                num(2, button as nat),
            ],
            MessageView::MouseDown { button } => seq![num(1, wire::bits8(button))],
            MessageView::MouseUp { button } => seq![num(1, wire::bits8(button))],
            MessageView::MouseMove { x, y } => seq![
                num(2, wire::bits16(x)),
                num(2, wire::bits16(y)),
            ],
            MessageView::MouseRelMove { dx, dy } => seq![
                num(2, wire::bits16(dx)),
                num(2, wire::bits16(dy)),
            ],
            MessageView::MouseWheel { x, y } => seq![
                num(2, wire::bits16(x)),
                num(2, wire::bits16(y)),
            ],
            MessageView::ClipboardGrab { id, seq } => seq![
                num(1, wire::bits8(id)),
                num(4, seq as nat),
            ],
            MessageView::ClipboardData { id, seq, mark, data } => seq![
                num(1, wire::bits8(id)),
                num(4, seq as nat),
                num(1, wire::bits8(mark)),
                Field::Bytes(data),
            ],
            MessageView::FileOffer { id, name, size } => seq![
                num(4, id as nat),
                Field::Text(name),
                num(8, size as nat),
            ],
            MessageView::FileChunk { id, seq, data } => seq![
                num(4, id as nat),
                num(4, seq as nat),
                Field::Bytes(data),
            ],
            MessageView::FileEnd { id, count } => seq![num(4, id as nat), num(4, count as nat)],
            MessageView::FileAccept { id, accept } => seq![num(4, id as nat), num(1, flag(accept))],
            MessageView::ErrIncompatible { major, minor } => seq![
                num(2, wire::bits16(major)),
                num(2, wire::bits16(minor)),
            ],
            MessageView::ErrBusy => Seq::empty(),
            MessageView::ErrUnknown => Seq::empty(),
            MessageView::ErrBad => Seq::empty(),
        }
    }

    /// The bytes that open the payload: the magic of a greeting, or the opcode.
    pub open spec fn head(self) -> Seq<u8> {
        match self.opcode() {
            Some(op) => wire::be_wire(op.word() as nat, 4),
            None => HELLO_MAGIC@,
        }
    }

    /// The payload.
    pub open spec fn wire(self) -> Seq<u8> {
        field::written(self.head(), self.fields(), self.fields().len())
    }

    /// Whether every field is within the limits of the protocol.
    pub open spec fn fits(self) -> bool {
        field::all_fit(self.fields())
    }

    /// Whether this is an input-forwarding message.
    pub open spec fn input(self) -> bool {
        ||| self is KeyDown
        ||| self is KeyUp
        ||| self is KeyRepeat
        ||| self is MouseDown
        ||| self is MouseUp
        ||| self is MouseMove
        ||| self is MouseRelMove
        ||| self is MouseWheel
    }
}

/// What a payload means.
pub enum Decoding {
    Decoded(MessageView),
    /// No message has this opcode.
    Unknown(Seq<u8>),
    Failed(ProtoError),
}

/// Whether the payload opens with the greeting magic.
pub open spec fn is_greeting(payload: Seq<u8>) -> bool {
    payload.len() >= 7 && payload.take(7) == HELLO_MAGIC@
}

/// What a payload that opens with the greeting magic means. It is the client's greeting if anything
/// follows the version.
pub open spec fn greeting(payload: Seq<u8>) -> Decoding {
    match field::read_fields(
        seq![Kind::Number(2), Kind::Number(2)],
        Seq::empty(),
        payload.skip(7),
    ) {
        (Ok(fields), rest) => {
            let major = wire::signed16(fields[0].number());
            let minor = wire::signed16(fields[1].number());
            if rest.len() == 0 {
                Decoding::Decoded(MessageView::Hello { major, minor })
            } else {
                match wire::read_text(rest).0 {
                    Ok(name) => Decoding::Decoded(MessageView::HelloBack { major, minor, name }),
                    Err(e) => Decoding::Failed(e),
                }
            }
        },
        (Err(e), _) => Decoding::Failed(e),
    }
}

/// What a payload means. Bytes behind the last field are ignored.
pub open spec fn decoding(payload: Seq<u8>) -> Decoding {
    if is_greeting(payload) {
        greeting(payload)
    } else {
        match wire::read_number(4, payload) {
            (Ok(word), rest) => match Opcode::of_word(word) {
                Some(op) => match field::read_fields(layout(op), Seq::empty(), rest).0 {
                    Ok(fields) => Decoding::Decoded(build(op, fields)),
                    Err(e) => Decoding::Failed(e),
                },
                None => Decoding::Unknown(payload.take(4)),
            },
            (Err(e), _) => Decoding::Failed(e),
        }
    }
}

impl Message {
    /// Serialise this message to a payload (without the outer length frame, which the transport
    /// adds).
    #[verifier::spinoff_prover]
    pub fn encode(&self) -> (payload: Vec<u8>)
        ensures
            payload@ == self@.wire(),
    {
        proof {
            reveal_with_fuel(field::written, 8);
        }
        match self {
            Message::Hello { major, minor } => {
                let mut w = Writer::new();
                w.raw(HELLO_MAGIC).i16(*major).i16(*minor);
                w.into_vec()
            },
            Message::HelloBack { major, minor, name } => {
                let mut w = Writer::new();
                w.raw(HELLO_MAGIC).i16(*major).i16(*minor).string(name);
                w.into_vec()
            },
            Message::QueryInfo => Writer::with_code(&Opcode::QueryInfo.code()).into_vec(),
            Message::DeviceInfo { x, y, w, h, warp, mx, my } => {
                let mut wr = Writer::with_code(&Opcode::DeviceInfo.code());
                wr.i16(*x).i16(*y).i16(*w).i16(*h).i16(*warp).i16(*mx).i16(*my);
                wr.into_vec()
            },
            Message::InfoAck => Writer::with_code(&Opcode::InfoAck.code()).into_vec(),
            Message::ResetOptions => Writer::with_code(&Opcode::ResetOptions.code()).into_vec(),
            Message::SetOptions { opts } => {
                let mut w = Writer::with_code(&Opcode::SetOptions.code());
                w.i32_vec(opts);
                w.into_vec()
            },
            Message::KeepAlive => Writer::with_code(&Opcode::KeepAlive.code()).into_vec(),
            Message::NoOp => Writer::with_code(&Opcode::NoOp.code()).into_vec(),
            Message::Close => Writer::with_code(&Opcode::Close.code()).into_vec(),
            Message::ScreenSaver { on } => {
                let mut w = Writer::with_code(&Opcode::ScreenSaver.code());
                w.u8(if *on { 1 } else { 0 });
                w.into_vec()
            },
            Message::Enter { x, y, seq, modifiers } => {
                let mut w = Writer::with_code(&Opcode::Enter.code());
                w.i16(*x).i16(*y).u32(*seq).u16(*modifiers);
                w.into_vec()
            },
            Message::Leave => Writer::with_code(&Opcode::Leave.code()).into_vec(),
            Message::KeyDown { id, mask, button } => key_msg(Opcode::KeyDown, *id, *mask, *button),
            Message::KeyUp { id, mask, button } => key_msg(Opcode::KeyUp, *id, *mask, *button),
            Message::KeyRepeat { id, mask, count, button } => {
                let mut w = Writer::with_code(&Opcode::KeyRepeat.code());
                w.u16(*id).u16(*mask).u16(*count).u16(*button);
                w.into_vec()
            },
            Message::MouseDown { button } => {
                let mut w = Writer::with_code(&Opcode::MouseDown.code());
                w.i8(*button);
                w.into_vec()
            },
            Message::MouseUp { button } => {
                let mut w = Writer::with_code(&Opcode::MouseUp.code());
                w.i8(*button);
                w.into_vec()
            },
            Message::MouseMove { x, y } => xy_msg(Opcode::MouseMove, *x, *y),
            Message::MouseRelMove { dx, dy } => xy_msg(Opcode::MouseRelMove, *dx, *dy),
            Message::MouseWheel { x, y } => xy_msg(Opcode::MouseWheel, *x, *y),
            Message::ClipboardGrab { id, seq } => {
                let mut w = Writer::with_code(&Opcode::ClipboardGrab.code());
                w.i8(*id).u32(*seq);
                w.into_vec()
            },
            Message::ClipboardData { id, seq, mark, data } => {
                let mut w = Writer::with_code(&Opcode::ClipboardData.code());
                w.i8(*id).u32(*seq).i8(*mark).bytes(data);
                w.into_vec()
            },
            Message::FileOffer { id, name, size } => {
                let mut w = Writer::with_code(&Opcode::FileOffer.code());
                w.u32(*id).string(name).u64(*size);
                w.into_vec()
            },
            Message::FileChunk { id, seq, data } => {
                let mut w = Writer::with_code(&Opcode::FileChunk.code());
                w.u32(*id).u32(*seq).bytes(data);
                w.into_vec()
            },
            Message::FileEnd { id, count } => {
                let mut w = Writer::with_code(&Opcode::FileEnd.code());
                w.u32(*id).u32(*count);
                w.into_vec()
            },
            Message::FileAccept { id, accept } => {
                let mut w = Writer::with_code(&Opcode::FileAccept.code());
                w.u32(*id).u8(if *accept { 1 } else { 0 });
                w.into_vec()
            },
            Message::ErrIncompatible { major, minor } => {
                let mut w = Writer::with_code(&Opcode::ErrIncompatible.code());
                w.i16(*major).i16(*minor);
                w.into_vec()
            },
            Message::ErrBusy => Writer::with_code(&Opcode::ErrBusy.code()).into_vec(),
            Message::ErrUnknown => Writer::with_code(&Opcode::ErrUnknown.code()).into_vec(),
            Message::ErrBad => Writer::with_code(&Opcode::ErrBad.code()).into_vec(),
        }
    }

    /// Parse a message from a payload (the bytes inside one length frame).
    pub fn decode(payload: &[u8]) -> (r: Result<Message>)
        ensures
            match decoding(payload@) {
                Decoding::Decoded(v) => r matches Ok(m) && m@ == v,
                Decoding::Unknown(code) => r matches Err(ProtoError::UnknownCode(c)) && c@ == code,
                Decoding::Failed(e) => r == Err::<Message, ProtoError>(e),
            },
    {
        if payload.len() >= 7 && same_bytes(
            vstd::slice::slice_subrange(payload, 0, 7),
            HELLO_MAGIC,
        ) {
            assert(is_greeting(payload@));
            return decode_greeting(payload);
        }
        let mut r = Reader::new(payload);
        let word = r.u32()?;
        proof {
            wire::lemma_be_value_bound(payload@.take(4));
            wire::lemma_widths();
        }
        match Opcode::from_word(word) {
            Some(op) => decode_fields(op, &mut r),
            None => {
                let code: [u8; 4] = [payload[0], payload[1], payload[2], payload[3]];
                assert(code@ =~= payload@.take(4));
                Err(ProtoError::UnknownCode(code))
            },
        }
    }

    /// True for input-forwarding messages, which only flow while the cursor is on a remote screen.
    pub fn is_input(&self) -> (input: bool)
        ensures
            input == self@.input(),
    {
        matches!(
            self,
            Message::KeyDown { .. }
                | Message::KeyUp { .. }
                | Message::KeyRepeat { .. }
                | Message::MouseDown { .. }
                | Message::MouseUp { .. }
                | Message::MouseMove { .. }
                | Message::MouseRelMove { .. }
                | Message::MouseWheel { .. }
        )
    }
}

fn decode_greeting(payload: &[u8]) -> (r: Result<Message>)
    requires
        is_greeting(payload@),
    ensures
        match greeting(payload@) {
            Decoding::Decoded(v) => r matches Ok(m) && m@ == v,
            Decoding::Unknown(_) => false,
            Decoding::Failed(e) => r == Err::<Message, ProtoError>(e),
        },
{
    proof {
        reveal_with_fuel(field::read_fields, 3);
    }
    let mut r = Reader::new(payload);
    r.fixed(7)?;
    let major = r.i16()?;
    let minor = r.i16()?;
    if r.is_empty() {
        Ok(Message::Hello { major, minor })
    } else {
        Ok(Message::HelloBack { major, minor, name: r.string()? })
    }
}

/// Whether `res` is what the fields in `input` behind the opcode `op` decode to.
pub open spec fn decodes_to(op: Opcode, input: Seq<u8>, res: Result<Message>) -> bool {
    match field::read_fields(layout(op), Seq::empty(), input).0 {
        Ok(fields) => res matches Ok(m) && m@ == build(op, fields),
        Err(e) => res == Err::<Message, ProtoError>(e),
    }
}

fn decode_fields(op: Opcode, r: &mut Reader) -> (res: Result<Message>)
    ensures
        decodes_to(op, old(r).rest(), res),
{
    match op {
        Opcode::QueryInfo => Ok(Message::QueryInfo),
        Opcode::DeviceInfo => decode_device_info(r),
        Opcode::InfoAck => Ok(Message::InfoAck),
        Opcode::ResetOptions => Ok(Message::ResetOptions),
        Opcode::SetOptions => decode_set_options(r),
        Opcode::KeepAlive => Ok(Message::KeepAlive),
        Opcode::NoOp => Ok(Message::NoOp),
        Opcode::Close => Ok(Message::Close),
        Opcode::ScreenSaver => decode_screen_saver(r),
        Opcode::Enter => decode_enter(r),
        Opcode::Leave => Ok(Message::Leave),
        Opcode::KeyDown => decode_key_down(r),
        Opcode::KeyUp => decode_key_up(r),
        Opcode::KeyRepeat => decode_key_repeat(r),
        Opcode::MouseDown => decode_mouse_down(r),
        Opcode::MouseUp => decode_mouse_up(r),
        Opcode::MouseMove => decode_mouse_move(r),
        Opcode::MouseRelMove => decode_mouse_rel_move(r),
        Opcode::MouseWheel => decode_mouse_wheel(r),
        Opcode::ClipboardGrab => decode_clipboard_grab(r),
        Opcode::ClipboardData => decode_clipboard_data(r),
        Opcode::FileOffer => decode_file_offer(r),
        Opcode::FileChunk => decode_file_chunk(r),
        Opcode::FileEnd => decode_file_end(r),
        Opcode::FileAccept => decode_file_accept(r),
        Opcode::ErrIncompatible => decode_err_incompatible(r),
        Opcode::ErrBusy => Ok(Message::ErrBusy),
        Opcode::ErrUnknown => Ok(Message::ErrUnknown),
        Opcode::ErrBad => Ok(Message::ErrBad),
    }
}

fn decode_device_info(r: &mut Reader) -> (res: Result<Message>)
    ensures
        decodes_to(Opcode::DeviceInfo, old(r).rest(), res),
{
    proof {
        reveal_with_fuel(field::read_fields, 8);
    }
    Ok(
        Message::DeviceInfo {
            x: r.i16()?,
            y: r.i16()?,
            w: r.i16()?,
            h: r.i16()?,
            warp: r.i16()?,
            mx: r.i16()?,
            my: r.i16()?,
        },
    )
}

fn decode_set_options(r: &mut Reader) -> (res: Result<Message>)
    ensures
        decodes_to(Opcode::SetOptions, old(r).rest(), res),
{
    proof {
        reveal_with_fuel(field::read_fields, 2);
    }
    Ok(Message::SetOptions { opts: r.i32_vec()? })
}

fn decode_screen_saver(r: &mut Reader) -> (res: Result<Message>)
    ensures
        decodes_to(Opcode::ScreenSaver, old(r).rest(), res),
{
    proof {
        reveal_with_fuel(field::read_fields, 2);
    }
    Ok(Message::ScreenSaver { on: r.u8()? != 0 })
}

fn decode_enter(r: &mut Reader) -> (res: Result<Message>)
    ensures
        decodes_to(Opcode::Enter, old(r).rest(), res),
{
    proof {
        reveal_with_fuel(field::read_fields, 5);
    }
    Ok(Message::Enter { x: r.i16()?, y: r.i16()?, seq: r.u32()?, modifiers: r.u16()? })
}

fn decode_key_down(r: &mut Reader) -> (res: Result<Message>)
    ensures
        decodes_to(Opcode::KeyDown, old(r).rest(), res),
{
    proof {
        reveal_with_fuel(field::read_fields, 4);
    }
    Ok(Message::KeyDown { id: r.u16()?, mask: r.u16()?, button: r.u16()? })
}

fn decode_key_up(r: &mut Reader) -> (res: Result<Message>)
    ensures
        decodes_to(Opcode::KeyUp, old(r).rest(), res),
{
    proof {
        reveal_with_fuel(field::read_fields, 4);
    }
    Ok(Message::KeyUp { id: r.u16()?, mask: r.u16()?, button: r.u16()? })
}

fn decode_key_repeat(r: &mut Reader) -> (res: Result<Message>)
    ensures
        decodes_to(Opcode::KeyRepeat, old(r).rest(), res),
{
    proof {
        reveal_with_fuel(field::read_fields, 5);
    }
    Ok(Message::KeyRepeat { id: r.u16()?, mask: r.u16()?, count: r.u16()?, button: r.u16()? })
}

fn decode_mouse_down(r: &mut Reader) -> (res: Result<Message>)
    ensures
        decodes_to(Opcode::MouseDown, old(r).rest(), res),
{
    proof {
        reveal_with_fuel(field::read_fields, 2);
    }
    Ok(Message::MouseDown { button: r.i8()? })
}

fn decode_mouse_up(r: &mut Reader) -> (res: Result<Message>)
    ensures
        decodes_to(Opcode::MouseUp, old(r).rest(), res),
{
    proof {
        reveal_with_fuel(field::read_fields, 2);
    }
    Ok(Message::MouseUp { button: r.i8()? })
}

fn decode_mouse_move(r: &mut Reader) -> (res: Result<Message>)
    ensures
        decodes_to(Opcode::MouseMove, old(r).rest(), res),
{
    proof {
        reveal_with_fuel(field::read_fields, 3);
    }
    Ok(Message::MouseMove { x: r.i16()?, y: r.i16()? })
}

fn decode_mouse_rel_move(r: &mut Reader) -> (res: Result<Message>)
    ensures
        decodes_to(Opcode::MouseRelMove, old(r).rest(), res),
{
    proof {
        reveal_with_fuel(field::read_fields, 3);
    }
    Ok(Message::MouseRelMove { dx: r.i16()?, dy: r.i16()? })
}

fn decode_mouse_wheel(r: &mut Reader) -> (res: Result<Message>)
    ensures
        decodes_to(Opcode::MouseWheel, old(r).rest(), res),
{
    proof {
        reveal_with_fuel(field::read_fields, 3);
    }
    Ok(Message::MouseWheel { x: r.i16()?, y: r.i16()? })
}

fn decode_clipboard_grab(r: &mut Reader) -> (res: Result<Message>)
    ensures
        decodes_to(Opcode::ClipboardGrab, old(r).rest(), res),
{
    proof {
        reveal_with_fuel(field::read_fields, 3);
    }
    Ok(Message::ClipboardGrab { id: r.i8()?, seq: r.u32()? })
}

fn decode_clipboard_data(r: &mut Reader) -> (res: Result<Message>)
    ensures
        decodes_to(Opcode::ClipboardData, old(r).rest(), res),
{
    proof {
        reveal_with_fuel(field::read_fields, 5);
    }
    Ok(Message::ClipboardData { id: r.i8()?, seq: r.u32()?, mark: r.i8()?, data: r.bytes()? })
}

fn decode_file_offer(r: &mut Reader) -> (res: Result<Message>)
    ensures
        decodes_to(Opcode::FileOffer, old(r).rest(), res),
{
    proof {
        reveal_with_fuel(field::read_fields, 4);
    }
    Ok(Message::FileOffer { id: r.u32()?, name: r.string()?, size: r.u64()? })
}

fn decode_file_chunk(r: &mut Reader) -> (res: Result<Message>)
    ensures
        decodes_to(Opcode::FileChunk, old(r).rest(), res),
{
    proof {
        reveal_with_fuel(field::read_fields, 4);
    }
    Ok(Message::FileChunk { id: r.u32()?, seq: r.u32()?, data: r.bytes()? })
}

fn decode_file_end(r: &mut Reader) -> (res: Result<Message>)
    ensures
        decodes_to(Opcode::FileEnd, old(r).rest(), res),
{
    proof {
        reveal_with_fuel(field::read_fields, 3);
    }
    Ok(Message::FileEnd { id: r.u32()?, count: r.u32()? })
}

fn decode_file_accept(r: &mut Reader) -> (res: Result<Message>)
    ensures
        decodes_to(Opcode::FileAccept, old(r).rest(), res),
{
    proof {
        reveal_with_fuel(field::read_fields, 3);
    }
    Ok(Message::FileAccept { id: r.u32()?, accept: r.u8()? != 0 })
}

fn decode_err_incompatible(r: &mut Reader) -> (res: Result<Message>)
    ensures
        decodes_to(Opcode::ErrIncompatible, old(r).rest(), res),
{
    proof {
        reveal_with_fuel(field::read_fields, 3);
    }
    Ok(Message::ErrIncompatible { major: r.i16()?, minor: r.i16()? })
}

fn key_msg(op: Opcode, id: KeyId, mask: KeyModifierMask, button: KeyButton) -> (payload: Vec<u8>)
    ensures
        payload@ == field::written(
            wire::be_wire(op.word() as nat, 4),
            seq![num(2, id as nat), num(2, mask as nat), num(2, button as nat)],
            3,
        ),
{
    proof {
        reveal_with_fuel(field::written, 4);
    }
    let mut w = Writer::with_code(&op.code());
    w.u16(id).u16(mask).u16(button);
    w.into_vec()
}

fn xy_msg(op: Opcode, x: i16, y: i16) -> (payload: Vec<u8>)
    ensures
        payload@ == field::written(
            wire::be_wire(op.word() as nat, 4),
            seq![num(2, wire::bits16(x)), num(2, wire::bits16(y))],
            2,
        ),
{
    proof {
        reveal_with_fuel(field::written, 3);
    }
    let mut w = Writer::with_code(&op.code());
    w.i16(x).i16(y);
    w.into_vec()
}

proof fn lemma_greeting_roundtrip(m: MessageView)
    requires
        m.fits(),
        m.opcode() is None,
    ensures
        decoding(m.wire()) == Decoding::Decoded(m),
{
    let fields = m.fields();
    let body = field::fields_wire(fields, 0);
    field::lemma_written(m.head(), fields);
    assert(m.wire().take(7) =~= HELLO_MAGIC@);
    assert(m.wire().skip(7) =~= body);
    let after_major = field::fields_wire(fields, 1);
    let after_minor = field::fields_wire(fields, 2);
    assert(fields[0].fits() && fields[1].fits());
    field::lemma_field_roundtrip(fields[0], after_major);
    field::lemma_field_roundtrip(fields[1], after_minor);
    reveal_with_fuel(field::read_fields, 3);
    reveal_with_fuel(field::fields_wire, 2);
    match m {
        MessageView::HelloBack { name, .. } => {
            assert(fields[2].fits());
            field::lemma_field_roundtrip(fields[2], Seq::empty());
            assert(after_minor =~= fields[2].wire() + Seq::<u8>::empty());
            wire::lemma_be_wire_len(encode_utf8(name).len(), 4);
            assert(after_minor.len() > 0);
        },
        _ => {
            assert(after_minor.len() == 0);
        },
    }
}

#[verifier::rlimit(100)]
#[verifier::spinoff_prover]
pub(crate) proof fn lemma_layout_and_build(m: MessageView, op: Opcode)
    requires
        m.opcode() == Some(op),
    ensures
        field::kinds_of(m.fields()) == layout(op),
        build(op, m.fields()) == m,
{
    assert(field::kinds_of(m.fields()) =~= layout(op));
}

/// Bytes behind the last field of an opcode message do not matter.
pub proof fn lemma_trailing_bytes_are_ignored(m: MessageView, tail: Seq<u8>)
    requires
        m.fits(),
        m.opcode() is Some,
    ensures
        decoding(m.wire() + tail) == Decoding::Decoded(m),
{
    let op = m.opcode()->0;
    let fields = m.fields();
    let body = field::fields_wire(fields, 0) + tail;
    field::lemma_written(m.head(), fields);
    assert(m.wire() + tail =~= m.head() + body);
    field::lemma_fields_roundtrip(fields, 0, tail);
    assert(fields.take(0) =~= Seq::empty());
    lemma_opcode_is_no_greeting(op, body);
    op.lemma_distinct();
    lemma_layout_and_build(m, op);
}

/// Decoding an encoded message gives the message back.
pub proof fn lemma_roundtrip(m: MessageView)
    requires
        m.fits(),
    ensures
        decoding(m.wire()) == Decoding::Decoded(m),
{
    match m.opcode() {
        Some(_) => {
            lemma_trailing_bytes_are_ignored(m, Seq::empty());
            assert(m.wire() + Seq::<u8>::empty() =~= m.wire());
        },
        None => lemma_greeting_roundtrip(m),
    }
}

pub(crate) proof fn lemma_opcode_is_no_greeting(op: Opcode, body: Seq<u8>)
    ensures
        !is_greeting(wire::be_wire(op.word() as nat, 4) + body),
        wire::read_number(4, wire::be_wire(op.word() as nat, 4) + body) == (
            Ok::<nat, ProtoError>(op.word() as nat),
            body,
        ),
{
    let head = wire::be_wire(op.word() as nat, 4);
    let payload = head + body;
    wire::lemma_be_wire_4(op.word() as nat);
    wire::lemma_widths();
    wire::lemma_be_roundtrip(op.word() as nat, 4);
    assert(payload.take(4) =~= head);
    assert(payload.skip(4) =~= body);
    assert(payload[0] != 0x53);
    if payload.len() >= 7 {
        assert(payload.take(7)[0] != HELLO_MAGIC@[0]);
    }
}

} // verus!

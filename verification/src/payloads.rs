//! The payloads of the protocol, written out byte by byte.

use crate::error::ProtoError;
use crate::field::Field;
use crate::message;
use crate::message::{Decoding, Message, MessageView};
use crate::opcode::Opcode;
use crate::transport;
use crate::transport::NetError;
use crate::{bulk, codec, field, file_transfer, wire};
use vstd::prelude::*;
use vstd::utf8::*;

verus! {

/// A number in one byte. A negative one is in two's complement.
pub open spec fn one_byte(v: int) -> Seq<u8> {
    seq![(v % 256) as u8]
}

/// A number in two bytes, the greater first. A negative one is in two's complement.
pub open spec fn two_bytes(v: int) -> Seq<u8> {
    seq![(v / 256 % 256) as u8, (v % 256) as u8]
}

/// A number in four bytes, the greatest first. A negative one is in two's complement.
pub open spec fn four_bytes(v: int) -> Seq<u8> {
    seq![
        (v / 0x100_0000 % 256) as u8,
        (v / 0x1_0000 % 256) as u8,
        (v / 0x100 % 256) as u8,
        (v % 256) as u8,
    ]
}

/// A number in eight bytes, the greatest first.
pub open spec fn eight_bytes(v: int) -> Seq<u8> {
    four_bytes(v / 0x1_0000_0000) + four_bytes(v)
}

/// Some bytes behind their number in four bytes.
pub open spec fn counted(bytes: Seq<u8>) -> Seq<u8> {
    four_bytes(bytes.len() as int) + bytes
}

/// Some numbers, each in four bytes, behind how many they are.
pub open spec fn numbers(ints: Seq<i32>) -> Seq<u8> {
    four_bytes(ints.len() as int) + Seq::new(
        4 * ints.len(),
        |i: int| four_bytes(ints[i / 4] as int)[i % 4],
    )
}

/// Four ASCII letters.
pub open spec fn letters(a: char, b: char, c: char, d: char) -> Seq<u8> {
    seq![a as u8, b as u8, c as u8, d as u8]
}

/// The letters that open the greetings.
pub open spec fn greeting_letters() -> Seq<u8> {
    letters('S', 'e', 'l', 'f') + seq!['K' as u8, 'V' as u8, 'M' as u8]
}

/// The payload of a message: its letters, and what it holds in a fixed order.
pub open spec fn payload(m: MessageView) -> Seq<u8> {
    match m {
        MessageView::Hello { major, minor } => greeting_letters() + two_bytes(major as int)
            + two_bytes(minor as int),
        MessageView::HelloBack { major, minor, name } => greeting_letters() + two_bytes(
            major as int,
        ) + two_bytes(minor as int) + counted(encode_utf8(name)),
        MessageView::QueryInfo => letters('Q', 'I', 'N', 'F'),
        MessageView::DeviceInfo { x, y, w, h, warp, mx, my } => {
            letters('D', 'I', 'N', 'F')
                + two_bytes(x as int)
                + two_bytes(y as int)
                + two_bytes(w as int)
                + two_bytes(h as int)
                + two_bytes(warp as int)
                + two_bytes(mx as int)
                + two_bytes(my as int)
        },
        MessageView::InfoAck => letters('C', 'I', 'A', 'K'),
        MessageView::ResetOptions => letters('C', 'R', 'O', 'P'),
        MessageView::SetOptions { opts } => letters('D', 'S', 'O', 'P') + numbers(opts),
        MessageView::KeepAlive => letters('C', 'A', 'L', 'V'),
        MessageView::NoOp => letters('C', 'N', 'O', 'P'),
        MessageView::Close => letters('C', 'B', 'Y', 'E'),
        MessageView::ScreenSaver { on } => {
            letters('C', 'S', 'E', 'C')
                + one_byte(if on { 1int } else { 0 })
        },
        MessageView::Enter { x, y, seq, modifiers } => {
            letters('C', 'I', 'N', 'N')
                + two_bytes(x as int)
                + two_bytes(y as int)
                + four_bytes(seq as int)
                + two_bytes(modifiers as int)
        },
        MessageView::Leave => letters('C', 'O', 'U', 'T'),
        MessageView::KeyDown { id, mask, button } => {
            letters('D', 'K', 'D', 'N')
                + two_bytes(id as int)
                + two_bytes(mask as int)
                + two_bytes(button as int)
        },
        MessageView::KeyUp { id, mask, button } => {
            letters('D', 'K', 'U', 'P')
                + two_bytes(id as int)
                + two_bytes(mask as int)
                + two_bytes(button as int)
        },
        MessageView::KeyRepeat { id, mask, count, button } => {
            letters('D', 'K', 'R', 'P')
                + two_bytes(id as int)
                + two_bytes(mask as int)
                + two_bytes(count as int)
                + two_bytes(button as int)
        },
        MessageView::MouseDown { button } => letters('D', 'M', 'D', 'N') + one_byte(button as int),
        MessageView::MouseUp { button } => letters('D', 'M', 'U', 'P') + one_byte(button as int),
        MessageView::MouseMove { x, y } => {
            letters('D', 'M', 'M', 'V')
                + two_bytes(x as int)
                + two_bytes(y as int)
        },
        MessageView::MouseRelMove { dx, dy } => {
            letters('D', 'M', 'R', 'M')
                + two_bytes(dx as int)
                + two_bytes(dy as int)
        },
        MessageView::MouseWheel { x, y } => {
            letters('D', 'M', 'W', 'M')
                + two_bytes(x as int)
                + two_bytes(y as int)
        },
        MessageView::ClipboardGrab { id, seq } => {
            letters('C', 'C', 'L', 'P')
                + one_byte(id as int)
                + four_bytes(seq as int)
        },
        MessageView::ClipboardData { id, seq, mark, data } => {
            letters('D', 'C', 'L', 'P')
                + one_byte(id as int)
                + four_bytes(seq as int)
                + one_byte(mark as int)
                + counted(data)
        },
        MessageView::FileOffer { id, name, size } => {
            letters('F', 'O', 'F', 'R')
                + four_bytes(id as int)
                + counted(encode_utf8(name))
                + eight_bytes(size as int)
        },
        MessageView::FileChunk { id, seq, data } => {
            letters('F', 'D', 'A', 'T')
                + four_bytes(id as int)
                + four_bytes(seq as int)
                + counted(data)
        },
        MessageView::FileEnd { id, count } => {
            letters('F', 'E', 'N', 'D')
                + four_bytes(id as int)
                + four_bytes(count as int)
        },
        MessageView::FileAccept { id, accept } => {
            letters('F', 'A', 'C', 'K')
                + four_bytes(id as int)
                + one_byte(if accept { 1int } else { 0 })
        },
        MessageView::ErrIncompatible { major, minor } => {
            letters('E', 'I', 'C', 'V')
                + two_bytes(major as int)
                + two_bytes(minor as int)
        },
        MessageView::ErrBusy => letters('E', 'B', 'S', 'Y'),
        MessageView::ErrUnknown => letters('E', 'U', 'N', 'K'),
        MessageView::ErrBad => letters('E', 'B', 'A', 'D'),
    }
}

proof fn lemma_eight(v: nat)
    ensures
        wire::be_wire(v, 8) == eight_bytes(v as int),
{
    reveal_with_fuel(wire::be_wire, 5);
    let high = v / 0x1_0000_0000;
    assert(v / 256 / 256 == v / 0x1_0000);
    assert(v / 256 / 256 / 256 == v / 0x100_0000);
    assert(v / 256 / 256 / 256 / 256 == high);
    wire::lemma_be_wire_4(high);
    assert(wire::be_wire(v, 8) =~= wire::be_wire(high, 4) + four_bytes(v as int));
}

#[verifier::spinoff_prover]
proof fn lemma_numbers(v: nat)
    ensures
        wire::be_wire(v, 1) == one_byte(v as int),
        wire::be_wire(v, 2) == two_bytes(v as int),
        wire::be_wire(v, 4) == four_bytes(v as int),
        wire::be_wire(v, 8) == eight_bytes(v as int),
{
    lemma_eight(v);
    wire::lemma_be_wire_4(v);
    reveal_with_fuel(wire::be_wire, 3);
    assert(wire::be_wire(v, 1) =~= one_byte(v as int));
    assert(wire::be_wire(v, 2) =~= two_bytes(v as int));
}

proof fn lemma_shifted(v: int)
    ensures
        one_byte(v + 0x100) == one_byte(v),
        two_bytes(v + 0x1_0000) == two_bytes(v),
        four_bytes(v + 0x1_0000_0000) == four_bytes(v),
{
    assert((v + 0x1_0000) / 0x100 == v / 0x100 + 0x100);
    assert((v + 0x1_0000_0000) / 0x100_0000 == v / 0x100_0000 + 0x100);
    assert((v + 0x1_0000_0000) / 0x1_0000 == v / 0x1_0000 + 0x1_0000);
    assert((v + 0x1_0000_0000) / 0x100 == v / 0x100 + 0x100_0000);
    assert(forall|q: int| #[trigger] ((q + 0x100) % 256) == q % 256);
    assert(forall|q: int| #[trigger] ((q + 0x1_0000) % 256) == q % 256);
    assert(forall|q: int| #[trigger] ((q + 0x100_0000) % 256) == q % 256);
    assert(forall|q: int| #[trigger] ((q + 0x1_0000_0000) % 256) == q % 256);
}

proof fn lemma_signed(a: i8, b: i16, c: i32)
    ensures
        wire::be_wire(wire::bits8(a), 1) == one_byte(a as int),
        wire::be_wire(wire::bits16(b), 2) == two_bytes(b as int),
        wire::be_wire(wire::bits32(c), 4) == four_bytes(c as int),
{
    lemma_numbers(wire::bits8(a));
    lemma_numbers(wire::bits16(b));
    lemma_numbers(wire::bits32(c));
    lemma_shifted(a as int);
    lemma_shifted(b as int);
    lemma_shifted(c as int);
}

proof fn lemma_body(ints: Seq<i32>)
    ensures
        wire::ints_wire(ints) == numbers(ints),
    decreases ints.len(),
{
    lemma_numbers(ints.len());
    if ints.len() == 0 {
        assert(wire::ints_wire(ints) =~= numbers(ints));
    } else {
        let front = ints.drop_last();
        let last = ints.last();
        lemma_body(front);
        lemma_numbers(front.len());
        lemma_signed(0, 0, last);
        let n = front.len() as int;
        let body = Seq::new(4 * ints.len(), |i: int| four_bytes(ints[i / 4] as int)[i % 4]);
        let earlier = Seq::new(4 * front.len(), |i: int| four_bytes(front[i / 4] as int)[i % 4]);
        assert(wire::ints_wire(front).skip(4) =~= wire::ints_body(front));
        assert(numbers(front).skip(4) =~= earlier);
        assert(body =~= earlier + four_bytes(last as int));
        assert(wire::ints_body(ints) =~= body);
    }
}

proof fn lemma_digits(v: int, a: int, b: int, c: int, d: int)
    requires
        0 <= a <= 255,
        0 <= b <= 255,
        0 <= c <= 255,
        0 <= d <= 255,
        v == a * 0x100_0000 + b * 0x1_0000 + c * 0x100 + d,
    ensures
        v / 0x100_0000 % 256 == a,
        v / 0x1_0000 % 256 == b,
        v / 0x100 % 256 == c,
        v % 256 == d,
{
    assert(v / 0x100 == a * 0x1_0000 + b * 0x100 + c);
    assert(v / 0x1_0000 == a * 0x100 + b);
    assert(v / 0x100_0000 == a);
}

proof fn lemma_spelled(word: u32, a: char, b: char, c: char, d: char)
    requires
        a as int <= 127,
        b as int <= 127,
        c as int <= 127,
        d as int <= 127,
        word == a as int * 0x100_0000 + b as int * 0x1_0000 + c as int * 0x100 + d as int,
    ensures
        wire::be_wire(word as nat, 4) == letters(a, b, c, d),
{
    wire::lemma_be_wire_4(word as nat);
    lemma_digits(word as int, a as int, b as int, c as int, d as int);
}

/// Every kind of message but the greetings has four letters of its own.
pub proof fn lemma_opcodes_are_spelled()
    ensures
        wire::be_wire(Opcode::QueryInfo.word() as nat, 4) == letters('Q', 'I', 'N', 'F'),
        wire::be_wire(Opcode::DeviceInfo.word() as nat, 4) == letters('D', 'I', 'N', 'F'),
        wire::be_wire(Opcode::InfoAck.word() as nat, 4) == letters('C', 'I', 'A', 'K'),
        wire::be_wire(Opcode::ResetOptions.word() as nat, 4) == letters('C', 'R', 'O', 'P'),
        wire::be_wire(Opcode::SetOptions.word() as nat, 4) == letters('D', 'S', 'O', 'P'),
        wire::be_wire(Opcode::KeepAlive.word() as nat, 4) == letters('C', 'A', 'L', 'V'),
        wire::be_wire(Opcode::NoOp.word() as nat, 4) == letters('C', 'N', 'O', 'P'),
        wire::be_wire(Opcode::Close.word() as nat, 4) == letters('C', 'B', 'Y', 'E'),
        wire::be_wire(Opcode::ScreenSaver.word() as nat, 4) == letters('C', 'S', 'E', 'C'),
        wire::be_wire(Opcode::Enter.word() as nat, 4) == letters('C', 'I', 'N', 'N'),
        wire::be_wire(Opcode::Leave.word() as nat, 4) == letters('C', 'O', 'U', 'T'),
        wire::be_wire(Opcode::KeyDown.word() as nat, 4) == letters('D', 'K', 'D', 'N'),
        wire::be_wire(Opcode::KeyUp.word() as nat, 4) == letters('D', 'K', 'U', 'P'),
        wire::be_wire(Opcode::KeyRepeat.word() as nat, 4) == letters('D', 'K', 'R', 'P'),
        wire::be_wire(Opcode::MouseDown.word() as nat, 4) == letters('D', 'M', 'D', 'N'),
        wire::be_wire(Opcode::MouseUp.word() as nat, 4) == letters('D', 'M', 'U', 'P'),
        wire::be_wire(Opcode::MouseMove.word() as nat, 4) == letters('D', 'M', 'M', 'V'),
        wire::be_wire(Opcode::MouseRelMove.word() as nat, 4) == letters('D', 'M', 'R', 'M'),
        wire::be_wire(Opcode::MouseWheel.word() as nat, 4) == letters('D', 'M', 'W', 'M'),
        wire::be_wire(Opcode::ClipboardGrab.word() as nat, 4) == letters('C', 'C', 'L', 'P'),
        wire::be_wire(Opcode::ClipboardData.word() as nat, 4) == letters('D', 'C', 'L', 'P'),
        wire::be_wire(Opcode::FileOffer.word() as nat, 4) == letters('F', 'O', 'F', 'R'),
        wire::be_wire(Opcode::FileChunk.word() as nat, 4) == letters('F', 'D', 'A', 'T'),
        wire::be_wire(Opcode::FileEnd.word() as nat, 4) == letters('F', 'E', 'N', 'D'),
        wire::be_wire(Opcode::FileAccept.word() as nat, 4) == letters('F', 'A', 'C', 'K'),
        wire::be_wire(Opcode::ErrIncompatible.word() as nat, 4) == letters('E', 'I', 'C', 'V'),
        wire::be_wire(Opcode::ErrBusy.word() as nat, 4) == letters('E', 'B', 'S', 'Y'),
        wire::be_wire(Opcode::ErrUnknown.word() as nat, 4) == letters('E', 'U', 'N', 'K'),
        wire::be_wire(Opcode::ErrBad.word() as nat, 4) == letters('E', 'B', 'A', 'D'),
{
    lemma_spelled(Opcode::QueryInfo.word(), 'Q', 'I', 'N', 'F');
    lemma_spelled(Opcode::DeviceInfo.word(), 'D', 'I', 'N', 'F');
    lemma_spelled(Opcode::InfoAck.word(), 'C', 'I', 'A', 'K');
    lemma_spelled(Opcode::ResetOptions.word(), 'C', 'R', 'O', 'P');
    lemma_spelled(Opcode::SetOptions.word(), 'D', 'S', 'O', 'P');
    lemma_spelled(Opcode::KeepAlive.word(), 'C', 'A', 'L', 'V');
    lemma_spelled(Opcode::NoOp.word(), 'C', 'N', 'O', 'P');
    lemma_spelled(Opcode::Close.word(), 'C', 'B', 'Y', 'E');
    lemma_spelled(Opcode::ScreenSaver.word(), 'C', 'S', 'E', 'C');
    lemma_spelled(Opcode::Enter.word(), 'C', 'I', 'N', 'N');
    lemma_spelled(Opcode::Leave.word(), 'C', 'O', 'U', 'T');
    lemma_spelled(Opcode::KeyDown.word(), 'D', 'K', 'D', 'N');
    lemma_spelled(Opcode::KeyUp.word(), 'D', 'K', 'U', 'P');
    lemma_spelled(Opcode::KeyRepeat.word(), 'D', 'K', 'R', 'P');
    lemma_spelled(Opcode::MouseDown.word(), 'D', 'M', 'D', 'N');
    lemma_spelled(Opcode::MouseUp.word(), 'D', 'M', 'U', 'P');
    lemma_spelled(Opcode::MouseMove.word(), 'D', 'M', 'M', 'V');
    lemma_spelled(Opcode::MouseRelMove.word(), 'D', 'M', 'R', 'M');
    lemma_spelled(Opcode::MouseWheel.word(), 'D', 'M', 'W', 'M');
    lemma_spelled(Opcode::ClipboardGrab.word(), 'C', 'C', 'L', 'P');
    lemma_spelled(Opcode::ClipboardData.word(), 'D', 'C', 'L', 'P');
    lemma_spelled(Opcode::FileOffer.word(), 'F', 'O', 'F', 'R');
    lemma_spelled(Opcode::FileChunk.word(), 'F', 'D', 'A', 'T');
    lemma_spelled(Opcode::FileEnd.word(), 'F', 'E', 'N', 'D');
    lemma_spelled(Opcode::FileAccept.word(), 'F', 'A', 'C', 'K');
    lemma_spelled(Opcode::ErrIncompatible.word(), 'E', 'I', 'C', 'V');
    lemma_spelled(Opcode::ErrBusy.word(), 'E', 'B', 'S', 'Y');
    lemma_spelled(Opcode::ErrUnknown.word(), 'E', 'U', 'N', 'K');
    lemma_spelled(Opcode::ErrBad.word(), 'E', 'B', 'A', 'D');
}

/// A message goes over the wire as its letters and what it holds, byte for byte.
#[verifier::spinoff_prover]
#[verifier::rlimit(100)]
pub proof fn lemma_payload_is_written_out(m: MessageView)
    ensures
        m.wire() == payload(m),
{
    reveal_with_fuel(field::written, 8);
    lemma_opcodes_are_spelled();
    match m {
        MessageView::Hello { major, minor } => {
            lemma_signed(0, major, 0);
            lemma_signed(0, minor, 0);
            assert(message::HELLO_MAGIC@ =~= greeting_letters());
        },
        MessageView::HelloBack { major, minor, name } => {
            lemma_signed(0, major, 0);
            lemma_signed(0, minor, 0);
            lemma_numbers(encode_utf8(name).len());
            assert(message::HELLO_MAGIC@ =~= greeting_letters());
        },
        MessageView::DeviceInfo { x, y, w, h, warp, mx, my } => {
            lemma_signed(0, x, 0);
            lemma_signed(0, y, 0);
            lemma_signed(0, w, 0);
            lemma_signed(0, h, 0);
            lemma_signed(0, warp, 0);
            lemma_signed(0, mx, 0);
            lemma_signed(0, my, 0);
        },
        MessageView::SetOptions { opts } => {
            lemma_body(opts);
        },
        MessageView::ScreenSaver { on } => {
            lemma_numbers(message::flag(on));
        },
        MessageView::Enter { x, y, seq, modifiers } => {
            lemma_signed(0, x, 0);
            lemma_signed(0, y, 0);
            lemma_numbers(seq as nat);
            lemma_numbers(modifiers as nat);
        },
        MessageView::KeyDown { id, mask, button } => {
            lemma_numbers(id as nat);
            lemma_numbers(mask as nat);
            lemma_numbers(button as nat);
        },
        MessageView::KeyUp { id, mask, button } => {
            lemma_numbers(id as nat);
            lemma_numbers(mask as nat);
            lemma_numbers(button as nat);
        },
        MessageView::KeyRepeat { id, mask, count, button } => {
            lemma_numbers(id as nat);
            lemma_numbers(mask as nat);
            lemma_numbers(count as nat);
            lemma_numbers(button as nat);
        },
        MessageView::MouseDown { button } => {
            lemma_signed(button, 0, 0);
        },
        MessageView::MouseUp { button } => {
            lemma_signed(button, 0, 0);
        },
        MessageView::MouseMove { x, y } => {
            lemma_signed(0, x, 0);
            lemma_signed(0, y, 0);
        },
        MessageView::MouseRelMove { dx, dy } => {
            lemma_signed(0, dx, 0);
            lemma_signed(0, dy, 0);
        },
        MessageView::MouseWheel { x, y } => {
            lemma_signed(0, x, 0);
            lemma_signed(0, y, 0);
        },
        MessageView::ClipboardGrab { id, seq } => {
            lemma_signed(id, 0, 0);
            lemma_numbers(seq as nat);
        },
        MessageView::ClipboardData { id, seq, mark, data } => {
            lemma_signed(id, 0, 0);
            lemma_numbers(seq as nat);
            lemma_signed(mark, 0, 0);
            lemma_numbers(data.len());
        },
        MessageView::FileOffer { id, name, size } => {
            lemma_numbers(id as nat);
            lemma_numbers(encode_utf8(name).len());
            lemma_numbers(size as nat);
        },
        MessageView::FileChunk { id, seq, data } => {
            lemma_numbers(id as nat);
            lemma_numbers(seq as nat);
            lemma_numbers(data.len());
        },
        MessageView::FileEnd { id, count } => {
            lemma_numbers(id as nat);
            lemma_numbers(count as nat);
        },
        MessageView::FileAccept { id, accept } => {
            lemma_numbers(id as nat);
            lemma_numbers(message::flag(accept));
        },
        MessageView::ErrIncompatible { major, minor } => {
            lemma_signed(0, major, 0);
            lemma_signed(0, minor, 0);
        },
        _ => {},
    }
}

/// A frame is the payload behind its length in four bytes, and frames follow each other without a
/// gap.
pub proof fn lemma_frames_are_written_out(first: MessageView, rest: Seq<MessageView>)
    ensures
        transport::frame_wire(first.wire()) == counted(payload(first)),
        transport::stream_wire(seq![first] + rest) == counted(payload(first))
            + transport::stream_wire(rest),
        transport::stream_wire(Seq::empty()).len() == 0,
{
    lemma_payload_is_written_out(first);
    lemma_numbers(first.wire().len());
    assert((seq![first] + rest).drop_first() =~= rest);
}

/// A message is within the limits of the protocol exactly if its texts and bytes are of at most
/// four mebibytes each, and its options at most as many numbers as that holds.
pub proof fn lemma_limits_are_four_mebibytes(m: MessageView)
    ensures
        m.fits() <==> match m {
            MessageView::HelloBack { name, .. } => encode_utf8(name).len() <= 4_194_304,
            MessageView::SetOptions { opts } => opts.len() <= 1_048_576,
            MessageView::ClipboardData { data, .. } => data.len() <= 4_194_304,
            MessageView::FileOffer { name, .. } => encode_utf8(name).len() <= 4_194_304,
            MessageView::FileChunk { data, .. } => data.len() <= 4_194_304,
            _ => true,
        },
{
    wire::lemma_widths();
    let fields = m.fields();
    if m.fits() {
        match m {
            MessageView::HelloBack { .. } => assert(fields[2].fits()),
            MessageView::SetOptions { .. } => assert(fields[0].fits()),
            MessageView::ClipboardData { .. } => assert(fields[3].fits()),
            MessageView::FileOffer { .. } => assert(fields[1].fits()),
            MessageView::FileChunk { .. } => assert(fields[2].fits()),
            _ => {},
        }
    }
}

/// What is written out is read back, and what stands behind it does not matter, but for the
/// greetings.
pub proof fn lemma_payload_is_read_back(m: MessageView, tail: Seq<u8>)
    requires
        m.fits(),
    ensures
        message::decoding(payload(m)) == Decoding::Decoded(m),
        !(m is Hello || m is HelloBack) ==> message::decoding(payload(m) + tail)
            == Decoding::Decoded(m),
{
    lemma_payload_is_written_out(m);
    message::lemma_roundtrip(m);
    if !(m is Hello || m is HelloBack) {
        message::lemma_trailing_bytes_are_ignored(m, tail);
    }
}

proof fn lemma_short_field(f: Field, k: int)
    requires
        f.fits(),
        0 <= k < f.wire().len(),
    ensures
        field::read_field(f.kind(), f.wire().take(k)).0 matches Err(e) && e is UnexpectedEof,
{
    let input = f.wire().take(k);
    wire::lemma_widths();
    match f {
        Field::Number { width, value } => {
            wire::lemma_be_wire_len(value, width);
        },
        Field::Ints(ints) => {
            let prefix = wire::be_wire(ints.len(), 4);
            wire::lemma_be_wire_len(ints.len(), 4);
            wire::lemma_be_roundtrip(ints.len(), 4);
            lemma_body(ints);
            assert(wire::ints_wire(ints).len() == 4 + 4 * ints.len());
            if k >= 4 {
                assert(input.take(4) =~= prefix);
            }
        },
        _ => {
            let bytes = match f {
                Field::Bytes(bytes) => bytes,
                Field::Text(text) => encode_utf8(text),
                _ => Seq::empty(),
            };
            let prefix = wire::be_wire(bytes.len(), 4);
            wire::lemma_be_wire_len(bytes.len(), 4);
            wire::lemma_be_roundtrip(bytes.len(), 4);
            if k >= 4 {
                assert(input.take(4) =~= prefix);
            }
        },
    }
}

proof fn lemma_short_fields(fields: Seq<Field>, from: int, k: int)
    requires
        field::all_fit(fields),
        0 <= from <= fields.len(),
        0 <= k < field::fields_wire(fields, from).len(),
    ensures
        field::read_fields(
            field::kinds_of(fields),
            fields.take(from),
            field::fields_wire(fields, from).take(k),
        ).0 matches Err(e) && e is UnexpectedEof,
    decreases fields.len() - from,
{
    let all = field::fields_wire(fields, from);
    let first = fields[from].wire();
    let later = field::fields_wire(fields, from + 1);
    assert(fields[from].fits());
    if k >= first.len() {
        let n = k - first.len();
        assert(all.take(k) =~= first + later.take(n));
        field::lemma_field_roundtrip(fields[from], later.take(n));
        assert(fields.take(from).push(fields[from]) =~= fields.take(from + 1));
        lemma_short_fields(fields, from + 1, n);
    } else {
        assert(all.take(k) =~= first.take(k));
        lemma_short_field(fields[from], k);
    }
}

/// A payload that ends too early is no message: whatever part of one comes, it is told that bytes
/// are missing.
pub proof fn lemma_short_payloads_are_refused(m: MessageView, k: int)
    requires
        m.fits(),
        !(m is Hello || m is HelloBack),
        0 <= k < payload(m).len(),
    ensures
        message::decoding(payload(m).take(k)) matches Decoding::Failed(e) && e is UnexpectedEof,
{
    let all = payload(m);
    let op = m.opcode()->0;
    let head = wire::be_wire(op.word() as nat, 4);
    let body = field::fields_wire(m.fields(), 0);
    lemma_payload_is_written_out(m);
    field::lemma_written(m.head(), m.fields());
    wire::lemma_be_wire_len(op.word() as nat, 4);
    if k < 4 {
        assert(!message::is_greeting(all.take(k)));
    } else {
        assert(all.take(k) =~= head + body.take(k - 4));
        message::lemma_opcode_is_no_greeting(op, body.take(k - 4));
        op.lemma_distinct();
        message::lemma_layout_and_build(m, op);
        assert(m.fields().take(0) =~= Seq::empty());
        lemma_short_fields(m.fields(), 0, k - 4);
    }
}

/// A payload of at least four bytes that opens with letters that no message has, and is no
/// greeting, is told to be unknown, with these letters.
pub proof fn lemma_unknown_letters_are_given_back(input: Seq<u8>)
    requires
        input.len() >= 4,
        input.len() < 7 || input.take(7) != greeting_letters(),
        forall|m: MessageView|
            !(m is Hello || m is HelloBack) ==> (#[trigger] payload(m)).take(4) != input.take(4),
    ensures
        message::decoding(input) == Decoding::Unknown(input.take(4)),
{
    assert(message::HELLO_MAGIC@ =~= greeting_letters());
    let word = wire::be_value(input.take(4));
    match Opcode::of_word(word) {
        Some(op) => {
            lemma_four_bytes_back(input.take(4));
            let m = message::build(op, Seq::empty());
            lemma_payload_is_written_out(m);
            field::lemma_written(m.head(), m.fields());
            wire::lemma_be_wire_len(op.word() as nat, 4);
            assert(payload(m).take(4) =~= wire::be_wire(op.word() as nat, 4));
        },
        None => {},
    }
}

proof fn lemma_four_bytes_back(bytes: Seq<u8>)
    requires
        bytes.len() == 4,
    ensures
        wire::be_wire(wire::be_value(bytes), 4) == bytes,
{
    reveal_with_fuel(wire::be_value, 5);
    let v = wire::be_value(bytes);
    assert(bytes.drop_last().drop_last().drop_last().drop_last() =~= Seq::empty());
    assert(bytes.drop_last().drop_last().drop_last().last() == bytes[0]);
    assert(bytes.drop_last().drop_last().last() == bytes[1]);
    assert(bytes.drop_last().last() == bytes[2]);
    assert(v == bytes[0] as int * 0x100_0000 + bytes[1] as int * 0x1_0000 + bytes[2] as int * 0x100
        + bytes[3] as int);
    lemma_digits(v as int, bytes[0] as int, bytes[1] as int, bytes[2] as int, bytes[3] as int);
    wire::lemma_be_wire_4(v);
    assert(wire::be_wire(v, 4) =~= bytes);
}

/// A number is read off the front in network byte order, and if bytes are missing it is told how
/// many were needed and how many were there, and none is consumed.
pub proof fn lemma_numbers_are_read(input: Seq<u8>)
    ensures
        ({
            let (r, rest) = wire::read_number(2, input);
            if input.len() < 2 {
                r == Err::<nat, ProtoError>(
                    ProtoError::UnexpectedEof { needed: 2, had: input.len() as usize },
                ) && rest == input
            } else {
                r matches Ok(v) && two_bytes(v as int) == input.take(2) && v <= 0xFFFF && rest
                    == input.skip(2)
            }
        }),
        ({
            let (r, rest) = wire::read_number(4, input);
            if input.len() < 4 {
                r == Err::<nat, ProtoError>(
                    ProtoError::UnexpectedEof { needed: 4, had: input.len() as usize },
                ) && rest == input
            } else {
                r matches Ok(v) && four_bytes(v as int) == input.take(4) && v <= 0xFFFF_FFFF && rest
                    == input.skip(4)
            }
        }),
{
    if input.len() >= 2 {
        let two = input.take(2);
        reveal_with_fuel(wire::be_value, 3);
        assert(two.drop_last().drop_last() =~= Seq::empty());
        assert(two.drop_last().last() == two[0]);
        assert(wire::be_value(two) == two[0] as int * 256 + two[1] as int);
        assert(two_bytes(wire::be_value(two) as int) =~= two);
    }
    if input.len() >= 4 {
        lemma_four_bytes_back(input.take(4));
        lemma_numbers(wire::be_value(input.take(4)));
        wire::lemma_be_value_bound(input.take(4));
        wire::lemma_widths();
    }
}

/// Counted bytes are read off the front, if there are as many as are announced and that is at most
/// four mebibytes. More than that is refused whether they are there or not, and if some are missing
/// it is told how many were needed and how many were there.
pub proof fn lemma_counted_bytes_are_read(n: u32, rest: Seq<u8>)
    ensures
        ({
            let (r, left) = wire::read_bytes(four_bytes(n as int) + rest);
            if n > 4_194_304 {
                r == Err::<Seq<u8>, ProtoError>(
                    ProtoError::TooLong { declared: n as usize, max: 4_194_304 },
                ) && left == rest
            } else if rest.len() < n {
                r == Err::<Seq<u8>, ProtoError>(
                    ProtoError::UnexpectedEof { needed: n as usize, had: rest.len() as usize },
                ) && left == rest
            } else {
                r == Ok::<Seq<u8>, ProtoError>(rest.take(n as int)) && left == rest.skip(n as int)
            }
        }),
        ({
            let (r, left) = wire::read_text(four_bytes(n as int) + rest);
            n <= 4_194_304 && n <= rest.len() ==> {
                &&& left == rest.skip(n as int)
                &&& valid_utf8(rest.take(n as int)) ==> r == Ok::<Seq<char>, ProtoError>(
                    decode_utf8(rest.take(n as int)),
                )
                &&& !valid_utf8(rest.take(n as int)) ==> r == Err::<Seq<char>, ProtoError>(
                    ProtoError::InvalidUtf8,
                )
            }
        }),
{
    lemma_count_is_read(n, rest);
}

proof fn lemma_count_is_read(n: u32, rest: Seq<u8>)
    ensures
        wire::read_number(4, four_bytes(n as int) + rest) == (
            Ok::<nat, ProtoError>(n as nat),
            rest,
        ),
{
    let input = four_bytes(n as int) + rest;
    lemma_numbers(n as nat);
    wire::lemma_widths();
    wire::lemma_be_roundtrip(n as nat, 4);
    assert(input.take(4) =~= four_bytes(n as int));
    assert(input.skip(4) =~= rest);
}

proof fn lemma_flag_is_read(b: u8)
    ensures
        wire::read_number(1, seq![b]) == (Ok::<nat, ProtoError>(b as nat), seq![b].skip(1)),
{
    let flag = seq![b];
    reveal_with_fuel(wire::be_value, 2);
    assert(flag.take(1).drop_last() =~= Seq::empty());
    assert(wire::be_value(flag.take(1)) == b);
}

/// A flag is set by every byte but zero.
#[verifier::spinoff_prover]
pub proof fn lemma_flags_are_read(id: u32, b: u8)
    ensures
        message::decoding(letters('F', 'A', 'C', 'K') + (four_bytes(id as int) + seq![b]))
            == Decoding::Decoded(MessageView::FileAccept { id, accept: b != 0 }),
        message::decoding(letters('C', 'S', 'E', 'C') + seq![b]) == Decoding::Decoded(
            MessageView::ScreenSaver { on: b != 0 },
        ),
{
    let flag = seq![b];
    let rest = four_bytes(id as int) + flag;
    lemma_spelled(Opcode::FileAccept.word(), 'F', 'A', 'C', 'K');
    lemma_spelled(Opcode::ScreenSaver.word(), 'C', 'S', 'E', 'C');
    message::lemma_opcode_is_no_greeting(Opcode::FileAccept, rest);
    message::lemma_opcode_is_no_greeting(Opcode::ScreenSaver, flag);
    Opcode::FileAccept.lemma_distinct();
    Opcode::ScreenSaver.lemma_distinct();
    lemma_count_is_read(id, flag);
    lemma_flag_is_read(b);
    reveal_with_fuel(field::read_fields, 3);
}

/// A greeting without a whole version is refused.
#[verifier::spinoff_prover]
pub proof fn lemma_short_greetings_are_refused(short: Seq<u8>)
    requires
        short.len() < 4,
    ensures
        message::decoding(greeting_letters() + short) matches Decoding::Failed(e)
            && e is UnexpectedEof,
{
    let hello = greeting_letters() + short;
    reveal_with_fuel(field::read_fields, 3);
    assert(message::HELLO_MAGIC@ =~= greeting_letters());
    assert(hello.take(7) =~= greeting_letters());
    assert(hello.skip(7) =~= short);
}

/// The numbers that both ends must agree on: the version and the ports, the limits of a frame, a
/// chunk and a file, and the times.
pub proof fn lemma_both_ends_agree()
    ensures
        message::PROTOCOL_MAJOR == 1,
        message::PROTOCOL_MINOR == 9,
        message::DEFAULT_PORT == 24_800,
        bulk::DEFAULT_FILE_PORT == 24_801,
        message::KEEP_ALIVE_SECS == 3,
        message::KEEP_ALIVES_UNTIL_DEATH == 3,
        transport::MAX_FRAME_LEN == 4_194_304,
        codec::MAX_FIELD_LEN == 4_194_304,
        file_transfer::MAX_CHUNK_SIZE == 4_193_280,
        file_transfer::DEFAULT_CHUNK_SIZE == 262_144,
        file_transfer::DEFAULT_MAX_FILE_SIZE == 10_737_418_240,
        bulk::MAX_CONCURRENT_TRANSFERS == 8,
        bulk::IDLE_TIMEOUT_SECS == 30,
{
}

/// Bytes are read off the front as they are, and numbers of any width too. If some are missing it
/// is told how many were needed and how many were there, and none is consumed.
pub proof fn lemma_missing_bytes_are_told(n: usize, input: Seq<u8>)
    ensures
        input.len() < n ==> {
            let missing = ProtoError::UnexpectedEof { needed: n, had: input.len() as usize };
            &&& wire::read_raw(n as nat, input) == (Err::<Seq<u8>, ProtoError>(missing), input)
            &&& wire::read_number(n as nat, input) == (Err::<nat, ProtoError>(missing), input)
        },
        input.len() >= n ==> {
            &&& wire::read_raw(n as nat, input) == (
                Ok::<Seq<u8>, ProtoError>(input.take(n as int)),
                input.skip(n as int),
            )
            &&& wire::read_number(n as nat, input).0 is Ok
            &&& wire::read_number(n as nat, input).1 == input.skip(n as int)
        },
{
}

/// Counted numbers are read off the front, four bytes each, if there are as many as are announced
/// and that is at most a quarter of four mebibytes. If some are missing, the whole ones among them
/// are consumed, and it is told how many bytes of the next one were there.
pub proof fn lemma_counted_numbers_are_read(n: u32, rest: Seq<u8>, i: int)
    ensures
        ({
            let (r, left) = wire::read_ints(four_bytes(n as int) + rest);
            let over = rest.len() % 4;
            if n > 1_048_576 {
                r == Err::<Seq<i32>, ProtoError>(
                    ProtoError::TooLong { declared: n as usize, max: 1_048_576 },
                ) && left == rest
            } else if rest.len() < 4 * n {
                r == Err::<Seq<i32>, ProtoError>(
                    ProtoError::UnexpectedEof { needed: 4, had: over as usize },
                ) && left == rest.skip(rest.len() - over)
            } else {
                &&& r matches Ok(ints)
                &&& ints.len() == n
                &&& 0 <= i < n ==> four_bytes(ints[i] as int) == rest.subrange(4 * i, 4 * i + 4)
                &&& left == rest.skip(4 * n)
            }
        }),
{
    lemma_count_is_read(n, rest);
    if n <= 1_048_576 && 4 * n <= rest.len() && 0 <= i < n {
        let bytes = rest.subrange(4 * i, 4 * i + 4);
        let v = wire::be_value(bytes);
        wire::lemma_be_value_bound(bytes);
        wire::lemma_widths();
        lemma_four_bytes_back(bytes);
        lemma_signed(0, 0, wire::signed32(v));
        assert(wire::bits32(wire::signed32(v)) == v);
    }
}

/// A greeting that goes on behind the version is the client's, and what follows is its name. If
/// that is at fault, so is the greeting, and nothing behind it matters.
#[verifier::spinoff_prover]
pub proof fn lemma_greetings_go_on_with_a_name(major: i16, minor: i16, tail: Seq<u8>)
    ensures
        ({
            let input = greeting_letters() + two_bytes(major as int) + two_bytes(minor as int)
                + tail;
            &&& tail.len() == 0 ==> message::decoding(input) == Decoding::Decoded(
                MessageView::Hello { major, minor },
            )
            &&& tail.len() > 0 ==> match wire::read_text(tail).0 {
                Ok(name) => message::decoding(input) == Decoding::Decoded(
                    MessageView::HelloBack { major, minor, name },
                ),
                Err(e) => message::decoding(input) == Decoding::Failed(e),
            }
        }),
{
    let (a, b) = (two_bytes(major as int), two_bytes(minor as int));
    let input = greeting_letters() + a + b + tail;
    assert(message::HELLO_MAGIC@ =~= greeting_letters());
    assert(input.take(7) =~= greeting_letters());
    assert(input.skip(7) =~= a + b + tail);
    assert((a + b + tail).take(2) =~= a);
    assert((a + b + tail).skip(2) =~= b + tail);
    assert((b + tail).take(2) =~= b);
    assert((b + tail).skip(2) =~= tail);
    lemma_signed(0, major, 0);
    lemma_signed(0, minor, 0);
    wire::lemma_widths();
    wire::lemma_be_roundtrip(wire::bits16(major), 2);
    wire::lemma_be_roundtrip(wire::bits16(minor), 2);
    reveal_with_fuel(field::read_fields, 3);
}

proof fn lemma_number_is_read(n: u8, rest: Seq<u8>)
    ensures
        wire::read_number(1, seq![n] + rest) == (Ok::<nat, ProtoError>(n as nat), rest),
{
    let input = seq![n] + rest;
    reveal_with_fuel(wire::be_value, 2);
    assert(input.take(1) =~= seq![n]);
    assert(seq![n].drop_last() =~= Seq::empty());
    assert(input.skip(1) =~= rest);
}

#[verifier::spinoff_prover]
proof fn lemma_offer_fault(id: u32, tail: Seq<u8>, e: ProtoError)
    ensures
        wire::read_ints(tail).0 == Err::<Seq<i32>, ProtoError>(e) ==> message::decoding(
            letters('D', 'S', 'O', 'P') + tail,
        ) == Decoding::Failed(e),
        wire::read_text(tail).0 == Err::<Seq<char>, ProtoError>(e) ==> message::decoding(
            letters('F', 'O', 'F', 'R') + (four_bytes(id as int) + tail),
        ) == Decoding::Failed(e),
{
    let offer = four_bytes(id as int) + tail;
    reveal_with_fuel(field::read_fields, 3);
    lemma_spelled(Opcode::SetOptions.word(), 'D', 'S', 'O', 'P');
    lemma_spelled(Opcode::FileOffer.word(), 'F', 'O', 'F', 'R');
    message::lemma_opcode_is_no_greeting(Opcode::SetOptions, tail);
    message::lemma_opcode_is_no_greeting(Opcode::FileOffer, offer);
    Opcode::SetOptions.lemma_distinct();
    Opcode::FileOffer.lemma_distinct();
    lemma_count_is_read(id, tail);
}

#[verifier::spinoff_prover]
proof fn lemma_chunk_fault(id: u32, seq: u32, tail: Seq<u8>, e: ProtoError)
    ensures
        wire::read_bytes(tail).0 == Err::<Seq<u8>, ProtoError>(e) ==> message::decoding(
            letters('F', 'D', 'A', 'T') + (four_bytes(id as int) + (four_bytes(seq as int) + tail)),
        ) == Decoding::Failed(e),
{
    let data = four_bytes(seq as int) + tail;
    let chunk = four_bytes(id as int) + data;
    reveal_with_fuel(field::read_fields, 4);
    lemma_spelled(Opcode::FileChunk.word(), 'F', 'D', 'A', 'T');
    message::lemma_opcode_is_no_greeting(Opcode::FileChunk, chunk);
    Opcode::FileChunk.lemma_distinct();
    lemma_count_is_read(seq, tail);
    lemma_count_is_read(id, data);
}

#[verifier::spinoff_prover]
proof fn lemma_clipboard_fault(clip: u8, seq: u32, mark: u8, tail: Seq<u8>, e: ProtoError)
    ensures
        wire::read_bytes(tail).0 == Err::<Seq<u8>, ProtoError>(e) ==> message::decoding(
            letters('D', 'C', 'L', 'P') + (seq![clip] + (four_bytes(seq as int) + (seq![mark]
                + tail))),
        ) == Decoding::Failed(e),
{
    let marked = seq![mark] + tail;
    let numbered = four_bytes(seq as int) + marked;
    let clipped = seq![clip] + numbered;
    let kinds = message::layout(Opcode::ClipboardData);
    lemma_spelled(Opcode::ClipboardData.word(), 'D', 'C', 'L', 'P');
    message::lemma_opcode_is_no_greeting(Opcode::ClipboardData, clipped);
    Opcode::ClipboardData.lemma_distinct();
    lemma_count_is_read(seq, marked);
    lemma_number_is_read(clip, numbered);
    lemma_number_is_read(mark, tail);
    let first = seq![Field::Number { width: 1, value: clip as nat }];
    let second = first.push(Field::Number { width: 4, value: seq as nat });
    let third = second.push(Field::Number { width: 1, value: mark as nat });
    assert(Seq::empty().push(first[0]) =~= first);
    assert(field::read_fields(kinds, Seq::empty(), clipped) == field::read_fields(
        kinds,
        first,
        numbered,
    ));
    assert(field::read_fields(kinds, first, numbered) == field::read_fields(kinds, second, marked));
    assert(field::read_fields(kinds, second, marked) == field::read_fields(kinds, third, tail));
}

/// A message is at fault where one of its texts, its bytes or its numbers is, and in the same way.
pub proof fn lemma_faults_are_passed_on(
    id: u32,
    seq: u32,
    clip: u8,
    mark: u8,
    tail: Seq<u8>,
    e: ProtoError,
)
    ensures
        wire::read_ints(tail).0 == Err::<Seq<i32>, ProtoError>(e) ==> message::decoding(
            letters('D', 'S', 'O', 'P') + tail,
        ) == Decoding::Failed(e),
        wire::read_text(tail).0 == Err::<Seq<char>, ProtoError>(e) ==> message::decoding(
            letters('F', 'O', 'F', 'R') + (four_bytes(id as int) + tail),
        ) == Decoding::Failed(e),
        wire::read_bytes(tail).0 == Err::<Seq<u8>, ProtoError>(e) ==> message::decoding(
            letters('F', 'D', 'A', 'T') + (four_bytes(id as int) + (four_bytes(seq as int) + tail)),
        ) == Decoding::Failed(e),
        wire::read_bytes(tail).0 == Err::<Seq<u8>, ProtoError>(e) ==> message::decoding(
            letters('D', 'C', 'L', 'P') + (seq![clip] + (four_bytes(seq as int) + (seq![mark]
                + tail))),
        ) == Decoding::Failed(e),
{
    lemma_offer_fault(id, tail, e);
    lemma_chunk_fault(id, seq, tail, e);
    lemma_clipboard_fault(clip, seq, mark, tail, e);
}

/// What comes over a connection is what was sent: the payload of a message within the limits gives
/// that message and no fault, and unknown letters are reported as they came.
pub proof fn lemma_payloads_are_handed_on(
    m: MessageView,
    input: Seq<u8>,
    r: Result<Message, NetError>,
)
    requires
        transport::payload_gives(input, r),
    ensures
        m.fits() && input == payload(m) ==> (r matches Ok(got) && got@ == m),
        match message::decoding(input) {
            Decoding::Decoded(v) => r is Ok && r->Ok_0@ == v,
            Decoding::Unknown(code) => r matches Err(NetError::Proto(ProtoError::UnknownCode(c)))
                && c@ == code,
            Decoding::Failed(e) => r matches Err(NetError::Proto(f)) && f == e,
        },
{
    if m.fits() {
        lemma_payload_is_read_back(m, Seq::empty());
    }
}

} // verus!

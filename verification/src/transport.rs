//! Length-framed transport for [`Message`].
//!
//! Every message is sent as a 4-byte big-endian payload length followed by the payload. The readers
//! and writers here own a stream of any kind and decide what its bytes mean; whoever holds them
//! moves the bytes.

use crate::error::ProtoError;
use crate::message;
use crate::message::{Decoding, Message, MessageView};
use crate::wire;
use vstd::prelude::*;

verus! {

/// Upper bound on a single frame's payload, the protocol's 4 MiB cap. A peer declaring a larger
/// frame is treated as hostile or desynced.
pub const MAX_FRAME_LEN: usize = 4 * 1024 * 1024;

#[derive(Debug, PartialEq, Eq)]
pub enum NetError {
    /// The connection was closed by the peer.
    Closed,
    /// A frame of this many bytes was announced.
    FrameTooLarge(usize),
    /// The payload is no message.
    Proto(ProtoError),
    /// The stream failed, with what it says.
    Io(String),
}

/// How an attempt to fill a buffer from the stream went.
#[derive(Debug, PartialEq, Eq)]
pub enum ReadOutcome {
    /// The buffer is full.
    Filled,
    /// The stream ended before the buffer was full.
    Eof,
    /// The stream failed, with what it says.
    Failed(String),
}

/// The frame around a payload.
pub open spec fn frame_wire(payload: Seq<u8>) -> Seq<u8> {
    wire::be_wire(payload.len(), 4) + payload
}

/// The length of the payload that a prefix announces, if it is within the cap.
pub open spec fn announced(prefix: Seq<u8>) -> Option<nat> {
    if wire::be_value(prefix) <= MAX_FRAME_LEN {
        Some(wire::be_value(prefix))
    } else {
        None
    }
}

/// A buffer cut or filled up with zeros to some length.
pub open spec fn resized(buf: Seq<u8>, len: nat) -> Seq<u8> {
    Seq::new(
        len,
        |i: int|
            if i < buf.len() {
                buf[i]
            } else {
                0u8
            },
    )
}

/// What a payload that has been read whole gives.
pub open spec fn payload_gives(payload: Seq<u8>, r: Result<Message, NetError>) -> bool {
    match message::decoding(payload) {
        Decoding::Decoded(v) => r matches Ok(m) && m@ == v,
        Decoding::Unknown(code) => r matches Err(NetError::Proto(ProtoError::UnknownCode(c))) && c@
            == code,
        Decoding::Failed(e) => r == Err::<Message, NetError>(NetError::Proto(e)),
    }
}

/// Read side of a framed connection.
pub struct FramedReader<R> {
    inner: R,
    buf: Vec<u8>,
}

impl<R> FramedReader<R> {
    /// The stream.
    pub closed spec fn stream(self) -> R {
        self.inner
    }

    /// The buffer that holds the payload.
    pub closed spec fn buffer(self) -> Seq<u8> {
        self.buf@
    }

    pub fn new(inner: R) -> (r: Self)
        ensures
            r.stream() == inner,
            r.buffer().len() == 0,
    {
        Self { inner, buf: Vec::new() }
    }

    /// The stream and the buffer to be filled from it.
    pub fn parts(&mut self) -> (p: (&mut R, &mut Vec<u8>))
        ensures
            *p.0 == old(self).stream(),
            p.1@ == old(self).buffer(),
            final(self).stream() == *final(p.0),
            final(self).buffer() == final(p.1)@,
    {
        (&mut self.inner, &mut self.buf)
    }

    /// Takes the length prefix of the next frame, and makes room for its payload. An end of the
    /// stream here is a clean close.
    pub fn begin_frame(&mut self, outcome: ReadOutcome, prefix: [u8; 4]) -> (r: Result<
        usize,
        NetError,
    >)
        ensures
            final(self).stream() == old(self).stream(),
            match outcome {
                ReadOutcome::Eof => r == Err::<usize, NetError>(NetError::Closed) && *final(self)
                    == *old(self),
                ReadOutcome::Failed(e) => {
                    &&& r == Err::<usize, NetError>(NetError::Io(e))
                    &&& *final(self) == *old(self)
                },
                ReadOutcome::Filled => match announced(prefix@) {
                    Some(len) => r == Ok::<usize, NetError>(len as usize) && final(self).buffer()
                        == resized(old(self).buffer(), len),
                    None => r == Err::<usize, NetError>(
                        NetError::FrameTooLarge(wire::be_value(prefix@) as usize),
                    ) && *final(self) == *old(self),
                },
            },
    {
        match outcome {
            ReadOutcome::Eof => Err(NetError::Closed),
            ReadOutcome::Failed(e) => Err(NetError::Io(e)),
            ReadOutcome::Filled => {
                let len: usize = frame_len(&prefix);
                if len > MAX_FRAME_LEN {
                    return Err(NetError::FrameTooLarge(len));
                }
                self.buf.resize(len, 0);
                assert(self.buf@ =~= resized(old(self).buf@, len as nat));
                Ok(len)
            },
        }
    }

    /// Takes the payload that the buffer holds.
    pub fn end_frame(&self, outcome: ReadOutcome) -> (r: Result<Message, NetError>)
        ensures
            match outcome {
                ReadOutcome::Eof => r == Err::<Message, NetError>(NetError::Closed),
                ReadOutcome::Failed(e) => r == Err::<Message, NetError>(NetError::Io(e)),
                ReadOutcome::Filled => payload_gives(self.buffer(), r),
            },
    {
        match outcome {
            ReadOutcome::Eof => Err(NetError::Closed),
            ReadOutcome::Failed(e) => Err(NetError::Io(e)),
            ReadOutcome::Filled => match Message::decode(self.buf.as_slice()) {
                Ok(msg) => Ok(msg),
                Err(e) => Err(NetError::Proto(e)),
            },
        }
    }
}

/// The length that a prefix announces.
fn frame_len(prefix: &[u8; 4]) -> (len: usize)
    ensures
        len == wire::be_value(prefix@),
{
    proof {
        reveal_with_fuel(wire::be_value, 5);
        assert(prefix@.drop_last().drop_last().drop_last().drop_last() =~= Seq::<u8>::empty());
    }
    let high: u32 = prefix[0] as u32 * 256 + prefix[1] as u32;
    let low: u32 = prefix[2] as u32 * 256 + prefix[3] as u32;
    (high * 0x1_0000 + low) as usize
}

/// Write side of a framed connection.
pub struct FramedWriter<W> {
    inner: W,
}

impl<W> FramedWriter<W> {
    /// The stream.
    pub closed spec fn stream(self) -> W {
        self.inner
    }

    pub fn new(inner: W) -> (w: Self)
        ensures
            w.stream() == inner,
    {
        Self { inner }
    }

    /// The stream, to be written to.
    pub fn stream_mut(&mut self) -> (w: &mut W)
        ensures
            *w == old(self).stream(),
            final(self).stream() == *final(w),
    {
        &mut self.inner
    }
}

/// The frame of a message, prefix and payload in one buffer. The prefix holds the low 32 bits of
/// the payload length.
pub fn frame(msg: &Message) -> (bytes: Vec<u8>)
    ensures
        bytes@ == frame_wire(msg@.wire()),
{
    let payload = msg.encode();
    let len: u64 = payload.len() as u64;
    proof {
        wire::lemma_be_wire_4(len as nat);
    }
    let mut bytes: Vec<u8> = vec![
        (len / 0x100_0000 % 256) as u8,
        (len / 0x1_0000 % 256) as u8,
        (len / 0x100 % 256) as u8,
        (len % 256) as u8,
    ];
    assert(bytes@ =~= wire::be_wire(payload@.len(), 4));
    bytes.extend_from_slice(payload.as_slice());
    assert(bytes@ =~= frame_wire(payload@));
    bytes
}

/// What reading one frame off the front of some bytes gives, and what is left. There is nothing if
/// the bytes end within the frame or it is too large.
pub open spec fn read_frame(input: Seq<u8>) -> Option<(Decoding, Seq<u8>)> {
    if input.len() < 4 {
        None
    } else {
        let len = wire::be_value(input.take(4));
        let rest = input.skip(4);
        if len > MAX_FRAME_LEN || rest.len() < len {
            None
        } else {
            Some((message::decoding(rest.take(len as int)), rest.skip(len as int)))
        }
    }
}

/// The frames of some messages, one after the other.
pub open spec fn stream_wire(msgs: Seq<MessageView>) -> Seq<u8>
    decreases msgs.len(),
{
    if msgs.len() == 0 {
        Seq::empty()
    } else {
        frame_wire(msgs[0].wire()) + stream_wire(msgs.drop_first())
    }
}

/// Whether reading frame after frame off some bytes gives these messages and leaves nothing.
pub open spec fn reads_as(input: Seq<u8>, msgs: Seq<MessageView>) -> bool
    decreases msgs.len(),
{
    if msgs.len() == 0 {
        input.len() == 0
    } else {
        read_frame(input) matches Some((got, rest)) && got == Decoding::Decoded(msgs[0])
            && reads_as(rest, msgs.drop_first())
    }
}

/// A message within the limits is read back from its frame, and nothing more is consumed.
pub proof fn lemma_frame_roundtrip(m: MessageView, tail: Seq<u8>)
    requires
        m.fits(),
        m.wire().len() <= MAX_FRAME_LEN,
    ensures
        read_frame(frame_wire(m.wire()) + tail) == Some((Decoding::Decoded(m), tail)),
{
    let payload = m.wire();
    let prefix = wire::be_wire(payload.len(), 4);
    let input = frame_wire(payload) + tail;
    wire::lemma_be_wire_len(payload.len(), 4);
    wire::lemma_widths();
    wire::lemma_be_roundtrip(payload.len(), 4);
    message::lemma_roundtrip(m);
    assert(input.take(4) =~= prefix);
    assert(input.skip(4).take(payload.len() as int) =~= payload);
    assert(input.skip(4).skip(payload.len() as int) =~= tail);
}

/// Messages within the limits that are written one after the other are read back in that order.
pub proof fn lemma_stream_roundtrip(msgs: Seq<MessageView>)
    requires
        forall|i: int|
            0 <= i < msgs.len() ==> (#[trigger] msgs[i]).fits() && msgs[i].wire().len()
                <= MAX_FRAME_LEN,
    ensures
        reads_as(stream_wire(msgs), msgs),
    decreases msgs.len(),
{
    if msgs.len() > 0 {
        let later = msgs.drop_first();
        assert forall|i: int| 0 <= i < later.len() implies (#[trigger] later[i]).fits()
            && later[i].wire().len() <= MAX_FRAME_LEN by {
            assert(later[i] == msgs[i + 1]);
        }
        lemma_stream_roundtrip(later);
        lemma_frame_roundtrip(msgs[0], stream_wire(later));
    }
}

/// A frame may be of up to four mebibytes, and no more. The buffer has as many bytes as are
/// announced, and what was in it stays as far as there is room.
pub proof fn lemma_frames_are_capped(prefix: Seq<u8>, buf: Seq<u8>, len: nat, i: int)
    requires
        prefix.len() == 4,
    ensures
        ({
            let n = prefix[0] * 0x100_0000 + prefix[1] * 0x1_0000 + prefix[2] * 0x100 + prefix[3];
            &&& wire::be_value(prefix) == n
            &&& n <= 4_194_304 ==> announced(prefix) == Some(n as nat)
            &&& n > 4_194_304 ==> announced(prefix) is None
        }),
        resized(buf, len).len() == len,
        0 <= i < len && i < buf.len() ==> resized(buf, len)[i] == buf[i],
        0 <= i < len && i >= buf.len() ==> resized(buf, len)[i] == 0,
{
    reveal_with_fuel(wire::be_value, 5);
    assert(prefix.drop_last().drop_last().drop_last().drop_last() =~= Seq::<u8>::empty());
    assert(prefix.drop_last().drop_last().drop_last().last() == prefix[0]);
    assert(prefix.drop_last().drop_last().last() == prefix[1]);
    assert(prefix.drop_last().last() == prefix[2]);
}

} // verus!

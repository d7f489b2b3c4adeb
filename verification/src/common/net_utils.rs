//! Framing of control messages: a big-endian `u32` length, then the payload.
use crate::common::consts::{MAX_CONTROL_MESSAGE, MESSAGE_LENGTH_SIZE_BYTES};
use crate::common::control::NetperfError;
use bytes::Buf;
use bytes::BufMut;
use bytes::BytesMut;
use vstd::prelude::*;
use vstd::slice::slice_to_vec;

verus! {

/// The growable byte buffer of the `bytes` crate.
#[verifier::external_type_specification]
#[verifier::external_body]
pub struct ExBytesMut(BytesMut);

/// The bytes that a `BytesMut` holds, in order.
pub uninterp spec fn bytes_mut_contents(b: BytesMut) -> Seq<u8>;

/// The four bytes of `n`, most significant first.
pub open spec fn u32_be_bytes(n: u32) -> Seq<u8> {
    seq![
        (n / 0x100_0000) as u8,
        ((n / 0x1_0000) % 0x100) as u8,
        ((n / 0x100) % 0x100) as u8,
        (n % 0x100) as u8,
    ]
}

/// The number that four bytes denote, most significant first.
pub open spec fn u32_from_be_bytes(b: Seq<u8>) -> int
    recommends
        b.len() == 4,
{
    b[0] * 0x100_0000 + b[1] * 0x1_0000 + b[2] * 0x100 + b[3]
}

/// A whole control frame for `payload`.
pub open spec fn spec_frame(payload: Seq<u8>) -> Seq<u8> {
    u32_be_bytes(payload.len() as u32) + payload
}

/// `BytesMut::with_capacity`: an empty buffer.
#[verifier::external_body]
fn bytes_mut_with_capacity(capacity: usize) -> (b: BytesMut)
    requires
        capacity <= isize::MAX,
    ensures
        bytes_mut_contents(b) == Seq::<u8>::empty(),
{
    BytesMut::with_capacity(capacity)
}

/// `BufMut::put_u32` on a `BytesMut`: appends `n` in big-endian byte order.
#[verifier::external_body]
fn bytes_mut_put_u32(b: &mut BytesMut, n: u32)
    requires
        bytes_mut_contents(*old(b)).len() + 4 <= isize::MAX,
    ensures
        bytes_mut_contents(*final(b)) == bytes_mut_contents(*old(b)) + u32_be_bytes(n),
{
    b.put_u32(n)
}

/// `BufMut::put_slice` on a `BytesMut`: appends the bytes of `src`.
#[verifier::external_body]
fn bytes_mut_put_slice(b: &mut BytesMut, src: &[u8])
    requires
        bytes_mut_contents(*old(b)).len() + src@.len() <= isize::MAX,
    ensures
        bytes_mut_contents(*final(b)) == bytes_mut_contents(*old(b)) + src@,
{
    b.put_slice(src)
}

/// `Buf::chunk` on a `BytesMut`: all the bytes it holds.
#[verifier::external_body]
fn bytes_mut_chunk(b: &BytesMut) -> (r: &[u8])
    ensures
        r@ == bytes_mut_contents(*b),
{
    b.chunk()
}

/// `BytesMut::len`: how many bytes it holds.
#[verifier::external_body]
fn bytes_mut_len(b: &BytesMut) -> (n: usize)
    ensures
        n == bytes_mut_contents(*b).len(),
{
    b.len()
}

/// Frames a serialised control message: its length as a big-endian `u32`,
/// then the message itself.
pub fn encode_frame(payload: &[u8]) -> (frame: Vec<u8>)
    requires
        payload@.len() <= u32::MAX,
        payload@.len() + 4 <= isize::MAX,
    ensures
        frame@ == spec_frame(payload@),
{
    let len = payload.len();
    let mut buf = bytes_mut_with_capacity(MESSAGE_LENGTH_SIZE_BYTES + len);
    bytes_mut_put_u32(&mut buf, len as u32);
    bytes_mut_put_slice(&mut buf, payload);
    slice_to_vec(bytes_mut_chunk(&buf))
}

/// Reading a frame back gives its length and its payload.
pub proof fn lemma_frame_round_trip(payload: Seq<u8>)
    requires
        payload.len() <= u32::MAX,
    ensures
        spec_frame(payload).len() == payload.len() + 4,
        u32_from_be_bytes(spec_frame(payload).take(4)) == payload.len(),
        spec_frame(payload).skip(4) == payload,
{
    lemma_u32_be_round_trip(payload.len() as u32);
    assert(spec_frame(payload).take(4) =~= u32_be_bytes(payload.len() as u32));
    assert(spec_frame(payload).skip(4) =~= payload);
}

/// Decoding the big-endian bytes of a number gives the number back.
pub proof fn lemma_u32_be_round_trip(n: u32)
    ensures
        u32_be_bytes(n).len() == 4,
        u32_from_be_bytes(u32_be_bytes(n)) == n,
{
    let b = u32_be_bytes(n);
    assert(b[0] == n / 0x100_0000);
    assert(b[1] == (n / 0x1_0000) % 0x100);
    assert(b[2] == (n / 0x100) % 0x100);
    assert(b[3] == n % 0x100);
    assert((n / 0x100_0000) * 0x100_0000 + ((n / 0x1_0000) % 0x100) * 0x1_0000 + ((n / 0x100)
        % 0x100) * 0x100 + n % 0x100 == n) by (nonlinear_arith);
}

/// Collects the payload of one control frame as it arrives in pieces.
pub struct FrameReader {
    size: u32,
    remaining: u64,
    buf: BytesMut,
}

impl FrameReader {
    /// The bytes received and the bytes still to come add up to the
    /// announced length, which is within the protocol's limit.
    pub closed spec fn wf(self) -> bool {
        &&& self.size <= MAX_CONTROL_MESSAGE
        &&& bytes_mut_contents(self.buf).len() + self.remaining == self.size
    }

    /// The announced length of the payload.
    pub closed spec fn expected(self) -> nat {
        self.size as nat
    }

    /// The payload bytes received so far.
    pub closed spec fn received(self) -> Seq<u8> {
        bytes_mut_contents(self.buf)
    }

    /// Starts reading a frame whose length prefix announced `message_size`
    /// bytes; refuses sizes over `MAX_CONTROL_MESSAGE`.
    pub fn new(message_size: u32) -> (res: Result<FrameReader, NetperfError>)
        ensures
            message_size > MAX_CONTROL_MESSAGE ==> res == Err::<FrameReader, NetperfError>(
                NetperfError::MessageTooLarge(message_size),
            ),
            message_size <= MAX_CONTROL_MESSAGE ==> (res matches Ok(r) && r.expected()
                == message_size && r.received() == Seq::<u8>::empty() && r.wf()),
    {
        if message_size > MAX_CONTROL_MESSAGE {
            return Err(NetperfError::MessageTooLarge(message_size));
        }
        let buf = bytes_mut_with_capacity(message_size as usize);
        Ok(FrameReader { size: message_size, remaining: message_size as u64, buf })
    }

    /// How many payload bytes are still to come.
    pub fn remaining(&self) -> (n: u64)
        requires
            self.wf(),
        ensures
            n == self.expected() - self.received().len(),
            self.received().len() <= self.expected() <= MAX_CONTROL_MESSAGE,
    {
        self.remaining
    }

    /// Whether the whole payload has arrived.
    pub fn is_complete(&self) -> (b: bool)
        requires
            self.wf(),
        ensures
            b == (self.received().len() == self.expected()),
    {
        self.remaining == 0
    }

    /// Takes in the next piece read from the socket, which never holds more
    /// than the bytes still to come. An empty piece means that the peer
    /// closed the connection before the frame was complete.
    pub fn feed(&mut self, chunk: &[u8]) -> (res: Result<(), NetperfError>)
        requires
            old(self).wf(),
            chunk@.len() <= old(self).expected() - old(self).received().len(),
        ensures
            final(self).wf(),
            final(self).expected() == old(self).expected(),
            chunk@.len() == 0 ==> res == Err::<(), NetperfError>(NetperfError::ConnectionClosed)
                && final(self).received() == old(self).received(),
            chunk@.len() > 0 ==> res is Ok && final(self).received() == old(self).received()
                + chunk@,
    {
        let n = chunk.len();
        if n == 0 {
            return Err(NetperfError::ConnectionClosed);
        }
        bytes_mut_put_slice(&mut self.buf, chunk);
        self.remaining = self.remaining - n as u64;
        Ok(())
    }

    /// The payload of a complete frame.
    pub fn into_payload(self) -> (payload: Vec<u8>)
        requires
            self.wf(),
            self.received().len() == self.expected(),
        ensures
            payload@ == self.received(),
            payload@.len() == self.expected(),
    {
        let n = bytes_mut_len(&self.buf);
        assert(n == self.size as usize);
        slice_to_vec(bytes_mut_chunk(&self.buf))
    }
}

} // verus!

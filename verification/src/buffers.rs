//! The fixed-size byte buffers of the radio link and of the command port.
use vstd::prelude::*;

verus! {

/// Bytes in a command packet, and the room of the buffer that holds one.
pub const CMD_PACKET_SIZE: usize = 11;

/// A `heapless::Vec` of bytes with room for one command packet.
#[verifier::external_body]
pub struct CommandPacket {
    inner: heapless::Vec<u8, CMD_PACKET_SIZE>,
}

/// The bytes that a command packet holds, in order.
pub uninterp spec fn packet_bytes(packet: CommandPacket) -> Seq<u8>;

impl CommandPacket {
    /// `heapless::Vec::new`: the buffer starts empty.
    #[verifier::external_body]
    pub(crate) fn new() -> (packet: CommandPacket)
        ensures
            packet_bytes(packet) == Seq::<u8>::empty(),
    {
        CommandPacket { inner: heapless::Vec::new() }
    }

    /// `heapless::Vec::push`: the byte goes to the end while there is room; a full
    /// buffer stays as it is, and the result says which of the two happened.
    #[verifier::external_body]
    pub(crate) fn push(&mut self, byte: u8) -> (stored: bool)
        ensures
            stored == (packet_bytes(*old(self)).len() < CMD_PACKET_SIZE),
            packet_bytes(*final(self)) == (if stored {
                packet_bytes(*old(self)).push(byte)
            } else {
                packet_bytes(*old(self))
            }),
    {
        self.inner.push(byte).is_ok()
    }

    /// `heapless::Vec::extend_from_slice`: all the bytes go to the end in order if they
    /// fit; otherwise none does, and the result says which of the two happened.
    #[verifier::external_body]
    pub(crate) fn extend_from_slice(&mut self, bytes: &[u8]) -> (stored: bool)
        ensures
            stored == (packet_bytes(*old(self)).len() + bytes@.len() <= CMD_PACKET_SIZE),
            packet_bytes(*final(self)) == (if stored {
                packet_bytes(*old(self)) + bytes@
            } else {
                packet_bytes(*old(self))
            }),
    {
        self.inner.extend_from_slice(bytes).is_ok()
    }

    /// `heapless::Vec::as_slice`: the bytes that were stored, in order.
    #[verifier::external_body]
    pub(crate) fn as_slice(&self) -> (bytes: &[u8])
        ensures
            bytes@ == packet_bytes(*self),
    {
        self.inner.as_slice()
    }

    /// The bytes to hand to the radio.
    pub fn as_bytes(&self) -> (bytes: &[u8])
        ensures
            bytes@ == packet_bytes(*self),
    {
        self.as_slice()
    }
}

/// Bytes that one burst on the command port may have.
pub const RCV_BUF_LEN: usize = 128;

/// A `heapless::Vec` of bytes with room for one burst on the command port.
#[verifier::external_body]
pub struct ReceiveBuffer {
    inner: heapless::Vec<u8, RCV_BUF_LEN>,
}

/// The bytes that a receive buffer holds, in order.
pub uninterp spec fn received_bytes(buffer: ReceiveBuffer) -> Seq<u8>;

impl ReceiveBuffer {
    /// `heapless::Vec::new`: the buffer starts empty.
    #[verifier::external_body]
    pub(crate) fn new() -> (buffer: ReceiveBuffer)
        ensures
            received_bytes(buffer) == Seq::<u8>::empty(),
    {
        ReceiveBuffer { inner: heapless::Vec::new() }
    }

    /// `heapless::Vec::clear`: nothing is left in the buffer.
    #[verifier::external_body]
    pub(crate) fn clear(&mut self)
        ensures
            received_bytes(*final(self)) == Seq::<u8>::empty(),
    {
        self.inner.clear()
    }

    /// `heapless::Vec::push`: the byte goes to the end while there is room; a full
    /// buffer stays as it is, and the result says which of the two happened.
    #[verifier::external_body]
    pub(crate) fn push(&mut self, byte: u8) -> (stored: bool)
        ensures
            stored == (received_bytes(*old(self)).len() < RCV_BUF_LEN),
            received_bytes(*final(self)) == (if stored {
                received_bytes(*old(self)).push(byte)
            } else {
                received_bytes(*old(self))
            }),
    {
        self.inner.push(byte).is_ok()
    }

    /// `heapless::Vec::as_slice`: the bytes that were stored, in order.
    #[verifier::external_body]
    pub(crate) fn as_slice(&self) -> (bytes: &[u8])
        ensures
            bytes@ == received_bytes(*self),
    {
        self.inner.as_slice()
    }

    /// `heapless::Vec::as_mut_slice`, indexed: the byte at `at` is replaced and all the
    /// others stay.
    #[verifier::external_body]
    pub(crate) fn set(&mut self, at: usize, byte: u8)
        requires
            at < received_bytes(*old(self)).len(),
        ensures
            received_bytes(*final(self)) == received_bytes(*old(self)).update(at as int, byte),
    {
        self.inner.as_mut_slice()[at] = byte;
    }
}

/// Bytes that an answer on the command port may have.
pub const LINE_LEN: usize = 10;

/// A `heapless::Vec` of bytes with room for one answer on the command port.
#[verifier::external_body]
pub struct AnswerLine {
    inner: heapless::Vec<u8, LINE_LEN>,
}

/// The bytes that an answer holds, in order.
pub uninterp spec fn line_bytes(line: AnswerLine) -> Seq<u8>;

impl AnswerLine {
    /// `heapless::Vec::new`: the answer starts empty.
    #[verifier::external_body]
    pub(crate) fn new() -> (line: AnswerLine)
        ensures
            line_bytes(line) == Seq::<u8>::empty(),
    {
        AnswerLine { inner: heapless::Vec::new() }
    }

    /// `heapless::Vec::push`: the byte goes to the end while there is room; a full
    /// buffer stays as it is, and the result says which of the two happened.
    #[verifier::external_body]
    pub(crate) fn push(&mut self, byte: u8) -> (stored: bool)
        ensures
            stored == (line_bytes(*old(self)).len() < LINE_LEN),
            line_bytes(*final(self)) == (if stored {
                line_bytes(*old(self)).push(byte)
            } else {
                line_bytes(*old(self))
            }),
    {
        self.inner.push(byte).is_ok()
    }

    /// `heapless::Vec::as_slice`: the bytes that were stored, in order.
    #[verifier::external_body]
    pub(crate) fn as_slice(&self) -> (bytes: &[u8])
        ensures
            bytes@ == line_bytes(*self),
    {
        self.inner.as_slice()
    }

    /// The bytes to write to the command port.
    pub fn as_bytes(&self) -> (bytes: &[u8])
        ensures
            bytes@ == line_bytes(*self),
    {
        self.as_slice()
    }
}

} // verus!

//! An in-memory duplex byte channel and the bounded stream that reads one
//! frame's payload from it.

use std::collections::VecDeque;
use vstd::prelude::*;

verus! {

/// Why a read gave fewer bytes than were asked for.
#[derive(Debug, Clone, Copy, PartialEq, Eq, Structural)]
pub enum IoError {
    /// The window ended before the requested bytes could be delivered. The
    /// reader tells by the budget which of the two ended: with budget left,
    /// the channel failed; with none left, the payload is too short.
    UnexpectedEof,
}

/// Something that bytes can be read from and written onto.
pub trait ReadWrite {
    /// The bytes that reads can deliver, in order.
    spec fn incoming(&self) -> Seq<u8>;

    /// The bytes written so far, in order.
    spec fn outgoing(&self) -> Seq<u8>;

    /// Reads at most `limit` bytes: as many of them as there are.
    fn read(&mut self, limit: usize) -> (bytes: Vec<u8>)
        ensures
            bytes@.len() == if limit <= old(self).incoming().len() {
                limit as nat
            } else {
                old(self).incoming().len()
            },
            bytes@ == old(self).incoming().take(bytes@.len() as int),
            final(self).incoming() == old(self).incoming().skip(bytes@.len() as int),
            final(self).outgoing() == old(self).outgoing(),
    ;

    /// Writes all of `bytes`.
    fn write_all(&mut self, bytes: &[u8])
        ensures
            final(self).outgoing() == old(self).outgoing() + bytes@,
            final(self).incoming() == old(self).incoming(),
    ;
}

/// A duplex byte channel held in memory: the bytes that are still to be read,
/// in order, and the bytes written so far.
#[derive(Debug)]
pub struct ByteChannel {
    input: VecDeque<u8>,
    output: Vec<u8>,
}

impl ByteChannel {
    /// The bytes that reads will deliver, in order.
    pub closed spec fn unread(&self) -> Seq<u8> {
        self.input@
    }

    /// The bytes written so far, in order.
    pub closed spec fn written(&self) -> Seq<u8> {
        self.output@
    }

    /// A channel that holds nothing to read and onto which nothing was written.
    pub fn new() -> (channel: Self)
        ensures
            channel.unread() == Seq::<u8>::empty(),
            channel.written() == Seq::<u8>::empty(),
    {
        ByteChannel { input: VecDeque::new(), output: Vec::new() }
    }

    /// Number of bytes that can still be read.
    pub fn available(&self) -> (count: usize)
        ensures
            count == self.unread().len(),
    {
        self.input.len()
    }

    /// Appends `bytes` behind the bytes that are still to be read.
    pub fn feed(&mut self, bytes: &[u8])
        ensures
            final(self).unread() == old(self).unread() + bytes@,
            final(self).written() == old(self).written(),
    {
        let mut i: usize = 0;
        while i < bytes.len()
            invariant
                i <= bytes.len(),
                self.input@ == old(self).input@ + bytes@.take(i as int),
                self.output == old(self).output,
            decreases bytes.len() - i,
        {
            self.input.push_back(bytes[i]);
            i = i + 1;
        }
        assert(bytes@.take(i as int) == bytes@);
    }

    /// Reads the next byte, or `None` at the end of the channel.
    pub fn read_byte(&mut self) -> (byte: Option<u8>)
        ensures
            final(self).written() == old(self).written(),
            match byte {
                Some(b) => old(self).unread().len() > 0 && b == old(self).unread()[0]
                    && final(self).unread() == old(self).unread().skip(1),
                None => old(self).unread().len() == 0 && final(self).unread() == old(self).unread(),
            },
    {
        let byte = self.input.pop_front();
        assert(byte is Some ==> self.input@ == old(self).input@.skip(1));
        byte
    }

    /// Writes all of `bytes` onto the channel.
    pub fn write_all(&mut self, bytes: &[u8])
        ensures
            final(self).written() == old(self).written() + bytes@,
            final(self).unread() == old(self).unread(),
    {
        self.output.extend_from_slice(bytes);
        assert(self.output@ == old(self).output@ + bytes@);
    }

    /// Hands out the bytes written so far and leaves none behind.
    pub fn take_written(&mut self) -> (bytes: Vec<u8>)
        ensures
            bytes@ == old(self).written(),
            final(self).written() == Seq::<u8>::empty(),
            final(self).unread() == old(self).unread(),
    {
        let mut out: Vec<u8> = Vec::new();
        core::mem::swap(&mut self.output, &mut out);
        out
    }
}

impl ReadWrite for ByteChannel {
    open spec fn incoming(&self) -> Seq<u8> {
        self.unread()
    }

    open spec fn outgoing(&self) -> Seq<u8> {
        self.written()
    }

    fn read(&mut self, limit: usize) -> (bytes: Vec<u8>) {
        let mut bytes: Vec<u8> = Vec::new();
        assert(old(self).unread().skip(0) =~= old(self).unread());
        while bytes.len() < limit
            invariant
                bytes@.len() <= limit,
                bytes@.len() <= old(self).unread().len(),
                bytes@ == old(self).unread().take(bytes@.len() as int),
                self.unread() == old(self).unread().skip(bytes@.len() as int),
                self.written() == old(self).written(),
            ensures
                bytes@.len() == limit || bytes@.len() == old(self).unread().len(),
            decreases limit - bytes.len(),
        {
            let ghost before = bytes@.len();
            match self.read_byte() {
                Some(b) => {
                    bytes.push(b);
                    assert(bytes@ =~= old(self).unread().take(bytes@.len() as int));
                    assert(self.unread() =~= old(self).unread().skip(bytes@.len() as int));
                },
                None => {
                    break ;
                },
            }
        }
        bytes
    }

    fn write_all(&mut self, bytes: &[u8]) {
        ByteChannel::write_all(self, bytes)
    }
}

/// What a bounded stream stands for: the bytes that its channel will still
/// deliver, the byte budget left for the current frame, and the bytes written
/// through it so far.
pub struct StreamView {
    pub unread: Seq<u8>,
    pub remaining: nat,
    pub written: Seq<u8>,
}

impl StreamView {
    /// The bytes that can still be read: the channel's bytes, cut off at the
    /// budget.
    pub open spec fn window(self) -> Seq<u8> {
        if self.remaining <= self.unread.len() {
            self.unread.take(self.remaining as int)
        } else {
            self.unread
        }
    }

    /// Whether the budget promises more bytes than the channel holds.
    pub open spec fn short(self) -> bool {
        self.remaining > self.unread.len()
    }

    /// The stream after `count` bytes were read from it.
    pub open spec fn advance(self, count: nat) -> StreamView {
        StreamView {
            unread: self.unread.skip(count as int),
            remaining: (self.remaining - count) as nat,
            written: self.written,
        }
    }
}

/// Reading `count` bytes removes them from the front of the window and leaves
/// the rest of the window, and whether the channel is short, as they were.
pub broadcast proof fn lemma_advance_window(s: StreamView, count: nat)
    requires
        count <= s.window().len(),
    ensures
        #[trigger] s.advance(count).window() == s.window().skip(count as int),
        s.advance(count).short() == s.short(),
{
    assert(s.advance(count).window() =~= s.window().skip(count as int));
}

/// Reading in two steps is reading the sum at once.
pub broadcast proof fn lemma_advance_twice(s: StreamView, first: nat, second: nat)
    requires
        first + second <= s.window().len(),
    ensures
        #[trigger] s.advance(first).advance(second) == s.advance(first + second),
{
    assert(s.unread.skip(first as int).skip(second as int) =~= s.unread.skip(
        (first + second) as int,
    ));
}

/// Reading nothing changes nothing.
pub broadcast proof fn lemma_advance_zero(s: StreamView)
    ensures
        #[trigger] s.advance(0) == s,
{
    assert(s.unread.skip(0) =~= s.unread);
}

/// A byte budget laid over a channel for the length of one frame's payload.
/// Every read is taken out of the budget; writes pass through to the channel.
#[derive(Debug)]
pub struct DataStream {
    remaining_size: usize,
    inner: ByteChannel,
}

impl View for DataStream {
    type V = StreamView;

    closed spec fn view(&self) -> StreamView {
        StreamView {
            unread: self.inner.unread(),
            remaining: self.remaining_size as nat,
            written: self.inner.written(),
        }
    }
}

impl DataStream {
    /// Lays a budget of `packet_size` bytes over `inner`.
    pub fn new(inner: ByteChannel, packet_size: usize) -> (stream: Self)
        ensures
            stream@ == (StreamView {
                unread: inner.unread(),
                remaining: packet_size as nat,
                written: inner.written(),
            }),
    {
        DataStream { remaining_size: packet_size, inner }
    }

    /// The budget that is left.
    pub fn remaining_size(&self) -> (size: usize)
        ensures
            size == self@.remaining,
    {
        self.remaining_size
    }

    /// Gives the channel back, whatever is left of the budget.
    pub fn into_inner(self) -> (inner: ByteChannel)
        ensures
            inner.unread() == self@.unread,
            inner.written() == self@.written,
    {
        self.inner
    }

    /// Reads one byte. Fails, and reads nothing, where the window is empty.
    pub fn read_byte(&mut self) -> (byte: Result<u8, IoError>)
        ensures
            match byte {
                Ok(b) =>
                    old(self)@.window().len() > 0
                        && b == old(self)@.window()[0]
                        && final(self)@ == old(self)@.advance(1),
                Err(_) => old(self)@.window().len() == 0 && final(self)@ == old(self)@,
            },
    {
        if self.remaining_size == 0 {
            return Err(IoError::UnexpectedEof);
        }
        match self.inner.read_byte() {
            Some(b) => {
                self.remaining_size = self.remaining_size - 1;
                Ok(b)
            },
            None => Err(IoError::UnexpectedEof),
        }
    }

    /// Reads at most `limit` bytes: as many of them as the window holds.
    pub fn read(&mut self, limit: usize) -> (bytes: Vec<u8>)
        ensures
            bytes@ == old(self)@.window().take(bytes@.len() as int),
            bytes@.len() == if limit <= old(self)@.window().len() {
                limit as nat
            } else {
                old(self)@.window().len()
            },
            final(self)@ == old(self)@.advance(bytes@.len()),
    {
        broadcast use lemma_advance_zero;

        let mut bytes: Vec<u8> = Vec::new();
        while bytes.len() < limit
            invariant
                bytes@.len() <= limit,
                bytes@.len() <= old(self)@.window().len(),
                bytes@ == old(self)@.window().take(bytes@.len() as int),
                self@ == old(self)@.advance(bytes@.len()),
            ensures
                bytes@.len() == limit || bytes@.len() == old(self)@.window().len(),
            decreases limit - bytes.len(),
        {
            let ghost before = bytes@.len();
            match self.read_byte() {
                Ok(b) => {
                    bytes.push(b);
                    proof {
                        lemma_advance_window(old(self)@, before);
                        lemma_advance_twice(old(self)@, before, 1);
                    }
                    assert(bytes@ =~= old(self)@.window().take(bytes@.len() as int));
                },
                Err(_) => {
                    break ;
                },
            }
        }
        bytes
    }

    /// Reads exactly `count` bytes. Where the window holds fewer, it fails
    /// with the whole window read.
    pub fn read_exact(&mut self, count: usize) -> (bytes: Result<Vec<u8>, IoError>)
        ensures
            match bytes {
                Ok(b) => count <= old(self)@.window().len() && b@ == old(self)@.window().take(
                    count as int,
                ) && final(self)@ == old(self)@.advance(count as nat),
                Err(_) =>
                    count > old(self)@.window().len()
                        && final(self)@ == old(self)@.advance(old(self)@.window().len()),
            },
    {
        let bytes = self.read(count);
        if bytes.len() == count {
            Ok(bytes)
        } else {
            Err(IoError::UnexpectedEof)
        }
    }

    /// Writes all of `bytes` through to the channel; the budget is not touched.
    pub fn write(&mut self, bytes: &[u8]) -> (count: usize)
        ensures
            count == bytes@.len(),
            final(self)@ == (StreamView {
                written: old(self)@.written + bytes@,
                ..old(self)@
            }),
    {
        self.inner.write_all(bytes);
        bytes.len()
    }

    /// Nothing is held back by the stream, so there is nothing to flush.
    pub fn flush(&mut self)
        ensures
            final(self)@ == old(self)@,
    {
    }
}

impl ReadWrite for DataStream {
    /// The bytes that the budget and the channel both allow to read.
    open spec fn incoming(&self) -> Seq<u8> {
        self@.window()
    }

    open spec fn outgoing(&self) -> Seq<u8> {
        self@.written
    }

    fn read(&mut self, limit: usize) -> (bytes: Vec<u8>) {
        let bytes = DataStream::read(self, limit);
        proof {
            lemma_advance_window(old(self)@, bytes@.len());
        }
        bytes
    }

    fn write_all(&mut self, bytes: &[u8]) {
        self.write(bytes);
    }
}

} // verus!

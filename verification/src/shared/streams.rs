//! A byte stream that can be looked into before it is read.
//!
//! `BufferStream` holds the bytes that have arrived on a connection and
//! have not been consumed. Peeking hands out the bytes behind those that
//! were peeked before and leaves them all in the stream: a read after any
//! number of peeks starts with the first byte again.

use vstd::prelude::*;

verus! {

/// The transport that a stream runs over.
#[derive(Debug, Clone, Copy, PartialEq, Eq, Structural)]
pub enum WrapperBufferStream {
    Raw,
    TlsClient,
    TlsServer,
    TlsServerBufferStream,
}

impl WrapperBufferStream {
    /// Whether the transport encrypts.
    pub fn is_tls(&self) -> (r: bool)
        ensures
            r == !(*self is Raw),
    {
        match self {
            WrapperBufferStream::Raw => false,
            _ => true,
        }
    }
}

/// A stream as a mathematical value.
pub ghost struct BufferStreamModel {
    /// The bytes that have arrived and have not been consumed.
    pub buffered: Seq<u8>,
    /// How many of them have been peeked.
    pub peeked: int,
}

/// The bytes that have arrived on a connection, with the mark up to which
/// they have been peeked.
#[derive(Debug)]
pub struct BufferStream {
    transport: WrapperBufferStream,
    buffered: Vec<u8>,
    pre_buffer: usize,
}

impl View for BufferStream {
    type V = BufferStreamModel;

    closed spec fn view(&self) -> BufferStreamModel {
        BufferStreamModel { buffered: self.buffered@, peeked: self.pre_buffer as int }
    }
}

/// The smaller of two numbers.
pub open spec fn min_of(a: int, b: int) -> int {
    if a <= b {
        a
    } else {
        b
    }
}

impl BufferStream {
    /// The peek mark lies within the buffered bytes.
    pub closed spec fn wf(&self) -> bool {
        self.pre_buffer <= self.buffered@.len()
    }

    pub closed spec fn spec_transport(&self) -> WrapperBufferStream {
        self.transport
    }

    pub proof fn lemma_wf_mark(&self)
        requires
            self.wf(),
        ensures
            0 <= self@.peeked <= self@.buffered.len(),
    {
    }

    /// A stream on which nothing has arrived.
    pub fn new(stream: WrapperBufferStream) -> (r: Self)
        ensures
            r.wf(),
            r@.buffered == Seq::<u8>::empty(),
            r@.peeked == 0,
            r.spec_transport() == stream,
    {
        Self { transport: stream, buffered: Vec::new(), pre_buffer: 0 }
    }

    /// A stream on which nothing has arrived, with room for `capacity`
    /// bytes.
    pub fn new_with_capacity(stream: WrapperBufferStream, capacity: usize) -> (r: Self)
        ensures
            r.wf(),
            r@.buffered == Seq::<u8>::empty(),
            r@.peeked == 0,
            r.spec_transport() == stream,
    {
        Self { transport: stream, buffered: Vec::with_capacity(capacity), pre_buffer: 0 }
    }

    pub fn transport(&self) -> (r: WrapperBufferStream)
        ensures
            r == self.spec_transport(),
    {
        self.transport
    }

    /// Bytes that have arrived and have not been consumed.
    pub fn buffered_len(&self) -> (n: usize)
        ensures
            n == self@.buffered.len(),
    {
        self.buffered.len()
    }

    /// Bytes that have been peeked and have not been consumed.
    pub fn peeked_len(&self) -> (n: usize)
        ensures
            n == self@.peeked,
    {
        self.pre_buffer
    }

    /// Bytes that have arrived and have not been peeked.
    pub fn available(&self) -> (n: usize)
        requires
            self.wf(),
        ensures
            n == self@.buffered.len() - self@.peeked,
    {
        self.buffered.len() - self.pre_buffer
    }

    /// Takes in bytes that have arrived on the transport.
    pub fn fill(&mut self, data: &[u8])
        requires
            old(self).wf(),
        ensures
            final(self).wf(),
            final(self)@.buffered == old(self)@.buffered + data@,
            final(self)@.peeked == old(self)@.peeked,
            final(self).spec_transport() == old(self).spec_transport(),
    {
        let n: usize = data.len();
        let ghost before = self.buffered@;
        let mut i: usize = 0;
        while i < n
            invariant
                n == data@.len(),
                i <= n,
                self.buffered@ == before + data@.take(i as int),
                self.pre_buffer == old(self).pre_buffer,
                self.transport == old(self).transport,
            decreases n - i,
        {
            self.buffered.push(data[i]);
            assert(self.buffered@ =~= before + data@.take(i + 1));
            i = i + 1;
        }
        assert(data@.take(n as int) =~= data@);
    }

    /// Peeks: hands out up to `size` of the bytes behind those that were
    /// peeked before, and moves the mark behind them. No byte leaves the
    /// stream.
    pub fn pre_read_buf(&mut self, size: usize) -> (out: Vec<u8>)
        requires
            old(self).wf(),
        ensures
            final(self).wf(),
            final(self)@.buffered == old(self)@.buffered,
            out@.len() == min_of(size as int, old(self)@.buffered.len() - old(self)@.peeked),
            out@ == old(self)@.buffered.subrange(
                old(self)@.peeked,
                old(self)@.peeked + out@.len(),
            ),
            final(self)@.peeked == old(self)@.peeked + out@.len(),
            final(self).spec_transport() == old(self).spec_transport(),
    {
        let available: usize = self.buffered.len() - self.pre_buffer;
        let n: usize = if size <= available {
            size
        } else {
            available
        };
        let start: usize = self.pre_buffer;
        let total: usize = self.buffered.len();
        let mut out: Vec<u8> = Vec::new();
        let mut i: usize = 0;
        while i < n
            invariant
                i <= n,
                start + n <= total,
                total == self.buffered@.len(),
                out@ == self.buffered@.subrange(start as int, start + i),
                self.buffered@ == old(self).buffered@,
                self.pre_buffer == old(self).pre_buffer,
                self.transport == old(self).transport,
            decreases n - i,
        {
            out.push(self.buffered[start + i]);
            assert(out@ =~= self.buffered@.subrange(start as int, start + i + 1));
            i = i + 1;
        }
        self.pre_buffer = start + n;
        out
    }

    /// Peeks into `buf`: writes the next bytes over its first places, as
    /// many as it has places and the stream has unpeeked bytes, and gives
    /// their number.
    pub fn pre_read(&mut self, buf: &mut Vec<u8>) -> (n: usize)
        requires
            old(self).wf(),
        ensures
            final(self).wf(),
            final(self)@.buffered == old(self)@.buffered,
            n == min_of(old(buf)@.len() as int, old(self)@.buffered.len() - old(self)@.peeked),
            final(buf)@ == old(self)@.buffered.subrange(
                old(self)@.peeked,
                old(self)@.peeked + n,
            ) + old(buf)@.skip(n as int),
            final(self)@.peeked == old(self)@.peeked + n,
            final(self).spec_transport() == old(self).spec_transport(),
    {
        let available: usize = self.buffered.len() - self.pre_buffer;
        let n: usize = if buf.len() <= available {
            buf.len()
        } else {
            available
        };
        let start: usize = self.pre_buffer;
        let total: usize = self.buffered.len();
        let mut i: usize = 0;
        while i < n
            invariant
                i <= n <= buf@.len(),
                buf@.len() == old(buf)@.len(),
                start + n <= total,
                total == self.buffered@.len(),
                buf@ == self.buffered@.subrange(start as int, start + i) + old(buf)@.skip(i as int),
                self.buffered@ == old(self).buffered@,
                self.pre_buffer == old(self).pre_buffer,
                self.transport == old(self).transport,
            decreases n - i,
        {
            buf.set(i, self.buffered[start + i]);
            assert(buf@ =~= self.buffered@.subrange(start as int, start + i + 1) + old(buf)@.skip(
                i + 1,
            ));
            i = i + 1;
        }
        self.pre_buffer = start + n;
        n
    }

    /// Removes the first `amt` bytes from the stream, all of which have
    /// been peeked.
    pub fn consume(&mut self, amt: usize)
        requires
            old(self).wf(),
            amt <= old(self)@.peeked,
        ensures
            final(self).wf(),
            final(self)@.buffered == old(self)@.buffered.skip(amt as int),
            final(self)@.peeked == old(self)@.peeked - amt,
            final(self).spec_transport() == old(self).spec_transport(),
    {
        let rest = self.buffered.split_off(amt);
        self.buffered = rest;
        self.pre_buffer = self.pre_buffer - amt;
    }

    /// The stream with the mark at its start: what was peeked is read
    /// again.
    pub fn into_inner(self) -> (r: BufferStream)
        requires
            self.wf(),
        ensures
            r.wf(),
            r@.buffered == self@.buffered,
            r@.peeked == 0,
            r.spec_transport() == self.spec_transport(),
    {
        Self { transport: self.transport, buffered: self.buffered, pre_buffer: 0 }
    }

    /// Reads: takes up to `size` bytes from the start of the stream, the
    /// peeked ones first, and removes them.
    pub fn read(&mut self, size: usize) -> (out: Vec<u8>)
        requires
            old(self).wf(),
        ensures
            final(self).wf(),
            out@.len() == min_of(size as int, old(self)@.buffered.len() as int),
            out@ == old(self)@.buffered.take(out@.len() as int),
            final(self)@.buffered == old(self)@.buffered.skip(out@.len() as int),
            final(self)@.peeked == if old(self)@.peeked >= out@.len() {
                old(self)@.peeked - out@.len()
            } else {
                0
            },
            final(self).spec_transport() == old(self).spec_transport(),
    {
        let n: usize = if size <= self.buffered.len() {
            size
        } else {
            self.buffered.len()
        };
        let rest = self.buffered.split_off(n);
        let mut out: Vec<u8> = Vec::new();
        std::mem::swap(&mut out, &mut self.buffered);
        self.buffered = rest;
        self.pre_buffer = if self.pre_buffer >= n {
            self.pre_buffer - n
        } else {
            0
        };
        out
    }
}

/// A read that follows peeks and a rewind gives the bytes that the peeks
/// gave.
pub proof fn lemma_peek_then_read(stream: BufferStreamModel, first: int, second: int)
    requires
        stream.peeked == 0,
        0 <= first,
        0 <= second,
        first + second <= stream.buffered.len(),
    ensures
        stream.buffered.subrange(0, first) + stream.buffered.subrange(
            first,
            first + second,
        ) == stream.buffered.take(first + second),
{
    assert(stream.buffered.subrange(0, first) + stream.buffered.subrange(
        first,
        first + second,
    ) =~= stream.buffered.take(first + second));
}

} // verus!

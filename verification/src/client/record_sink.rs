//! The buffer between a record stream and its reader: the server's samples
//! go in as they arrive and the reader takes them out from the front.

use std::collections::VecDeque;

use vstd::prelude::*;

verus! {

/// What the buffer holds after `data` arrives, when it held `buf` and may
/// hold `capacity` bytes.
///
/// Data that fits is appended. Data that does not fit beside what is held
/// makes room by dropping as many bytes from the front as it brings (or
/// everything held, if that is less). Data larger than the whole buffer
/// replaces everything by its first `capacity` bytes.
pub open spec fn buffer_after_write(buf: Seq<u8>, capacity: nat, data: Seq<u8>) -> Seq<u8> {
    if data.len() == 0 {
        buf
    } else if data.len() > capacity {
        data.take(capacity as int)
    } else if buf.len() + data.len() > capacity {
        let dropped = if data.len() < buf.len() { data.len() } else { buf.len() };
        buf.skip(dropped as int) + data
    } else {
        buf + data
    }
}

/// The buffered samples of a record stream, at most a fixed number of bytes.
#[derive(Debug)]
pub struct RecordBuffer {
    buf: VecDeque<u8>,
    capacity: usize,
    eof: bool,
}

/// What a read from a [`RecordBuffer`] gives.
#[derive(Debug, Clone, PartialEq, Eq)]
pub enum RecordRead {
    /// These bytes, taken from the front of the buffer. None are given once
    /// the stream has ended, or when none were asked for.
    Ready(Vec<u8>),
    /// Nothing is buffered yet: the reader waits for the next write.
    Pending,
}

impl RecordBuffer {
    /// The bytes held, oldest first.
    pub closed spec fn data(&self) -> Seq<u8> {
        self.buf@
    }

    /// The most bytes the buffer holds.
    pub closed spec fn cap(&self) -> nat {
        self.capacity as nat
    }

    /// Whether the stream that fills the buffer has ended.
    pub closed spec fn ended(&self) -> bool {
        self.eof
    }

    #[verifier::type_invariant]
    spec fn within_capacity(&self) -> bool {
        self.buf@.len() <= self.capacity
    }

    /// An empty buffer for at most `capacity` bytes.
    pub fn new(capacity: usize) -> (r: RecordBuffer)
        ensures
            r.data() == Seq::<u8>::empty(),
            r.cap() == capacity,
            !r.ended(),
    {
        RecordBuffer { buf: VecDeque::new(), capacity, eof: false }
    }

    /// The number of bytes held.
    pub fn len(&self) -> (r: usize)
        ensures
            r == self.data().len(),
    {
        self.buf.len()
    }

    /// The bytes held, oldest first.
    pub fn contents(&self) -> (r: Vec<u8>)
        ensures
            r@ == self.data(),
    {
        let mut out: Vec<u8> = Vec::new();
        let n = self.buf.len();
        let mut i: usize = 0;
        while i < n
            invariant
                n == self.buf@.len(),
                i <= n,
                out@ == self.buf@.take(i as int),
            decreases n - i,
        {
            out.push(self.buf[i]);
            i = i + 1;
            assert(out@ =~= self.buf@.take(i as int));
        }
        assert(self.buf@.take(n as int) =~= self.buf@);
        out
    }

    /// Takes in samples that the server sent for the stream. The buffer
    /// never holds more than its capacity; see [`buffer_after_write`] for
    /// what gives way.
    pub fn write(&mut self, data: &[u8])
        ensures
            final(self).data() == buffer_after_write(old(self).data(), old(self).cap(), data@),
            final(self).data().len() <= final(self).cap(),
            final(self).cap() == old(self).cap(),
            final(self).ended() == old(self).ended(),
    {
        proof {
            use_type_invariant(&*self);
        }
        if data.len() == 0 {
            return;
        }
        let mut buf: VecDeque<u8> = VecDeque::new();
        std::mem::swap(&mut buf, &mut self.buf);
        let len = buf.len();
        let to_write = data.len();
        let capacity = self.capacity;
        if to_write > capacity {
            buf.clear();
            push_prefix(&mut buf, data, capacity);
        } else if to_write > capacity - len {
            let dropped = if to_write < len {
                to_write
            } else {
                len
            };
            drop_front(&mut buf, dropped);
            push_prefix(&mut buf, data, to_write);
        } else {
            push_prefix(&mut buf, data, to_write);
        }
        proof {
            assert(data@.take(to_write as int) =~= data@);
        }
        self.buf = buf;
    }

    /// Marks the stream as ended: every later read gives nothing.
    pub fn close(&mut self)
        ensures
            final(self).data() == old(self).data(),
            final(self).cap() == old(self).cap(),
            final(self).ended(),
    {
        proof {
            use_type_invariant(&*self);
        }
        self.eof = true;
    }

    /// Takes up to `max` bytes from the front of the buffer. An ended stream
    /// gives nothing, even if bytes are still held; an empty buffer of a
    /// stream that goes on makes the reader wait.
    pub fn read(&mut self, max: usize) -> (r: RecordRead)
        ensures
            final(self).cap() == old(self).cap(),
            final(self).ended() == old(self).ended(),
            if old(self).ended() {
                r matches RecordRead::Ready(v) && v@.len() == 0 && final(self).data() == old(self).data()
            } else if old(self).data().len() == 0 {
                r == RecordRead::Pending && final(self).data() == old(self).data()
            } else {
                let n = if max < old(self).data().len() { max as int } else { old(self).data().len() as int };
                r matches RecordRead::Ready(v) && v@ == old(self).data().take(n)
                    && final(self).data() == old(self).data().skip(n)
            },
    {
        proof {
            use_type_invariant(&*self);
        }
        if self.eof {
            return RecordRead::Ready(Vec::new());
        }
        if self.buf.len() == 0 {
            return RecordRead::Pending;
        }
        let n = if max < self.buf.len() {
            max
        } else {
            self.buf.len()
        };
        let mut buf: VecDeque<u8> = VecDeque::new();
        std::mem::swap(&mut buf, &mut self.buf);
        let ghost before = buf@;
        let mut out: Vec<u8> = Vec::new();
        let mut i: usize = 0;
        while i < n
            invariant
                n <= before.len(),
                i <= n,
                out@ == before.take(i as int),
                buf@ == before.skip(i as int),
            decreases n - i,
        {
            let b = buf.pop_front();
            match b {
                Some(x) => {
                    out.push(x);
                },
                None => {},
            }
            i = i + 1;
            assert(out@ =~= before.take(i as int));
            assert(buf@ =~= before.skip(i as int));
        }
        self.buf = buf;
        RecordRead::Ready(out)
    }
}

/// Appends the first `n` bytes of `data`.
fn push_prefix(buf: &mut VecDeque<u8>, data: &[u8], n: usize)
    requires
        n <= data@.len(),
    ensures
        final(buf)@ == old(buf)@ + data@.take(n as int),
{
    let mut i: usize = 0;
    while i < n
        invariant
            n <= data@.len(),
            i <= n,
            buf@ == old(buf)@ + data@.take(i as int),
        decreases n - i,
    {
        buf.push_back(data[i]);
        i = i + 1;
        assert(buf@ =~= old(buf)@ + data@.take(i as int));
    }
}

/// Drops the first `n` bytes.
fn drop_front(buf: &mut VecDeque<u8>, n: usize)
    requires
        n <= old(buf)@.len(),
    ensures
        final(buf)@ == old(buf)@.skip(n as int),
{
    let mut i: usize = 0;
    while i < n
        invariant
            n <= old(buf)@.len(),
            i <= n,
            buf@ == old(buf)@.skip(i as int),
        decreases n - i,
    {
        let _ = buf.pop_front();
        i = i + 1;
        assert(buf@ =~= old(buf)@.skip(i as int));
    }
}

} // verus!

//! Bounded scrollback buffer for the byte stream read from a serial port.
//!
//! The buffer keeps at most `cap()` bytes; when an append would exceed the
//! capacity, the oldest bytes are evicted first.  Growing the capacity keeps
//! the content and marks the boundary with a single separator byte; shrinking
//! evicts from the head at once.

use vstd::prelude::*;

verus! {

/// Byte written before the old content when the capacity grows, so the reader
/// can tell old content from the newly available space.
pub const SEPARATOR_BYTE: u8 = 10;

/// Capacity a fresh session starts with, until the UI asks for another.
pub const DEFAULT_MAX_BYTES: usize = 20000;

/// The last `cap` bytes of `s`, or all of `s` when it is no longer than `cap`.
pub open spec fn keep_last(s: Seq<u8>, cap: nat) -> Seq<u8> {
    if s.len() <= cap {
        s
    } else {
        s.subrange(s.len() - cap, s.len() as int)
    }
}

/// The content after a resize: growing keeps the content, preceded by one
/// separator byte when it is non-empty and does not already start with a
/// null byte; shrinking keeps at most the last `new_cap` bytes.
pub open spec fn resized(s: Seq<u8>, old_cap: nat, new_cap: nat) -> Seq<u8> {
    if new_cap > old_cap {
        if s.len() > 0 && s[0] != 0 {
            seq![SEPARATOR_BYTE] + s
        } else {
            s
        }
    } else {
        keep_last(s, new_cap)
    }
}

/// Append-only byte history with a capacity bound and FIFO eviction.
pub struct OutputBuffer {
    data: Vec<u8>,
    capacity: usize,
}

impl OutputBuffer {
    /// The bytes currently held, oldest first.
    pub closed spec fn bytes(&self) -> Seq<u8> {
        self.data@
    }

    /// The most recently requested capacity.
    pub closed spec fn cap(&self) -> nat {
        self.capacity as nat
    }

    /// The buffer never holds more bytes than its capacity.
    pub open spec fn wf(&self) -> bool {
        self.bytes().len() <= self.cap()
    }

    pub fn new(capacity: usize) -> (r: OutputBuffer)
        ensures
            r.bytes() == Seq::<u8>::empty(),
            r.cap() == capacity as nat,
            r.wf(),
    {
        OutputBuffer { data: Vec::new(), capacity }
    }

    pub fn length(&self) -> (r: usize)
        ensures
            r == self.bytes().len(),
    {
        self.data.len()
    }

    pub fn capacity(&self) -> (r: usize)
        ensures
            r == self.cap(),
    {
        self.capacity
    }

    /// Adds `bytes` at the tail; if the result would exceed the capacity,
    /// evicts from the head exactly enough bytes to fit.
    pub fn append(&mut self, bytes: &[u8])
        requires
            old(self).wf(),
        ensures
            final(self).cap() == old(self).cap(),
            final(self).bytes() == keep_last(old(self).bytes() + bytes@, old(self).cap()),
            final(self).wf(),
    {
        self.data.extend_from_slice(bytes);
        if self.data.len() > self.capacity {
            let excess = self.data.len() - self.capacity;
            let tail = self.data.split_off(excess);
            self.data = tail;
        }
        proof {
            assert(final(self).bytes() =~= keep_last(
                old(self).bytes() + bytes@,
                old(self).cap(),
            ));
        }
    }

    /// Sets a new capacity.  Growing keeps the content, preceded by one
    /// separator byte when the buffer is non-empty and does not already start
    /// with a null byte; shrinking evicts from the head so that at most the
    /// last `new_capacity` bytes remain.
    pub fn resize(&mut self, new_capacity: usize)
        requires
            old(self).wf(),
        ensures
            final(self).cap() == new_capacity as nat,
            final(self).wf(),
            final(self).bytes() == resized(old(self).bytes(), old(self).cap(), new_capacity as nat),
            new_capacity as nat > old(self).cap() && old(self).bytes().len() > 0 && old(
                self,
            ).bytes()[0] != 0 ==> final(self).bytes() == seq![SEPARATOR_BYTE] + old(self).bytes(),
            new_capacity as nat > old(self).cap() && !(old(self).bytes().len() > 0 && old(
                self,
            ).bytes()[0] != 0) ==> final(self).bytes() == old(self).bytes(),
            new_capacity as nat <= old(self).cap() ==> final(self).bytes() == keep_last(
                old(self).bytes(),
                new_capacity as nat,
            ),
    {
        if new_capacity > self.capacity {
            if self.data.len() > 0 && self.data[0] != 0 {
                self.data.insert(0, SEPARATOR_BYTE);
                proof {
                    assert(self.data@ =~= seq![SEPARATOR_BYTE] + old(self).bytes());
                }
            }
        } else {
            if self.data.len() > new_capacity {
                let excess = self.data.len() - new_capacity;
                let tail = self.data.split_off(excess);
                self.data = tail;
            }
            proof {
                assert(self.data@ =~= keep_last(old(self).bytes(), new_capacity as nat));
            }
        }
        self.capacity = new_capacity;
    }

    /// Drops all content; the capacity is unchanged.
    pub fn clear(&mut self)
        ensures
            final(self).cap() == old(self).cap(),
            final(self).bytes() == Seq::<u8>::empty(),
            final(self).wf(),
    {
        self.data.clear();
    }

    /// A copy of the current content, oldest byte first.
    pub fn snapshot(&self) -> (r: Vec<u8>)
        ensures
            r@ == self.bytes(),
    {
        let mut r: Vec<u8> = Vec::new();
        let mut i: usize = 0;
        while i < self.data.len()
            invariant
                i <= self.data.len(),
                r@ == self.data@.take(i as int),
            decreases self.data.len() - i,
        {
            r.push(self.data[i]);
            proof {
                assert(r@ =~= self.data@.take(i as int + 1));
            }
            i += 1;
        }
        proof {
            assert(r@ =~= self.data@);
        }
        r
    }
}

} // verus!

use vstd::prelude::*;
use crate::signal::{Sample, SIGNAL_};

verus! {

/// Capacity of a ring buffer built with the default configuration.
pub const DEFAULT_RING_BUFFER_SIZE: usize = 2048;

/// The lifecycle of a ring buffer: it is made uninitialized, becomes ready
/// once, and is destroyed once.
#[derive(PartialEq, Eq, Structural, Debug, Clone, Copy)]
pub enum RingState {
    Uninitialized,
    Ready,
    Destroyed,
}

/// An operation was asked of a buffer in a state that does not allow it.
#[derive(PartialEq, Eq, Structural, Debug, Clone, Copy)]
pub enum RingError {
    StateViolation,
}

/// The smaller of two integers.
pub open spec fn min_int(a: int, b: int) -> int {
    if a <= b { a } else { b }
}

/// How many samples of `s`, starting at `from`, one charge step stores into a
/// buffer of capacity `cap` that holds `contents`: all that remain, or as
/// many as there are free slots.
pub open spec fn charge_count(contents: Seq<Sample>, cap: nat, s: Seq<Sample>, from: nat) -> nat {
    min_int(cap - contents.len(), s.len() - from) as nat
}

/// The buffered samples after one charge step: the stored samples join the
/// back, in order.
pub open spec fn charged(contents: Seq<Sample>, cap: nat, s: Seq<Sample>, from: nat) -> Seq<Sample> {
    contents + s.subrange(from as int, (from + charge_count(contents, cap, s, from)) as int)
}

/// How many samples one read step hands to a destination of `room` samples:
/// all that are buffered where the destination is empty (it is then sized to
/// them), else as many as both allow.
pub open spec fn read_count(contents: Seq<Sample>, room: nat) -> nat {
    if room == 0 {
        contents.len()
    } else {
        min_int(contents.len() as int, room as int) as nat
    }
}

/// The buffered samples after one read step: the oldest ones leave.
pub open spec fn read_rest(contents: Seq<Sample>, room: nat) -> Seq<Sample> {
    contents.skip(read_count(contents, room) as int)
}

/// The destination after one read step: an empty one becomes all buffered
/// samples; otherwise the samples taken, in order, cover its first slots and
/// the rest of it is kept.
pub open spec fn delivered(dest: Seq<Sample>, contents: Seq<Sample>) -> Seq<Sample> {
    if dest.len() == 0 {
        contents
    } else {
        let k = read_count(contents, dest.len()) as int;
        contents.take(k) + dest.skip(k)
    }
}

/// A fixed-capacity circular buffer of samples with a read and a write cursor.
///
/// The buffered samples run from the read cursor, wrapping at the end of the
/// storage, for `len` slots; the write cursor is the slot after them. The
/// buffer is full exactly when `len` equals the capacity.
pub struct SIGNAL_RING_B_ {
    b: Vec<Sample>,
    r_index: usize,
    w_index: usize,
    len: usize,
    state: RingState,
}

impl View for SIGNAL_RING_B_ {
    type V = Seq<Sample>;

    /// The buffered samples, oldest first.
    closed spec fn view(&self) -> Seq<Sample> {
        Seq::new(self.len as nat, |k: int| self.b@[self.slot(k)])
    }
}

impl SIGNAL_RING_B_ {
    /// Storage slot of the `k`-th buffered sample.
    spec fn slot(&self, k: int) -> int {
        if self.r_index + k < self.b@.len() {
            self.r_index + k
        } else {
            self.r_index + k - self.b@.len()
        }
    }

    /// Number of samples the buffer can hold.
    pub closed spec fn cap(&self) -> nat {
        self.b@.len()
    }

    /// Where the buffer is in its lifecycle.
    pub closed spec fn lifecycle(&self) -> RingState {
        self.state
    }

    /// Cursors within the storage, and the count within the capacity.
    pub closed spec fn wf(&self) -> bool {
        &&& self.b@.len() > 0
        &&& self.r_index < self.b@.len()
        &&& self.len <= self.b@.len()
        &&& self.w_index == (if self.r_index + self.len < self.b@.len() {
            self.r_index + self.len
        } else {
            self.r_index + self.len - self.b@.len()
        })
    }

    /// An uninitialized, empty buffer of `capacity` slots.
    pub fn new(capacity: usize) -> (r: SIGNAL_RING_B_)
        requires
            capacity > 0,
        ensures
            r.wf(),
            r.cap() == capacity,
            r.lifecycle() == RingState::Uninitialized,
            r@ == Seq::<Sample>::empty(),
    {
        let mut b: Vec<Sample> = Vec::with_capacity(capacity);
        let mut i: usize = 0;
        while i < capacity
            invariant
                i <= capacity,
                b@.len() == i,
            decreases capacity - i,
        {
            b.push(0);
            i = i + 1;
        }
        SIGNAL_RING_B_ { b, r_index: 0, w_index: 0, len: 0, state: RingState::Uninitialized }
    }

    /// An uninitialized, empty buffer of the default capacity.
    pub fn with_default_capacity() -> (r: SIGNAL_RING_B_)
        ensures
            r.wf(),
            r.cap() == DEFAULT_RING_BUFFER_SIZE,
            r.lifecycle() == RingState::Uninitialized,
            r@ == Seq::<Sample>::empty(),
    {
        SIGNAL_RING_B_::new(DEFAULT_RING_BUFFER_SIZE)
    }

    /// Number of samples the buffer can hold.
    pub fn capacity(&self) -> (r: usize)
        ensures
            r == self.cap(),
    {
        self.b.len()
    }

    /// Number of samples buffered.
    pub fn buffered(&self) -> (r: usize)
        requires
            self.wf(),
        ensures
            r == self@.len(),
    {
        self.len
    }

    /// No slot is free.
    pub fn is_full(&self) -> (r: bool)
        requires
            self.wf(),
        ensures
            r == (self@.len() == self.cap()),
    {
        self.len == self.b.len()
    }

    /// No sample is buffered.
    pub fn is_empty(&self) -> (r: bool)
        requires
            self.wf(),
        ensures
            r == (self@.len() == 0),
    {
        self.len == 0
    }

    /// Whether a writer with `remaining` samples still to store has to wait
    /// for a read: the buffer is ready and full. A buffer that is not ready
    /// makes no one wait; charging it is refused instead.
    pub fn charge_must_wait(&self, remaining: usize) -> (r: bool)
        requires
            self.wf(),
        ensures
            r == (self.lifecycle() == RingState::Ready && self@.len() == self.cap() && remaining > 0),
    {
        self.state == RingState::Ready && self.len == self.b.len() && remaining > 0
    }

    /// Whether a reader has to wait for a charge: the buffer is ready and
    /// empty. A buffer that is not ready makes no one wait; reading it is
    /// refused instead.
    pub fn read_must_wait(&self) -> (r: bool)
        requires
            self.wf(),
        ensures
            r == (self.lifecycle() == RingState::Ready && self@.len() == 0),
    {
        self.state == RingState::Ready && self.len == 0
    }

    /// Where the buffer is in its lifecycle.
    pub fn state(&self) -> (r: RingState)
        ensures
            r == self.lifecycle(),
    {
        self.state
    }

    /// Makes an uninitialized buffer ready, with both cursors at the start and
    /// nothing buffered. Any other state is refused and left as it was.
    pub fn init(&mut self) -> (r: Result<(), RingError>)
        requires
            old(self).wf(),
        ensures
            final(self).wf(),
            final(self).cap() == old(self).cap(),
            old(self).lifecycle() == RingState::Uninitialized ==> r is Ok
                && final(self).lifecycle() == RingState::Ready
                && final(self)@ == Seq::<Sample>::empty(),
            old(self).lifecycle() != RingState::Uninitialized ==> r == Err::<(), RingError>(RingError::StateViolation)
                && *final(self) == *old(self),
    {
        if self.state != RingState::Uninitialized {
            return Err(RingError::StateViolation);
        }
        self.r_index = 0;
        self.w_index = 0;
        self.len = 0;
        self.state = RingState::Ready;
        Ok(())
    }

    /// Retires a ready buffer; nothing may be charged or read after it. Any
    /// other state is refused and left as it was.
    pub fn destroy(&mut self) -> (r: Result<(), RingError>)
        requires
            old(self).wf(),
        ensures
            final(self).wf(),
            final(self).cap() == old(self).cap(),
            final(self)@ == old(self)@,
            old(self).lifecycle() == RingState::Ready ==> r is Ok
                && final(self).lifecycle() == RingState::Destroyed,
            old(self).lifecycle() != RingState::Ready ==> r == Err::<(), RingError>(RingError::StateViolation)
                && *final(self) == *old(self),
    {
        if self.state != RingState::Ready {
            return Err(RingError::StateViolation);
        }
        self.state = RingState::Destroyed;
        Ok(())
    }

    /// Copies samples of `signal`, from index `from` on, into the free slots
    /// behind the buffered ones, as many as fit, and returns how many. A full
    /// buffer takes none. Only a ready buffer may be charged: otherwise
    /// nothing changes and the call is refused.
    pub fn charge_from(&mut self, signal: &SIGNAL_, from: usize) -> (r: Result<usize, RingError>)
        requires
            old(self).wf(),
            from <= signal@.len(),
        ensures
            final(self).wf(),
            final(self).cap() == old(self).cap(),
            final(self).lifecycle() == old(self).lifecycle(),
            old(self).lifecycle() == RingState::Ready ==> r == Ok::<usize, RingError>(
                charge_count(old(self)@, old(self).cap(), signal@, from as nat) as usize,
            ) && final(self)@ == charged(old(self)@, old(self).cap(), signal@, from as nat),
            old(self).lifecycle() != RingState::Ready ==> r == Err::<usize, RingError>(RingError::StateViolation)
                && *final(self) == *old(self),
    {
        if self.state != RingState::Ready {
            return Err(RingError::StateViolation);
        }
        let src = signal.as_slice();
        let free = self.b.len() - self.len;
        let slen = src.len();
        let left = slen - from;
        let k = if free <= left { free } else { left };
        let ghost start = self@;
        let ghost cap = self.cap();
        let mut i: usize = 0;
        while i < k
            invariant
                self.wf(),
                self.cap() == cap,
                self.state == RingState::Ready,
                i <= k,
                k == charge_count(start, cap, signal@, from as nat),
                src@ == signal@,
                slen == src@.len(),
                from + k <= slen,
                self.len == start.len() + i,
                self.len + (k - i) <= cap,
                self@ == start + signal@.subrange(from as int, from + i),
            decreases k - i,
        {
            let n = self.b.len();
            let j = from + i;
            let x = src[j];
            let w = self.w_index;
            let ghost before = self@;
            self.b.set(w, x);
            self.w_index = if w + 1 == n { 0 } else { w + 1 };
            self.len = self.len + 1;
            i = i + 1;
            assert(self@ =~= before.push(x));
            assert(signal@.subrange(from as int, from + i) =~= signal@.subrange(from as int, from + i - 1).push(x));
        }
        Ok(k)
    }

    /// Moves the oldest buffered samples into `dest` and returns how many: all
    /// of them into an empty destination, which grows to hold them, else as
    /// many as both the buffer and `dest` allow, over its first slots. An
    /// empty buffer hands over none. Only a ready buffer may be read:
    /// otherwise nothing changes and the call is refused.
    pub fn read_into(&mut self, dest: &mut SIGNAL_) -> (r: Result<usize, RingError>)
        requires
            old(self).wf(),
            old(dest).wf(),
        ensures
            final(self).wf(),
            final(dest).wf(),
            final(self).cap() == old(self).cap(),
            final(self).lifecycle() == old(self).lifecycle(),
            old(self).lifecycle() == RingState::Ready ==> r == Ok::<usize, RingError>(
                read_count(old(self)@, old(dest)@.len()) as usize,
            ) && final(self)@ == read_rest(old(self)@, old(dest)@.len())
                && final(dest)@ == delivered(old(dest)@, old(self)@),
            old(self).lifecycle() != RingState::Ready ==> r == Err::<usize, RingError>(RingError::StateViolation)
                && *final(self) == *old(self) && *final(dest) == *old(dest),
    {
        if self.state != RingState::Ready {
            return Err(RingError::StateViolation);
        }
        let room = dest.signal_size();
        let fresh = room == 0;
        let k = if fresh || self.len <= room { self.len } else { room };
        let ghost start = self@;
        let ghost d0 = dest@;
        let ghost cap = self.cap();
        let mut i: usize = 0;
        while i < k
            invariant
                self.wf(),
                dest.wf(),
                self.cap() == cap,
                self.state == RingState::Ready,
                i <= k,
                k == read_count(start, d0.len()),
                fresh == (d0.len() == 0),
                k <= start.len(),
                !fresh ==> k <= d0.len(),
                self.len == start.len() - i,
                self@ == start.skip(i as int),
                fresh ==> dest@ == start.take(i as int),
                !fresh ==> dest@ == start.take(i as int) + d0.skip(i as int),
            decreases k - i,
        {
            let n = self.b.len();
            let x = self.b[self.r_index];
            let ghost before = self@;
            assert(x == before[0]);
            if fresh {
                dest.push(x);
            } else {
                dest.set(i, x);
            }
            self.r_index = if self.r_index + 1 == n { 0 } else { self.r_index + 1 };
            self.len = self.len - 1;
            i = i + 1;
            assert(self@ =~= before.skip(1));
            assert(before.skip(1) =~= start.skip(i as int));
            if fresh {
                assert(dest@ =~= start.take(i as int));
            } else {
                assert(dest@ =~= start.take(i as int) + d0.skip(i as int));
            }
        }
        if fresh {
            assert(start.take(k as int) =~= start);
        }
        Ok(k)
    }
}

} // verus!

//! The entropy ring and the decisions of the task that keeps it filled.

pub mod history;
pub mod refill;

use vstd::prelude::*;

verus! {

/// Position `x` folded back into `0..capacity`, for `x` below twice the
/// capacity.
pub open spec fn wrap(x: int, capacity: int) -> int {
    if x < capacity {
        x
    } else {
        x - capacity
    }
}

/// Index of the slot that lies `i` slots after slot `start` in a ring of
/// `capacity` slots.
pub open spec fn slot(start: int, i: int, capacity: int) -> int {
    wrap(start + i, capacity)
}

/// For a position below twice the capacity, folding is the remainder.
pub proof fn lemma_wrap_is_mod(x: int, capacity: int)
    requires
        0 <= x < 2 * capacity,
    ensures
        wrap(x, capacity) == x % capacity,
{
    if x < capacity {
        assert(x % capacity == x) by (nonlinear_arith)
            requires
                0 <= x < capacity,
        ;
    } else {
        assert(x % capacity == x - capacity) by (nonlinear_arith)
            requires
                capacity <= x < 2 * capacity,
        ;
    }
}

/// How many of `offered` bytes a ring of `capacity` bytes that holds `held`
/// takes: all of them, or as many as are free.
pub open spec fn accepted_len(capacity: nat, held: nat, offered: nat) -> nat {
    if held + offered <= capacity {
        offered
    } else {
        (capacity - held) as nat
    }
}

/// Slot `j` of a ring of `capacity` slots is one of the `count` slots from
/// slot `start` on, counted past the last slot back to the first.
pub open spec fn in_span(start: int, count: int, capacity: int, j: int) -> bool {
    if j >= start {
        j - start < count
    } else {
        j + capacity - start < count
    }
}

/// The three counters of a ring, kept together so that they change as one.
struct Cursors {
    read_pos: usize,
    write_pos: usize,
    available: usize,
}

/// Fixed-capacity byte ring for entropy storage. Writing is lossy: what does
/// not fit is dropped. Reading hands out the oldest bytes, or nothing when
/// fewer are held than were asked for.
pub struct RingBuffer {
    buffer: Vec<u8>,
    capacity: usize,
    cursors: Cursors,
}

impl View for RingBuffer {
    type V = Seq<u8>;

    /// The bytes held, oldest first.
    closed spec fn view(&self) -> Seq<u8> {
        Seq::new(
            self.cursors.available as nat,
            |i: int| self.buffer@[slot(self.cursors.read_pos as int, i, self.capacity as int)],
        )
    }
}

impl RingBuffer {
    #[verifier::type_invariant]
    spec fn inv(&self) -> bool {
        &&& self.buffer@.len() == self.capacity
        &&& self.cursors.available <= self.capacity
        &&& self.capacity == 0 ==> self.cursors.read_pos == 0 && self.cursors.write_pos == 0
        &&& self.capacity > 0 ==> self.cursors.read_pos < self.capacity
        &&& self.capacity > 0 ==> self.cursors.write_pos == wrap(
            self.cursors.read_pos + self.cursors.available,
            self.capacity as int,
        )
    }

    /// The capacity that the ring was made with.
    pub closed spec fn spec_capacity(&self) -> nat {
        self.capacity as nat
    }

    /// Index of the slot that holds the oldest byte.
    pub closed spec fn read_cursor(&self) -> nat {
        self.cursors.read_pos as nat
    }

    /// Index of the slot that the next byte written goes to.
    pub closed spec fn write_cursor(&self) -> nat {
        self.cursors.write_pos as nat
    }

    /// The slots of the ring, by index.
    pub closed spec fn storage(&self) -> Seq<u8> {
        self.buffer@
    }

    /// Create a new, empty ring with the given capacity.
    pub fn new(capacity: usize) -> (ring: Self)
        ensures
            ring@ == Seq::<u8>::empty(),
            ring.spec_capacity() == capacity,
            ring.read_cursor() == 0,
            ring.write_cursor() == 0,
            ring.storage() == Seq::new(capacity as nat, |i: int| 0u8),
    {
        let buffer: Vec<u8> = vec![0u8; capacity];
        let ring = RingBuffer {
            buffer,
            capacity,
            cursors: Cursors { read_pos: 0, write_pos: 0, available: 0 },
        };
        assert(ring@ =~= Seq::<u8>::empty());
        assert(ring.storage() =~= Seq::new(capacity as nat, |i: int| 0u8));
        ring
    }

    /// The ring's capacity in bytes.
    pub fn capacity(&self) -> (capacity: usize)
        ensures
            capacity == self.spec_capacity(),
    {
        self.capacity
    }

    /// The number of bytes held. It never exceeds the capacity, and it is the
    /// distance from the read cursor to the write cursor: the bytes held are
    /// the slots from the read cursor on, in order, past the end of the
    /// storage back to its start.
    pub fn available(&self) -> (available: usize)
        ensures
            available == self@.len(),
            available <= self.spec_capacity(),
            self.storage().len() == self.spec_capacity(),
            self.spec_capacity() == 0 ==> self.read_cursor() == 0 && self.write_cursor() == 0,
            self.spec_capacity() > 0 ==> self.read_cursor() < self.spec_capacity(),
            self.spec_capacity() > 0 ==> self.write_cursor() == (self.read_cursor() + available) % (
            self.spec_capacity() as int),
            forall|i: int|
                0 <= i < available ==> self@[i] == self.storage()[(self.read_cursor() + i) % (
                self.spec_capacity() as int)],
    {
        proof {
            use_type_invariant(self);
            if self.capacity > 0 {
                lemma_wrap_is_mod(
                    self.cursors.read_pos + self.cursors.available,
                    self.capacity as int,
                );
            }
            assert forall|i: int| 0 <= i < self@.len() implies self@[i] == self.storage()[(
            self.read_cursor() + i) % (self.spec_capacity() as int)] by {
                lemma_wrap_is_mod(self.cursors.read_pos + i, self.capacity as int);
            }
        }
        self.cursors.available
    }

    /// Write `data` to the ring, as far as there is room for it, and return
    /// how many bytes were taken. The bytes taken are the first of `data`;
    /// they go behind those already held, into the slots from the write
    /// cursor on, past the end of the storage back to its start.
    pub fn write(&mut self, data: &[u8]) -> (written: usize)
        ensures
            written == accepted_len(old(self).spec_capacity(), old(self)@.len(), data@.len()),
            written <= data@.len(),
            final(self)@ == old(self)@ + data@.take(written as int),
            final(self)@ == history::contents_step(
                old(self).spec_capacity(),
                old(self)@,
                history::RingOp::Write(data@),
            ),
            final(self).spec_capacity() == old(self).spec_capacity(),
            final(self).read_cursor() == old(self).read_cursor(),
            written > 0 ==> final(self).write_cursor() == (old(self).write_cursor() + written) % (
            old(self).spec_capacity() as int),
            written == 0 ==> *final(self) == *old(self),
            final(self).storage().len() == old(self).storage().len(),
            forall|i: int|
                0 <= i < written ==> final(self).storage()[(old(self).write_cursor() + i) % (
                old(self).spec_capacity() as int)] == data@[i],
            forall|j: int|
                0 <= j < old(self).spec_capacity() && !in_span(
                    old(self).write_cursor() as int,
                    written as int,
                    old(self).spec_capacity() as int,
                    j,
                ) ==> final(self).storage()[j] == old(self).storage()[j],
    {
        proof {
            use_type_invariant(&*self);
        }
        let free_space = self.capacity - self.cursors.available;
        if free_space == 0 || data.len() == 0 {
            assert(data@.take(0) =~= Seq::<u8>::empty());
            assert(self@ + data@.take(0) =~= self@);
            return 0;
        }
        let to_write = if data.len() < free_space {
            data.len()
        } else {
            free_space
        };
        let read_pos = self.cursors.read_pos;
        let write_pos = self.cursors.write_pos;
        let available = self.cursors.available;
        let ghost capacity = self.capacity as int;
        let ghost before = self.buffer@;
        let ghost held = self@;
        let mut pos = write_pos;
        let mut done: usize = 0;
        while done < to_write
            invariant
                done <= to_write <= data@.len(),
                to_write <= capacity - available,
                capacity == self.capacity > 0,
                self.buffer@.len() == capacity,
                self.cursors.read_pos == read_pos < capacity,
                self.cursors.write_pos == write_pos < capacity,
                self.cursors.available == available,
                write_pos == wrap(read_pos + available, capacity),
                pos == slot(write_pos as int, done as int, capacity),
                forall|i: int|
                    0 <= i < done ==> self.buffer@[#[trigger] slot(write_pos as int, i, capacity)]
                        == data@[i],
                forall|j: int|
                    0 <= j < capacity && !in_span(write_pos as int, done as int, capacity, j)
                        ==> #[trigger] self.buffer@[j] == before[j],
            decreases to_write - done,
        {
            self.buffer[pos] = data[done];
            pos = if pos + 1 == self.capacity {
                0
            } else {
                pos + 1
            };
            done = done + 1;
        }
        self.cursors = Cursors { read_pos, write_pos: pos, available: available + to_write };
        proof {
            let after = self.buffer@;
            let w = write_pos as int;
            let r = read_pos as int;
            assert forall|i: int| 0 <= i < held.len() implies after[#[trigger] slot(r, i, capacity)]
                == before[slot(r, i, capacity)] by {}
            assert forall|i: int| 0 <= i < held.len() + to_write implies self@[i] == (held
                + data@.take(to_write as int))[i] by {
                if i >= held.len() {
                    assert(slot(r, i, capacity) == slot(w, i - held.len(), capacity));
                }
            }
            assert(self@ =~= held + data@.take(to_write as int));
            lemma_wrap_is_mod(w + to_write, capacity);
            assert forall|i: int| 0 <= i < to_write implies self.storage()[(w + i) % capacity]
                == #[trigger] data@[i] by {
                lemma_wrap_is_mod(w + i, capacity);
                assert(after[slot(w, i, capacity)] == data@[i]);
            }
        }
        to_write
    }

    /// Read `size` bytes from the ring: the oldest ones, in the order in
    /// which they were written. Where fewer than `size` bytes are held,
    /// nothing is handed out and the ring stays as it was.
    pub fn read(&mut self, size: usize) -> (bytes: Option<Vec<u8>>)
        ensures
            bytes is Some <==> size <= old(self)@.len(),
            bytes is None ==> *final(self) == *old(self),
            final(self)@ == history::contents_step(
                old(self).spec_capacity(),
                old(self)@,
                history::RingOp::Read(size as nat),
            ),
            bytes is Some ==> bytes->0@ == history::returned_by(
                old(self)@,
                history::RingOp::Read(size as nat),
            ),
            bytes is Some ==> bytes->0@ == old(self)@.take(size as int),
            bytes is Some ==> final(self)@ == old(self)@.skip(size as int),
            final(self).spec_capacity() == old(self).spec_capacity(),
            final(self).storage() == old(self).storage(),
            final(self).write_cursor() == old(self).write_cursor(),
            bytes is Some && old(self).spec_capacity() > 0 ==> final(self).read_cursor()
                == (old(self).read_cursor() + size) % (old(self).spec_capacity() as int),
    {
        proof {
            use_type_invariant(&*self);
        }
        if self.cursors.available < size {
            return None;
        }
        let read_pos = self.cursors.read_pos;
        let write_pos = self.cursors.write_pos;
        let available = self.cursors.available;
        let ghost capacity = self.capacity as int;
        let ghost held = self@;
        let mut output: Vec<u8> = Vec::new();
        let mut pos = read_pos;
        while output.len() < size
            invariant
                output@.len() <= size <= available <= capacity,
                capacity == self.capacity,
                self.buffer@.len() == capacity,
                capacity == 0 ==> pos == 0 && write_pos == 0,
                capacity > 0 ==> read_pos < capacity,
                capacity > 0 ==> write_pos == wrap(read_pos + available, capacity),
                capacity > 0 ==> pos == slot(read_pos as int, output@.len() as int, capacity),
                forall|i: int|
                    0 <= i < output@.len() ==> #[trigger] output@[i] == self.buffer@[slot(
                        read_pos as int,
                        i,
                        capacity,
                    )],
            decreases size - output@.len(),
        {
            output.push(self.buffer[pos]);
            pos = if pos + 1 == self.capacity {
                0
            } else {
                pos + 1
            };
        }
        self.cursors = Cursors { read_pos: pos, write_pos, available: available - size };
        proof {
            let r = read_pos as int;
            if capacity > 0 {
                lemma_wrap_is_mod(r + size, capacity);
            }
            assert forall|i: int| 0 <= i < size implies #[trigger] output@[i] == held[i] by {
                assert(held[i] == self.buffer@[slot(r, i, capacity)]);
            }
            assert(output@ =~= held.take(size as int));
            assert forall|i: int| 0 <= i < held.len() - size implies #[trigger] self@[i]
                == held.skip(size as int)[i] by {
                assert(slot(pos as int, i, capacity) == slot(r, size + i, capacity));
            }
            assert(self@ =~= held.skip(size as int));
        }
        Some(output)
    }
}

} // verus!

//! Pre-event ring buffer: a fixed-capacity cyclic buffer of recent frames.
//! While no recording is active every incoming frame overwrites the oldest
//! slot; on trigger activation the whole buffer is drained in chronological
//! order to seed the new session with its pre-roll.

use vstd::prelude::*;

verus! {

/// A cyclic buffer of capacity `cap`. The backing vector grows until it
/// reaches the capacity; from then on the cursor marks the oldest slot,
/// which the next write overwrites.
pub struct RingBuffer<T> {
    buf: Vec<T>,
    cursor: usize,
    cap: usize,
}

impl<T> RingBuffer<T> {
    /// The fixed capacity the buffer was created with.
    pub closed spec fn capacity(self) -> int {
        self.cap as int
    }

    /// The buffered frames in chronological order, oldest first: until the
    /// buffer has wrapped that is the backing vector itself; afterwards it
    /// is the slice from the cursor to the end, then the slice before the
    /// cursor.
    pub closed spec fn contents(self) -> Seq<T> {
        if self.buf@.len() < self.cap {
            self.buf@
        } else {
            self.buf@.subrange(self.cursor as int, self.cap as int) + self.buf@.subrange(
                0,
                self.cursor as int,
            )
        }
    }

    /// Internal consistency: the vector never exceeds the capacity, and the
    /// cursor sits at the next slot to write — equal to the length while the
    /// buffer is still growing, and anywhere below the capacity once full.
    pub closed spec fn wf(self) -> bool {
        &&& 0 < self.cap
        &&& self.buf@.len() <= self.cap
        &&& (self.buf@.len() < self.cap ==> self.cursor == self.buf@.len())
        &&& self.cursor < self.cap
    }

    pub fn new(capacity: usize) -> (r: RingBuffer<T>)
        requires
            0 < capacity,
        ensures
            r.wf(),
            r.capacity() == capacity,
            r.contents() == Seq::<T>::empty(),
    {
        let r = RingBuffer { buf: Vec::new(), cursor: 0, cap: capacity };
        proof {
            assert(r.contents() =~= Seq::<T>::empty());
        }
        r
    }

    /// How many frames are currently buffered.
    pub fn len(&self) -> (n: usize)
        requires
            self.wf(),
        ensures
            n == self.contents().len(),
    {
        proof {
            if self.buf@.len() >= self.cap {
                assert(self.contents().len() == self.buf@.len());
            }
        }
        self.buf.len()
    }

    /// Writes one frame at the cursor. Until the capacity is reached the
    /// frame is appended and nothing is evicted; afterwards the oldest frame
    /// leaves the buffer and is handed back.
    pub fn push(&mut self, x: T) -> (evicted: Option<T>)
        requires
            old(self).wf(),
        ensures
            final(self).wf(),
            final(self).capacity() == old(self).capacity(),
            old(self).contents().len() < old(self).capacity() ==> {
                &&& final(self).contents() == old(self).contents().push(x)
                &&& evicted is None
            },
            old(self).contents().len() == old(self).capacity() ==> {
                &&& final(self).contents() == old(self).contents().subrange(
                    1,
                    old(self).capacity(),
                ).push(x)
                &&& evicted == Some(old(self).contents()[0])
            },
    {
        if self.buf.len() < self.cap {
            self.buf.push(x);
            self.cursor = self.cursor + 1;
            if self.cursor == self.cap {
                self.cursor = 0;
            }
            proof {
                if self.buf@.len() < self.cap {
                    assert(self.contents() =~= old(self).contents().push(x));
                } else {
                    assert(self.contents() =~= self.buf@.subrange(0, self.cap as int) + Seq::<
                        T,
                    >::empty());
                    assert(self.contents() =~= old(self).contents().push(x));
                }
            }
            None
        } else {
            self.buf.insert(self.cursor, x);
            let evicted = self.buf.remove(self.cursor + 1);
            self.cursor = self.cursor + 1;
            if self.cursor == self.cap {
                self.cursor = 0;
            }
            proof {
                assert(self.contents() =~= old(self).contents().subrange(
                    1,
                    old(self).capacity(),
                ).push(x));
                assert(old(self).contents()[0] == old(self).buf@[old(self).cursor as int]);
            }
            Some(evicted)
        }
    }

    /// Removes and returns every buffered frame in chronological order,
    /// oldest first, leaving the buffer empty.
    pub fn drain(&mut self) -> (out: Vec<T>)
        requires
            old(self).wf(),
        ensures
            final(self).wf(),
            final(self).capacity() == old(self).capacity(),
            out@ == old(self).contents(),
            final(self).contents() == Seq::<T>::empty(),
    {
        let ghost orig = old(self).buf@;
        let ghost cur = old(self).cursor as int;
        let mut out: Vec<T> = Vec::new();
        while self.buf.len() > self.cursor
            invariant
                self.cap == old(self).cap,
                self.cursor == old(self).cursor,
                cur == old(self).cursor as int,
                orig == old(self).buf@,
                out@.len() <= orig.len() - cur,
                self.buf@ == orig.subrange(0, cur) + orig.subrange(cur + out@.len(), orig.len() as int),
                out@ == orig.subrange(cur, cur + out@.len()),
            decreases self.buf@.len(),
        {
            let ghost k = out@.len() as int;
            let x = self.buf.remove(self.cursor);
            out.push(x);
            proof {
                assert(self.buf@ =~= orig.subrange(0, cur) + orig.subrange(
                    cur + k + 1,
                    orig.len() as int,
                ));
                assert(out@ =~= orig.subrange(cur, cur + k + 1));
            }
        }
        proof {
            assert(out@ =~= orig.subrange(cur, orig.len() as int));
            assert(self.buf@ =~= orig.subrange(0, cur));
        }
        let mut front: Vec<T> = Vec::new();
        while self.buf.len() > 0
            invariant
                self.cap == old(self).cap,
                cur <= orig.len(),
                out@ == orig.subrange(cur, orig.len() as int),
                front@.len() <= cur,
                self.buf@ == orig.subrange(front@.len() as int, cur),
                front@ == orig.subrange(0, front@.len() as int),
            decreases self.buf@.len(),
        {
            let ghost m = front@.len() as int;
            let x = self.buf.remove(0);
            front.push(x);
            proof {
                assert(self.buf@ =~= orig.subrange(m + 1, cur));
                assert(front@ =~= orig.subrange(0, m + 1));
            }
        }
        proof {
            assert(front@ =~= orig.subrange(0, cur));
        }
        out.append(&mut front);
        self.cursor = 0;
        proof {
            if orig.len() < old(self).cap {
                assert(cur == orig.len());
                assert(out@ =~= old(self).contents());
            } else {
                assert(out@ =~= old(self).contents());
            }
            assert(self.contents() =~= Seq::<T>::empty());
        }
        out
    }
}

/// The contents after writing the frames of `s`, in order, into an empty
/// buffer of capacity `cap`: exactly the transition that `push` ensures,
/// applied frame by frame.
pub open spec fn after_pushes<T>(s: Seq<T>, cap: int) -> Seq<T>
    decreases s.len(),
{
    if s.len() == 0 {
        Seq::empty()
    } else {
        let p = after_pushes(s.drop_last(), cap);
        if p.len() < cap {
            p.push(s.last())
        } else {
            p.subrange(1, cap).push(s.last())
        }
    }
}

/// Drain-ordering law: whatever fill sequence `s` is written into an empty
/// buffer of capacity `cap`, and wherever the cursor then stands, the buffer
/// holds — and `drain` therefore yields — exactly the most recent
/// `min(len, cap)` frames in the order they were written, oldest first,
/// with no duplicates and no gaps; this covers both the not-yet-full case
/// and the full-and-wrapped case.
pub proof fn lemma_fill_order<T>(s: Seq<T>, cap: int)
    requires
        0 < cap,
    ensures
        after_pushes(s, cap) == if s.len() <= cap {
            s
        } else {
            s.subrange(s.len() - cap, s.len() as int)
        },
    decreases s.len(),
{
    if s.len() == 0 {
        assert(after_pushes(s, cap) =~= s);
    } else {
        lemma_fill_order(s.drop_last(), cap);
        if s.len() <= cap {
            assert(after_pushes(s, cap) =~= s);
        } else {
            assert(after_pushes(s, cap) =~= s.subrange(s.len() - cap, s.len() as int));
        }
    }
}

} // verus!

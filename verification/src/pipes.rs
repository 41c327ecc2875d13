//! In-memory byte pipes backing emulated Unix-domain sockets.  A pipe is
//! owned by the table and named by its index, so the two socket ends can
//! share it; one end writes at the tail, the other reads from the head.

use vstd::prelude::*;

verus! {

/// How many bytes a pipe buffers before a writer would block.
pub const PIPE_CAPACITY: usize = 65536;

#[derive(Debug)]
pub struct PipeBuf {
    pub buf: Vec<u8>,
}

#[derive(Debug)]
pub struct PipeTable {
    pub pipes: Vec<PipeBuf>,
}

pub open spec fn pipes_v(s: Seq<PipeBuf>) -> Seq<Seq<u8>> {
    s.map_values(|p: PipeBuf| p.buf@)
}

impl View for PipeTable {
    type V = Seq<Seq<u8>>;

    open spec fn view(&self) -> Seq<Seq<u8>> {
        pipes_v(self.pipes@)
    }
}

impl PipeTable {
    pub fn new() -> (r: PipeTable)
        ensures
            r@ == Seq::<Seq<u8>>::empty(),
    {
        let r = PipeTable { pipes: Vec::new() };
        proof {
            assert(r@ =~= Seq::<Seq<u8>>::empty());
        }
        r
    }

    /// Two fresh, empty pipes for one connection; their indices name them.
    pub fn create_unix_sockpipes(&mut self) -> (r: (usize, usize))
        ensures
            r.0 == old(self)@.len(),
            r.1 == old(self)@.len() + 1,
            final(self)@.len() == old(self)@.len() + 2,
            final(self)@[r.0 as int] == Seq::<u8>::empty(),
            final(self)@[r.1 as int] == Seq::<u8>::empty(),
            forall|k: int| 0 <= k < old(self)@.len() ==> final(self)@[k] == old(self)@[k],
    {
        let id1 = self.pipes.len();
        self.pipes.push(PipeBuf { buf: Vec::new() });
        let id2 = self.pipes.len();
        self.pipes.push(PipeBuf { buf: Vec::new() });
        proof {
            assert(self@.len() == self.pipes@.len());
            assert(self@[id1 as int] =~= Seq::<u8>::empty());
            assert(self@[id2 as int] =~= Seq::<u8>::empty());
        }
        (id1, id2)
    }

    /// Append up to `count` bytes of `buf` to the pipe; a pipe too full to
    /// take them all at once asks the caller to come back.
    pub fn write_to_pipe(&mut self, id: usize, buf: &Vec<u8>, count: usize) -> (r: i32)
        requires
            id < old(self)@.len(),
            count <= buf@.len(),
        ensures
            final(self)@.len() == old(self)@.len(),
            forall|k: int|
                0 <= k < old(self)@.len() && k != id ==> final(self)@[k] == old(self)@[k],
            if old(self)@[id as int].len() + count <= PIPE_CAPACITY as nat {
                &&& r == count
                &&& final(self)@[id as int] == old(self)@[id as int] + buf@.take(count as int)
            } else {
                &&& r == -(crate::errnos::EAGAIN as i32)
                &&& final(self)@[id as int] == old(self)@[id as int]
            },
    {
        let cur_len = self.pipes[id].buf.len();
        if count > PIPE_CAPACITY || cur_len > PIPE_CAPACITY - count {
            proof {
                assert(self@[id as int] == self.pipes@[id as int].buf@);
            }
            return -crate::errnos::EAGAIN;
        }
        let ghost p0 = self@;
        let mut p = self.pipes.remove(id);
        let mut k: usize = 0;
        while k < count
            invariant
                k <= count,
                count <= buf@.len(),
                p.buf@ == p0[id as int] + buf@.take(k as int),
            decreases count - k,
        {
            p.buf.push(buf[k]);
            proof {
                assert(p0[id as int] + buf@.take(k + 1 as int) =~= (p0[id as int] + buf@.take(
                    k as int,
                )).push(buf@[k as int]));
            }
            k = k + 1;
        }
        self.pipes.insert(id, p);
        proof {
            assert(self.pipes@ =~= old(self).pipes@.update(
                id as int,
                self.pipes@[id as int],
            ));
            assert forall|k2: int| 0 <= k2 < p0.len() && k2 != id implies self@[k2] == p0[k2] by {
                assert(self.pipes@[k2] == old(self).pipes@[k2]);
            }
            assert(self@[id as int] == p0[id as int] + buf@.take(count as int));
        }
        count as i32
    }

    /// Move up to `count` bytes from the head of the pipe into `buf`; an
    /// empty pipe asks the caller to come back.
    pub fn read_from_pipe(&mut self, id: usize, buf: &mut Vec<u8>, count: usize) -> (r: i32)
        requires
            id < old(self)@.len(),
            count <= PIPE_CAPACITY,
        ensures
            final(self)@.len() == old(self)@.len(),
            forall|k: int|
                0 <= k < old(self)@.len() && k != id ==> final(self)@[k] == old(self)@[k],
            if old(self)@[id as int].len() == 0 {
                &&& r == -(crate::errnos::EAGAIN as i32)
                &&& final(self)@[id as int] == old(self)@[id as int]
                &&& final(buf)@ == old(buf)@
            } else {
                let n = if count <= old(self)@[id as int].len() {
                    count as int
                } else {
                    old(self)@[id as int].len() as int
                };
                &&& r == n
                &&& final(buf)@ == old(self)@[id as int].take(n)
                &&& final(self)@[id as int] == old(self)@[id as int].skip(n)
            },
    {
        let ghost p0 = self@;
        let avail = self.pipes[id].buf.len();
        proof {
            assert(self@[id as int] == self.pipes@[id as int].buf@);
        }
        if avail == 0 {
            return -crate::errnos::EAGAIN;
        }
        let n = if count <= avail {
            count
        } else {
            avail
        };
        let mut p = self.pipes.remove(id);
        buf.clear();
        let mut k: usize = 0;
        while k < n
            invariant
                k <= n,
                n <= p.buf@.len(),
                p.buf@ == p0[id as int],
                buf@ == p0[id as int].take(k as int),
            decreases n - k,
        {
            buf.push(p.buf[k]);
            proof {
                assert(p0[id as int].take(k + 1 as int) =~= p0[id as int].take(k as int).push(
                    p0[id as int][k as int],
                ));
            }
            k = k + 1;
        }
        // drop the consumed prefix
        let mut rest: Vec<u8> = Vec::new();
        let mut k2: usize = n;
        while k2 < p.buf.len()
            invariant
                n <= k2 <= p.buf@.len(),
                p.buf@ == p0[id as int],
                rest@ == p0[id as int].subrange(n as int, k2 as int),
            decreases p.buf@.len() - k2,
        {
            rest.push(p.buf[k2]);
            proof {
                assert(p0[id as int].subrange(n as int, k2 + 1 as int) =~= p0[id as int].subrange(
                    n as int,
                    k2 as int,
                ).push(p0[id as int][k2 as int]));
            }
            k2 = k2 + 1;
        }
        p.buf = rest;
        self.pipes.insert(id, p);
        proof {
            assert(p0[id as int].subrange(n as int, p0[id as int].len() as int) =~= p0[
                id as int].skip(n as int));
            assert forall|j: int| 0 <= j < p0.len() && j != id implies self@[j] == p0[j] by {
                assert(self.pipes@[j] == old(self).pipes@[j]);
            }
            assert(self@[id as int] == p0[id as int].skip(n as int));
        }
        n as i32
    }

    /// Whether a read would find data.
    pub fn check_select_read(&self, id: usize) -> (r: bool)
        requires
            id < self@.len(),
        ensures
            r == (self@[id as int].len() > 0),
    {
        proof {
            assert(self@[id as int] == self.pipes@[id as int].buf@);
        }
        self.pipes[id].buf.len() > 0
    }

    /// Whether a write of at least one byte would go through.
    pub fn check_select_write(&self, id: usize) -> (r: bool)
        requires
            id < self@.len(),
        ensures
            r == (self@[id as int].len() < PIPE_CAPACITY as nat),
    {
        proof {
            assert(self@[id as int] == self.pipes@[id as int].buf@);
        }
        self.pipes[id].buf.len() < PIPE_CAPACITY
    }
}

/// What one end sends through a fresh pipe is exactly what the other end
/// then receives: writing `x` into an empty pipe and reading `x.len()`
/// bytes yields `x` and drains the pipe.
pub proof fn lemma_pipe_echo(p0: Seq<u8>, x: Seq<u8>)
    requires
        p0.len() == 0,
    ensures
        (p0 + x).take(x.len() as int) == x,
        (p0 + x).skip(x.len() as int) == Seq::<u8>::empty(),
{
    assert((p0 + x).take(x.len() as int) =~= x);
    assert((p0 + x).skip(x.len() as int) =~= Seq::<u8>::empty());
}

} // verus!

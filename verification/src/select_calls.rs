//! Readiness multiplexing: select over mixed descriptor kinds, poll built
//! from the same readiness tests, and epoll over a registration table.
//!
//! Readiness of emulated Unix-domain sockets and pipes is decided from the
//! in-memory state; for inet sockets the caller passes in which raw kernel
//! descriptors the host kernel reported readable or writable, and the
//! answer is verified for every such report.

use crate::cage::{cage_wf, Cage, FileDescriptor};
use crate::errnos::{syscall_error, EBADF, EEXIST, EINTR, EINVAL, ENOENT};
use crate::net_types::{
    ConnState, SocketDesc, SocketHandle, AF_UNIX, EPOLLERR, EPOLLIN, EPOLLOUT, EPOLL_CTL_ADD,
    EPOLL_CTL_DEL, EPOLL_CTL_MOD, FD_SET_MAX_FD, POLLERR, POLLIN, POLLOUT, STARTINGFD,
};
use crate::paths::{convpath, normpath};
use crate::types::{EpollEvent, PollStruct};
use vstd::prelude::*;

verus! {

/// A set of descriptor numbers below `FD_SET_MAX_FD`.
#[derive(Debug)]
pub struct FdSet {
    pub bits: Vec<bool>,
}

impl View for FdSet {
    type V = Seq<bool>;

    open spec fn view(&self) -> Seq<bool> {
        self.bits@
    }
}

pub open spec fn fdset_wf(s: FdSet) -> bool {
    s.bits@.len() == FD_SET_MAX_FD
}

impl FdSet {
    pub fn new() -> (r: FdSet)
        ensures
            fdset_wf(r),
            forall|j: int| 0 <= j < r@.len() ==> !r@[j],
    {
        let mut bits: Vec<bool> = Vec::new();
        let mut i: usize = 0;
        while i < FD_SET_MAX_FD as usize
            invariant
                i <= FD_SET_MAX_FD as usize,
                bits@.len() == i,
                forall|j: int| 0 <= j < i ==> !bits@[j],
            decreases FD_SET_MAX_FD as usize - i,
        {
            bits.push(false);
            i = i + 1;
        }
        FdSet { bits }
    }

    pub fn set(&mut self, fd: i32)
        requires
            fdset_wf(*old(self)),
            0 <= fd < FD_SET_MAX_FD,
        ensures
            fdset_wf(*final(self)),
            final(self)@ == old(self)@.update(fd as int, true),
    {
        let idx = fd as usize;
        self.bits.remove(idx);
        self.bits.insert(idx, true);
        proof {
            assert(self.bits@ =~= old(self).bits@.update(fd as int, true));
        }
    }

    pub fn is_set(&self, fd: i32) -> (r: bool)
        requires
            fdset_wf(*self),
            0 <= fd < FD_SET_MAX_FD,
        ensures
            r == self@[fd as int],
    {
        self.bits[fd as usize]
    }

    pub fn is_empty(&self) -> (r: bool)
        ensures
            r == (forall|j: int| 0 <= j < self@.len() ==> !self@[j]),
    {
        let mut i: usize = 0;
        while i < self.bits.len()
            invariant
                i <= self.bits@.len(),
                forall|j: int| 0 <= j < i ==> !self.bits@[j],
            decreases self.bits@.len() - i,
        {
            if self.bits[i] {
                proof {
                    assert(self@[i as int]);
                }
                return false;
            }
            i = i + 1;
        }
        true
    }
}

/// Whether the descriptor at `fd` would read without blocking, as a
/// function of the cage's state and the kernel's readiness report.
pub open spec fn read_ready_spec(c: Cage, fd: int, kernel: Seq<bool>) -> bool {
    match c.fdtable@[fd] {
        Some(FileDescriptor::Socket(d)) => {
            if d.handle.domain == AF_UNIX {
                if d.handle.state == ConnState::LISTEN {
                    match d.handle.localaddr {
                        Some(la) => la@ is Unix && crate::net_types::accept_table_index(
                            c.net.domsock_accept_table@,
                            crate::paths::PathV {
                                absolute: true,
                                comps: crate::net_calls::truepath_comps(
                                    c.cwd@.comps,
                                    la@->Unix_0.path,
                                ),
                            },
                        ) != -1,
                        None => false,
                    }
                } else if d.handle.state == ConnState::CONNECTED {
                    match d.handle.unix_info {
                        Some(u) => match u.receivepipe {
                            Some(p) => c.pipes@[p as int].len() > 0,
                            None => false,
                        },
                        None => false,
                    }
                } else {
                    false
                }
            } else {
                d.rawfd >= 0 && d.rawfd < FD_SET_MAX_FD && kernel[d.rawfd as int]
            }
        },
        Some(FileDescriptor::Stream(_)) => false,
        Some(FileDescriptor::Pipe(p)) => c.pipes@[p.pipe as int].len() > 0,
        Some(_) => true,
        None => false,
    }
}

/// Whether the descriptor at `fd` would write without blocking.
pub open spec fn write_ready_spec(c: Cage, fd: int) -> bool {
    match c.fdtable@[fd] {
        Some(FileDescriptor::Pipe(p)) => c.pipes@[p.pipe as int].len()
            < crate::pipes::PIPE_CAPACITY as nat,
        Some(_) => true,
        None => false,
    }
}

/// How many set bits below `nfds` name a read-ready descriptor.
pub open spec fn count_read_ready(c: Cage, rs: Seq<bool>, kernel: Seq<bool>, n: int) -> int
    decreases n,
{
    if n <= 0 {
        0
    } else {
        count_read_ready(c, rs, kernel, n - 1) + if rs[n - 1] && read_ready_spec(
            c,
            n - 1,
            kernel,
        ) {
            1int
        } else {
            0int
        }
    }
}

/// How many set bits below `nfds` name a write-ready descriptor.
pub open spec fn count_write_ready(c: Cage, ws: Seq<bool>, n: int) -> int
    decreases n,
{
    if n <= 0 {
        0
    } else {
        count_write_ready(c, ws, n - 1) + if ws[n - 1] && write_ready_spec(c, n - 1) {
            1int
        } else {
            0int
        }
    }
}

/// Whether a registered descriptor number still names a live slot.
pub open spec fn epoll_alive(t: Seq<Option<FileDescriptor>>, rfd: i32) -> bool {
    0 <= rfd < t.len() && t[rfd as int] is Some
}

/// The registrations that survive one epoll wait: those whose descriptors
/// are still open, in order.
pub open spec fn prune_regs(
    t: Seq<Option<FileDescriptor>>,
    s: Seq<(i32, EpollEvent)>,
) -> Seq<(i32, EpollEvent)>
    decreases s.len(),
{
    if s.len() == 0 {
        Seq::empty()
    } else if epoll_alive(t, s[0].0) {
        seq![s[0]] + prune_regs(t, s.skip(1))
    } else {
        prune_regs(t, s.skip(1))
    }
}

/// No descriptor number is registered twice with one epoll instance.
pub open spec fn epoll_regs_unique(s: Seq<(i32, EpollEvent)>) -> bool {
    forall|a: int, b: int| 0 <= a < b < s.len() ==> s[a].0 != s[b].0
}

/// A descriptor number that matches no registration has no index.
pub proof fn lemma_epoll_index_of_absent(s: Seq<(i32, EpollEvent)>, fd: i32)
    requires
        forall|j: int| 0 <= j < s.len() ==> (#[trigger] s[j]).0 != fd,
    ensures
        epoll_index_of(s, fd) == -1,
    decreases s.len(),
{
    if s.len() > 0 {
        assert forall|j: int| 0 <= j < s.skip(1).len() implies (#[trigger] s.skip(1)[j]).0
            != fd by {
            assert(s.skip(1)[j] == s[j + 1]);
        }
        lemma_epoll_index_of_absent(s.skip(1), fd);
    }
}

/// Everything the prune keeps was registered before it.
pub proof fn lemma_prune_membership(t: Seq<Option<FileDescriptor>>, s: Seq<(i32, EpollEvent)>)
    ensures
        forall|j: int|
            0 <= j < prune_regs(t, s).len() ==> exists|i: int|
                0 <= i < s.len() && s[i] == #[trigger] prune_regs(t, s)[j],
    decreases s.len(),
{
    if s.len() > 0 {
        lemma_prune_membership(t, s.skip(1));
        assert forall|j: int| 0 <= j < prune_regs(t, s).len() implies exists|i: int|
            0 <= i < s.len() && s[i] == #[trigger] prune_regs(t, s)[j] by {
            if epoll_alive(t, s[0].0) && j == 0 {
                assert(s[0] == prune_regs(t, s)[0]);
            } else {
                let j2 = if epoll_alive(t, s[0].0) {
                    j - 1
                } else {
                    j
                };
                assert(prune_regs(t, s)[j] == prune_regs(t, s.skip(1))[j2]);
                let i2 = choose|i2: int|
                    0 <= i2 < s.skip(1).len() && s.skip(1)[i2] == prune_regs(t, s.skip(1))[j2];
                assert(s[i2 + 1] == prune_regs(t, s)[j]);
            }
        }
    }
}

/// The prune keeps at most one registration per descriptor number.
pub proof fn lemma_prune_unique(t: Seq<Option<FileDescriptor>>, s: Seq<(i32, EpollEvent)>)
    requires
        epoll_regs_unique(s),
    ensures
        epoll_regs_unique(prune_regs(t, s)),
    decreases s.len(),
{
    if s.len() > 0 {
        assert(epoll_regs_unique(s.skip(1)));
        lemma_prune_unique(t, s.skip(1));
        lemma_prune_membership(t, s.skip(1));
        if epoll_alive(t, s[0].0) {
            let p = prune_regs(t, s);
            assert forall|a: int, b: int| 0 <= a < b < p.len() implies p[a].0 != p[b].0 by {
                if a == 0 {
                    let rest = prune_regs(t, s.skip(1));
                    assert(p[b] == rest[b - 1]);
                    let i2 = choose|i2: int|
                        0 <= i2 < s.skip(1).len() && s.skip(1)[i2] == rest[b - 1];
                    assert(s[0].0 != s[i2 + 1].0);
                } else {
                    assert(p[a] == prune_regs(t, s.skip(1))[a - 1]);
                    assert(p[b] == prune_regs(t, s.skip(1))[b - 1]);
                }
            }
        }
    }
}

/// The events one registration earns: its requested-and-ready read and
/// write interests, with an error report riding along with any readiness
/// when asked for; a dead or out-of-range descriptor earns nothing.
pub open spec fn epoll_mask_spec(
    c: Cage,
    rfd: i32,
    req: u32,
    kernel_r: Seq<bool>,
    kernel_w: Seq<bool>,
) -> u32 {
    if rfd < 0 || rfd >= FD_SET_MAX_FD || rfd >= c.fdtable@.len() || c.fdtable@[rfd as int]
        is None {
        0
    } else {
        let m0: u32 = 0;
        let ma: u32 = if req & EPOLLIN > 0 && read_ready_spec(c, rfd as int, kernel_r) {
            m0 | EPOLLIN
        } else {
            m0
        };
        let mb: u32 = if req & EPOLLOUT > 0 && write_ready_spec(c, rfd as int) {
            ma | EPOLLOUT
        } else {
            ma
        };
        if mb != 0 && req & EPOLLERR > 0 {
            mb | EPOLLERR
        } else {
            mb
        }
    }
}

/// Everything the prune keeps is still open.
pub proof fn lemma_prune_alive(t: Seq<Option<FileDescriptor>>, s: Seq<(i32, EpollEvent)>)
    ensures
        forall|j: int|
            0 <= j < prune_regs(t, s).len() ==> epoll_alive(
                t,
                (#[trigger] prune_regs(t, s)[j]).0,
            ),
    decreases s.len(),
{
    if s.len() > 0 {
        lemma_prune_alive(t, s.skip(1));
        assert forall|j: int| 0 <= j < prune_regs(t, s).len() implies epoll_alive(
            t,
            (#[trigger] prune_regs(t, s)[j]).0,
        ) by {
            if epoll_alive(t, s[0].0) {
                if j > 0 {
                    assert(prune_regs(t, s)[j] == prune_regs(t, s.skip(1))[j - 1]);
                }
            } else {
                assert(prune_regs(t, s)[j] == prune_regs(t, s.skip(1))[j]);
            }
        }
    }
}

/// How many of the first `n` registrations earn a nonzero mask.
pub open spec fn count_epoll_ready(
    c: Cage,
    regs: Seq<(i32, EpollEvent)>,
    kernel_r: Seq<bool>,
    kernel_w: Seq<bool>,
    n: int,
) -> int
    decreases n,
{
    if n <= 0 {
        0
    } else {
        count_epoll_ready(c, regs, kernel_r, kernel_w, n - 1) + if epoll_mask_spec(
            c,
            regs[n - 1].0,
            regs[n - 1].1.events,
            kernel_r,
            kernel_w,
        ) != 0 {
            1int
        } else {
            0int
        }
    }
}

/// Two cages that give every listed registration the same mask count the
/// same number of ready ones.
pub proof fn lemma_count_epoll_congruence(
    c1: Cage,
    c2: Cage,
    regs: Seq<(i32, EpollEvent)>,
    kernel_r: Seq<bool>,
    kernel_w: Seq<bool>,
    n: int,
)
    requires
        forall|i: int|
            0 <= i < n ==> #[trigger] epoll_mask_spec(c1, regs[i].0, regs[i].1.events, kernel_r, kernel_w)
                == epoll_mask_spec(c2, regs[i].0, regs[i].1.events, kernel_r, kernel_w),
    ensures
        count_epoll_ready(c1, regs, kernel_r, kernel_w, n) == count_epoll_ready(
            c2,
            regs,
            kernel_r,
            kernel_w,
            n,
        ),
    decreases n,
{
    if n > 0 {
        lemma_count_epoll_congruence(c1, c2, regs, kernel_r, kernel_w, n - 1);
    }
}

/// Counting over a longer prefix never counts less.
pub proof fn lemma_count_epoll_ready_mono(
    c: Cage,
    regs: Seq<(i32, EpollEvent)>,
    kernel_r: Seq<bool>,
    kernel_w: Seq<bool>,
    n: int,
    m: int,
)
    requires
        0 <= n <= m,
    ensures
        count_epoll_ready(c, regs, kernel_r, kernel_w, n) <= count_epoll_ready(
            c,
            regs,
            kernel_r,
            kernel_w,
            m,
        ),
    decreases m,
{
    if m > n {
        lemma_count_epoll_ready_mono(c, regs, kernel_r, kernel_w, n, m - 1);
    }
}

/// Whether some set bit below `nfds` names an empty descriptor slot.
pub open spec fn fdset_has_bad(c: Cage, s: Seq<bool>, nfds: int) -> bool {
    exists|f: int| 0 <= f < nfds && s[f] && c.fdtable@[f] is None
}

pub open spec fn opt_fdset_has_bad(c: Cage, o: Option<FdSet>, nfds: int) -> bool {
    match o {
        Some(s) => fdset_has_bad(c, s@, nfds),
        None => false,
    }
}

/// The revents one poll entry earns: requested-and-ready read and write
/// bits, with an error bit echoed alongside any readiness when asked for.
pub open spec fn poll_mask_spec(
    c: Cage,
    ps: PollStruct,
    kernel_r: Seq<bool>,
    kernel_w: Seq<bool>,
) -> i16 {
    if ps.fd < 0 || ps.fd >= FD_SET_MAX_FD {
        0
    } else {
        let m1: i16 = if ps.events & POLLIN > 0 && read_ready_spec(c, ps.fd as int, kernel_r) {
            POLLIN
        } else {
            0
        };
        let m2: i16 = if ps.events & POLLOUT > 0 && write_ready_spec(c, ps.fd as int) {
            POLLOUT
        } else {
            0
        };
        if m1 + m2 != 0 && ps.events & POLLERR > 0 {
            (m1 + m2 + POLLERR) as i16
        } else {
            (m1 + m2) as i16
        }
    }
}

/// How many of the first `n` poll entries earn a nonzero mask.
pub open spec fn count_poll_ready(
    c: Cage,
    fds: Seq<PollStruct>,
    kernel_r: Seq<bool>,
    kernel_w: Seq<bool>,
    n: int,
) -> int
    decreases n,
{
    if n <= 0 {
        0
    } else {
        count_poll_ready(c, fds, kernel_r, kernel_w, n - 1) + if poll_mask_spec(
            c,
            fds[n - 1],
            kernel_r,
            kernel_w,
        ) != 0 {
            1int
        } else {
            0int
        }
    }
}

/// Whether a poll entry asks about an empty descriptor slot.
pub open spec fn poll_entry_bad(c: Cage, ps: PollStruct) -> bool {
    &&& 0 <= ps.fd < FD_SET_MAX_FD
    &&& (ps.events & POLLIN > 0 || ps.events & POLLOUT > 0)
    &&& c.fdtable@[ps.fd as int] is None
}

/// The first epoll registration for `fd`, or -1.
pub open spec fn epoll_index_of(s: Seq<(i32, EpollEvent)>, fd: i32) -> int
    decreases s.len(),
{
    if s.len() == 0 {
        -1
    } else if s[0].0 == fd {
        0
    } else {
        let r = epoll_index_of(s.skip(1), fd);
        if r == -1 {
            -1
        } else {
            1 + r
        }
    }
}

pub proof fn lemma_epoll_index_of(s: Seq<(i32, EpollEvent)>, fd: i32)
    ensures
        epoll_index_of(s, fd) == -1 ==> forall|j: int| 0 <= j < s.len() ==> s[j].0 != fd,
        epoll_index_of(s, fd) != -1 ==> {
            let i = epoll_index_of(s, fd);
            &&& 0 <= i < s.len()
            &&& s[i].0 == fd
            &&& forall|j: int| 0 <= j < i ==> s[j].0 != fd
        },
    decreases s.len(),
{
    if s.len() > 0 && s[0].0 != fd {
        lemma_epoll_index_of(s.skip(1), fd);
        let r = epoll_index_of(s.skip(1), fd);
        if r == -1 {
            assert forall|j: int| 0 <= j < s.len() implies s[j].0 != fd by {
                if j > 0 {
                    assert(s.skip(1)[j - 1].0 != fd);
                }
            }
        } else {
            assert(s[1 + r] == s.skip(1)[r]);
            assert forall|j: int| 0 <= j < 1 + r implies s[j].0 != fd by {
                if j > 0 {
                    assert(s.skip(1)[j - 1].0 != fd);
                }
            }
        }
    }
}

impl Cage {
    /// Whether one descriptor would read without blocking: a listening
    /// Unix-domain socket with a connector waiting, a connected one with
    /// data in its pipe, an inet socket the kernel reported readable, a
    /// pipe with data, or a regular file.
    pub fn fd_read_ready(&self, fd: i32, kernel_ready: &FdSet) -> (r: Result<bool, i32>)
        requires
            cage_wf(*self),
            fdset_wf(*kernel_ready),
            0 <= fd < FD_SET_MAX_FD,
        ensures
            r matches Err(e) ==> e == -(EBADF as i32) && self.fdtable@[fd as int] is None,
            self.fdtable@[fd as int] is None ==> (r matches Err(e2) && e2 == -(EBADF as i32)),
            self.fdtable@[fd as int] is Some ==> r == Ok::<bool, i32>(
                read_ready_spec(*self, fd as int, kernel_ready@),
            ),
    {
        let entry = match &self.fdtable[fd as usize] {
            Some(e) => e,
            None => {
                return Err(syscall_error(EBADF));
            },
        };
        match entry {
            FileDescriptor::Socket(d) => {
                if d.handle.domain == AF_UNIX {
                    if d.handle.state == ConnState::LISTEN {
                        match &d.handle.localaddr {
                            Some(la) => match la {
                                crate::net_types::GenSockaddr::Unix(_) => {
                                    let parsed = convpath(la.path());
                                    let lp = normpath(&parsed, &self.cwd);
                                    Ok(self.net.accept_table_find(&lp).is_some())
                                },
                                _ => Ok(false),
                            },
                            None => Ok(false),
                        }
                    } else if d.handle.state == ConnState::CONNECTED {
                        match &d.handle.unix_info {
                            Some(u) => match u.receivepipe {
                                Some(p) => Ok(self.pipes.check_select_read(p)),
                                None => Ok(false),
                            },
                            None => Ok(false),
                        }
                    } else {
                        Ok(false)
                    }
                } else {
                    if d.rawfd >= 0 && d.rawfd < FD_SET_MAX_FD {
                        Ok(kernel_ready.is_set(d.rawfd))
                    } else {
                        Ok(false)
                    }
                }
            },
            FileDescriptor::Stream(_) => Ok(false),
            FileDescriptor::Pipe(p) => Ok(self.pipes.check_select_read(p.pipe)),
            _ => Ok(true),
        }
    }

    /// Whether one descriptor would write without blocking: sockets,
    /// streams and files always, pipes only with room.
    pub fn fd_write_ready(&self, fd: i32, kernel_ready: &FdSet) -> (r: Result<bool, i32>)
        requires
            cage_wf(*self),
            fdset_wf(*kernel_ready),
            0 <= fd < FD_SET_MAX_FD,
        ensures
            r matches Err(e) ==> e == -(EBADF as i32) && self.fdtable@[fd as int] is None,
            self.fdtable@[fd as int] is None ==> (r matches Err(e2) && e2 == -(EBADF as i32)),
            self.fdtable@[fd as int] is Some ==> r == Ok::<bool, i32>(
                write_ready_spec(*self, fd as int),
            ),
    {
        let entry = match &self.fdtable[fd as usize] {
            Some(e) => e,
            None => {
                return Err(syscall_error(EBADF));
            },
        };
        match entry {
            FileDescriptor::Socket(_) => Ok(true),
            FileDescriptor::Stream(_) => Ok(true),
            FileDescriptor::Pipe(p) => Ok(self.pipes.check_select_write(p.pipe)),
            _ => Ok(true),
        }
    }

    /// Whether some set bit below `nfds` names an empty descriptor slot.
    fn fdset_bad_below(&self, s: &FdSet, nfds: i32) -> (r: bool)
        requires
            cage_wf(*self),
            fdset_wf(*s),
            STARTINGFD <= nfds <= FD_SET_MAX_FD,
        ensures
            r == fdset_has_bad(*self, s@, nfds as int),
    {
        let mut fd: i32 = 0;
        while fd < nfds
            invariant
                cage_wf(*self),
                0 <= fd <= nfds <= FD_SET_MAX_FD,
                fdset_wf(*s),
                forall|f: int| 0 <= f < fd ==> !(s@[f] && self.fdtable@[f] is None),
            decreases nfds - fd,
        {
            if s.is_set(fd) {
                if self.fdtable[fd as usize].is_none() {
                    return true;
                }
            }
            fd = fd + 1;
        }
        false
    }

    /// One pass over the read set: mark what is ready and count it.
    pub fn select_readfds(
        &self,
        nfds: i32,
        readfds: &FdSet,
        new_readfds: &mut FdSet,
        retval: &mut i32,
        kernel_ready: &FdSet,
    ) -> (r: i32)
        requires
            cage_wf(*self),
            fdset_wf(*readfds),
            fdset_wf(*old(new_readfds)),
            fdset_wf(*kernel_ready),
            STARTINGFD <= nfds <= FD_SET_MAX_FD,
            0 <= *old(retval),
            *old(retval) <= FD_SET_MAX_FD * 2,
        ensures
            fdset_wf(*final(new_readfds)),
            r == 0 || r == -(EBADF as i32),
            r == 0 ==> *final(retval) >= *old(retval),
            *final(retval) <= *old(retval) + nfds,
            r == 0 ==> (forall|f: int|
                0 <= f < nfds ==> #[trigger] final(new_readfds)@[f] == (old(new_readfds)@[f] || (
                readfds@[f] && read_ready_spec(*self, f, kernel_ready@)))),
            r == 0 ==> (forall|f: int|
                nfds <= f < FD_SET_MAX_FD ==> #[trigger] final(new_readfds)@[f] == old(new_readfds)@[f]),
            (r == -(EBADF as i32)) <==> fdset_has_bad(*self, readfds@, nfds as int),
            r == 0 ==> *final(retval) == *old(retval) + count_read_ready(
                *self,
                readfds@,
                kernel_ready@,
                nfds as int,
            ),
    {
        let ghost new0 = new_readfds@;
        let mut fd: i32 = 0;
        while fd < nfds
            invariant
                cage_wf(*self),
                fdset_wf(*readfds),
                fdset_wf(*new_readfds),
                fdset_wf(*kernel_ready),
                0 <= fd <= nfds <= FD_SET_MAX_FD,
                *old(retval) >= 0,
                *old(retval) <= FD_SET_MAX_FD * 2,
                *old(retval) <= *retval <= *old(retval) + fd,
                new0.len() == FD_SET_MAX_FD,
                forall|f: int|
                    0 <= f < fd ==> #[trigger] new_readfds@[f] == (new0[f] || (readfds@[f]
                        && read_ready_spec(*self, f, kernel_ready@))),
                forall|f: int| fd <= f < FD_SET_MAX_FD ==> #[trigger] new_readfds@[f] == new0[f],
                forall|f: int| 0 <= f < fd ==> !(readfds@[f] && self.fdtable@[f] is None),
                *retval == *old(retval) + count_read_ready(
                    *self,
                    readfds@,
                    kernel_ready@,
                    fd as int,
                ),
            decreases nfds - fd,
        {
            if readfds.is_set(fd) {
                let ready = match self.fd_read_ready(fd, kernel_ready) {
                    Err(e) => {
                        return e;
                    },
                    Ok(b) => b,
                };
                proof {
                    assert(ready == read_ready_spec(*self, fd as int, kernel_ready@));
                }
                if ready {
                    new_readfds.set(fd);
                    *retval = *retval + 1;
                }
                proof {
                    assert(new_readfds@[fd as int] == (new0[fd as int] || (readfds@[fd as int]
                        && read_ready_spec(*self, fd as int, kernel_ready@))));
                }
            } else {
                proof {
                    assert(new_readfds@[fd as int] == new0[fd as int]);
                }
            }
            fd = fd + 1;
        }
        0
    }

    /// One pass over the write set.
    pub fn select_writefds(
        &self,
        nfds: i32,
        writefds: &FdSet,
        new_writefds: &mut FdSet,
        retval: &mut i32,
        kernel_ready: &FdSet,
    ) -> (r: i32)
        requires
            cage_wf(*self),
            fdset_wf(*writefds),
            fdset_wf(*old(new_writefds)),
            fdset_wf(*kernel_ready),
            STARTINGFD <= nfds <= FD_SET_MAX_FD,
            0 <= *old(retval),
            *old(retval) <= FD_SET_MAX_FD * 2,
        ensures
            fdset_wf(*final(new_writefds)),
            r == 0 || r == -(EBADF as i32),
            r == 0 ==> *final(retval) >= *old(retval),
            *final(retval) <= *old(retval) + nfds,
            r == 0 ==> (forall|f: int|
                0 <= f < nfds ==> #[trigger] final(new_writefds)@[f] == (old(new_writefds)@[f]
                    || (writefds@[f] && write_ready_spec(*self, f)))),
            r == 0 ==> (forall|f: int|
                nfds <= f < FD_SET_MAX_FD ==> #[trigger] final(new_writefds)@[f] == old(new_writefds)@[f]),
            (r == -(EBADF as i32)) <==> fdset_has_bad(*self, writefds@, nfds as int),
            r == 0 ==> *final(retval) == *old(retval) + count_write_ready(
                *self,
                writefds@,
                nfds as int,
            ),
    {
        let ghost new0 = new_writefds@;
        let mut fd: i32 = 0;
        while fd < nfds
            invariant
                cage_wf(*self),
                fdset_wf(*writefds),
                fdset_wf(*new_writefds),
                fdset_wf(*kernel_ready),
                0 <= fd <= nfds <= FD_SET_MAX_FD,
                *old(retval) >= 0,
                *old(retval) <= FD_SET_MAX_FD * 2,
                *old(retval) <= *retval <= *old(retval) + fd,
                new0.len() == FD_SET_MAX_FD,
                forall|f: int|
                    0 <= f < fd ==> #[trigger] new_writefds@[f] == (new0[f] || (writefds@[f]
                        && write_ready_spec(*self, f))),
                forall|f: int| fd <= f < FD_SET_MAX_FD ==> #[trigger] new_writefds@[f] == new0[f],
                forall|f: int| 0 <= f < fd ==> !(writefds@[f] && self.fdtable@[f] is None),
                *retval == *old(retval) + count_write_ready(*self, writefds@, fd as int),
            decreases nfds - fd,
        {
            if writefds.is_set(fd) {
                let ready = match self.fd_write_ready(fd, kernel_ready) {
                    Err(e) => {
                        return e;
                    },
                    Ok(b) => b,
                };
                proof {
                    assert(ready == write_ready_spec(*self, fd as int));
                }
                if ready {
                    new_writefds.set(fd);
                    *retval = *retval + 1;
                }
                proof {
                    assert(new_writefds@[fd as int] == (new0[fd as int] || (writefds@[fd as int]
                        && write_ready_spec(*self, fd as int))));
                }
            } else {
                proof {
                    assert(new_writefds@[fd as int] == new0[fd as int]);
                }
            }
            fd = fd + 1;
        }
        0
    }

    /// The connect-completion step a blocking select performs between
    /// passes: a socket whose connect was still in progress becomes
    /// connected once the host kernel reports its descriptor writable.
    /// Every other descriptor, and every other part of the cage, is left
    /// alone.
    pub fn upgrade_inprogress(&mut self, fd: i32, kernel_writable: bool) -> (r: bool)
        requires
            cage_wf(*old(self)),
        ensures
            cage_wf(*final(self)),
            final(self).fs == old(self).fs,
            final(self).net == old(self).net,
            final(self).pipes == old(self).pipes,
            final(self).cwd == old(self).cwd,
            final(self).fdtable@.len() == old(self).fdtable@.len(),
            forall|j: int|
                0 <= j < old(self).fdtable@.len() && j != fd ==> final(self).fdtable@[j] == old(self).fdtable@[j],
            ({
                let upgraded = 0 <= fd < old(self).fdtable@.len() && (old(self).fdtable@[
                    fd as int] matches Some(FileDescriptor::Socket(d)) && d.handle.state
                    == ConnState::INPROGRESS) && kernel_writable;
                &&& r == upgraded
                &&& (upgraded ==> (old(self).fdtable@[fd as int] matches Some(
                    FileDescriptor::Socket(d),
                ) ==> final(self).fdtable@[fd as int] == Some(
                    FileDescriptor::Socket(
                        SocketDesc {
                            handle: SocketHandle { state: ConnState::CONNECTED, ..d.handle },
                            ..d
                        },
                    ),
                )))
                &&& (!upgraded ==> final(self).fdtable@ == old(self).fdtable@)
            }),
    {
        if fd < 0 || fd as usize >= self.fdtable.len() {
            return false;
        }
        if !kernel_writable {
            return false;
        }
        match self.take_fd(fd) {
            Some(FileDescriptor::Socket(mut desc)) => {
                let was = desc.handle.state == ConnState::INPROGRESS;
                if was {
                    desc.handle.state = ConnState::CONNECTED;
                }
                self.put_fd(fd, FileDescriptor::Socket(desc));
                proof {
                    assert(cage_wf(*self)) by {
                        assert forall|j: int|
                            0 <= j < self.fdtable@.len() implies ((#[trigger] self.fdtable@[j])
                            matches Some(f) ==> crate::cage::fd_wf(f, self.pipes@.len())) by {
                            if j != fd {
                                assert(self.fdtable@[j] == old(self).fdtable@[j]);
                            } else {
                                assert(crate::cage::fd_wf(
                                    old(self).fdtable@[fd as int]->Some_0,
                                    old(self).pipes@.len(),
                                ));
                            }
                        }
                    }
                    if !was {
                        assert(self.fdtable@ =~= old(self).fdtable@);
                    }
                }
                was
            },
            Some(other) => {
                self.put_fd(fd, other);
                proof {
                    assert(self.fdtable@ =~= old(self).fdtable@);
                }
                false
            },
            None => {
                proof {
                    assert(self.fdtable@ =~= old(self).fdtable@);
                }
                false
            },
        }
    }

    /// One readiness pass of select.  A descriptor count outside
    /// `[STARTINGFD, FD_SET_MAX_FD)` is invalid; on zero readiness a
    /// pending signal interrupts, and otherwise the caller decides whether
    /// to wait and ask again.
    pub fn select_syscall(
        &mut self,
        nfds: i32,
        readfds: &mut Option<FdSet>,
        writefds: &mut Option<FdSet>,
        exceptfds: &mut Option<FdSet>,
        kernel_rready: &FdSet,
        kernel_wready: &FdSet,
    ) -> (r: i32)
        requires
            cage_wf(*old(self)),
            fdset_wf(*kernel_rready),
            fdset_wf(*kernel_wready),
            (*old(readfds)) is Some ==> fdset_wf((*old(readfds))->Some_0),
            (*old(writefds)) is Some ==> fdset_wf((*old(writefds))->Some_0),
            (*old(exceptfds)) is Some ==> fdset_wf((*old(exceptfds))->Some_0),
        ensures
            cage_wf(*final(self)),
            *final(self) == *old(self),
            (nfds < STARTINGFD || nfds >= FD_SET_MAX_FD) <==> r == -(EINVAL as i32),
            r >= 0 ==> r <= 2 * nfds,
            (r < 0 && r != -(EINVAL as i32)) ==> r == -(EBADF as i32) || r == -(EINTR as i32),
            r >= 0 ==> ((*old(readfds)) matches Some(rs) ==> ((*final(readfds)) matches Some(rs2)
                && (forall|f: int|
                0 <= f < nfds ==> rs2@[f] == (rs@[f] && read_ready_spec(
                    *old(self),
                    f,
                    kernel_rready@,
                ))))),
            r >= 0 ==> ((*old(writefds)) matches Some(ws) ==> ((*final(writefds)) matches Some(
                ws2,
            ) && (forall|f: int|
                0 <= f < nfds ==> ws2@[f] == (ws@[f] && write_ready_spec(*old(self), f))))),
            r < 0 ==> *final(readfds) == *old(readfds) && *final(writefds) == *old(writefds),
            *final(exceptfds) == *old(exceptfds),
            (STARTINGFD <= nfds < FD_SET_MAX_FD) ==> ({
                let bad = opt_fdset_has_bad(*old(self), *old(readfds), nfds as int)
                    || opt_fdset_has_bad(*old(self), *old(writefds), nfds as int)
                    || opt_fdset_has_bad(*old(self), *old(exceptfds), nfds as int);
                let cr = if (*old(readfds)) is Some {
                    count_read_ready(
                        *old(self),
                        (*old(readfds))->Some_0@,
                        kernel_rready@,
                        nfds as int,
                    )
                } else {
                    0
                };
                let cw = if (*old(writefds)) is Some {
                    count_write_ready(*old(self), (*old(writefds))->Some_0@, nfds as int)
                } else {
                    0
                };
                &&& ((r == -(EBADF as i32)) <==> bad)
                &&& (!bad ==> ((r == -(EINTR as i32)) <==> (cr + cw == 0 && old(self).sigpending)))
                &&& ((!bad && !(cr + cw == 0 && old(self).sigpending)) ==> r == cr + cw)
            }),
    {
        if nfds < STARTINGFD || nfds >= FD_SET_MAX_FD {
            return syscall_error(EINVAL);
        }
        let mut retval: i32 = 0;
        let mut new_readfds = FdSet::new();
        let mut new_writefds = FdSet::new();
        let ghost rs0 = if (*readfds) is Some {
            (*readfds)->Some_0@
        } else {
            Seq::<bool>::empty()
        };
        match readfds {
            Some(rfds) => {
                proof {
                    assert(rfds@ == rs0);
                }
                let res = self.select_readfds(
                    nfds,
                    rfds,
                    &mut new_readfds,
                    &mut retval,
                    kernel_rready,
                );
                if res != 0 {
                    return res;
                }
                proof {
                    assert(forall|f: int|
                        0 <= f < nfds ==> #[trigger] new_readfds@[f] == (rs0[f]
                            && read_ready_spec(*self, f, kernel_rready@)));
                }
            },
            None => {},
        }
        let ghost ws0 = if (*writefds) is Some {
            (*writefds)->Some_0@
        } else {
            Seq::<bool>::empty()
        };
        match writefds {
            Some(wfds) => {
                proof {
                    assert(wfds@ == ws0);
                }
                let res = self.select_writefds(
                    nfds,
                    wfds,
                    &mut new_writefds,
                    &mut retval,
                    kernel_wready,
                );
                if res != 0 {
                    return res;
                }
                proof {
                    assert(forall|f: int|
                        0 <= f < nfds ==> #[trigger] new_writefds@[f] == (ws0[f]
                            && write_ready_spec(*self, f)));
                }
            },
            None => {},
        }
        match &*exceptfds {
            Some(efds) => {
                // only the descriptors' existence is checked
                if self.fdset_bad_below(efds, nfds) {
                    return syscall_error(EBADF);
                }
            },
            None => {},
        }
        if retval == 0 && self.sigpending {
            return syscall_error(EINTR);
        }
        match readfds {
            Some(_) => {
                proof {
                    assert forall|f: int|
                        0 <= f < nfds implies new_readfds@[f] == ((*old(readfds))->Some_0@[f]
                        && read_ready_spec(*old(self), f, kernel_rready@)) by {
                        assert(rs0 == (*old(readfds))->Some_0@);
                    }
                }
                *readfds = Some(new_readfds);
            },
            None => {},
        }
        match writefds {
            Some(_) => {
                proof {
                    assert forall|f: int|
                        0 <= f < nfds implies new_writefds@[f] == ((*old(writefds))->Some_0@[f]
                        && write_ready_spec(*old(self), f)) by {
                        assert(ws0 == (*old(writefds))->Some_0@);
                    }
                }
                *writefds = Some(new_writefds);
            },
            None => {},
        }
        retval
    }

    /// One readiness pass of poll, phrased over the same tests as select.
    pub fn poll_syscall(
        &mut self,
        fds: &mut Vec<PollStruct>,
        kernel_rready: &FdSet,
        kernel_wready: &FdSet,
    ) -> (r: i32)
        requires
            cage_wf(*old(self)),
            fdset_wf(*kernel_rready),
            fdset_wf(*kernel_wready),
            old(fds)@.len() <= FD_SET_MAX_FD,
        ensures
            cage_wf(*final(self)),
            *final(self) == *old(self),
            final(fds)@.len() == old(fds)@.len(),
            r >= 0 ==> r <= final(fds)@.len(),
            (r == -(EBADF as i32)) <==> (exists|j: int|
                0 <= j < old(fds)@.len() && poll_entry_bad(*old(self), old(fds)@[j])),
            r >= 0 ==> (forall|j: int|
                0 <= j < old(fds)@.len() ==> #[trigger] final(fds)@[j] == (PollStruct {
                    revents: poll_mask_spec(
                        *old(self),
                        old(fds)@[j],
                        kernel_rready@,
                        kernel_wready@,
                    ),
                    ..old(fds)@[j]
                })),
            r >= 0 ==> r == count_poll_ready(
                *old(self),
                old(fds)@,
                kernel_rready@,
                kernel_wready@,
                old(fds)@.len() as int,
            ),
    {
        let mut return_code: i32 = 0;
        let mut i: usize = 0;
        while i < fds.len()
            invariant
                cage_wf(*self),
                *self == *old(self),
                fdset_wf(*kernel_rready),
                fdset_wf(*kernel_wready),
                fds@.len() == old(fds)@.len(),
                fds@.len() <= FD_SET_MAX_FD,
                i <= fds@.len(),
                0 <= return_code <= i,
                forall|j: int| 0 <= j < i ==> !poll_entry_bad(*old(self), old(fds)@[j]),
                forall|j: int| i <= j < fds@.len() ==> #[trigger] fds@[j] == old(fds)@[j],
                forall|j: int|
                    0 <= j < i ==> #[trigger] fds@[j] == (PollStruct {
                        revents: poll_mask_spec(
                            *old(self),
                            old(fds)@[j],
                            kernel_rready@,
                            kernel_wready@,
                        ),
                        ..old(fds)@[j]
                    }),
                return_code == count_poll_ready(
                    *old(self),
                    old(fds)@,
                    kernel_rready@,
                    kernel_wready@,
                    i as int,
                ),
            decreases fds@.len() - i,
        {
            let pollfd = fds[i].fd;
            let events = fds[i].events;
            let mut mask: i16 = 0;
            if pollfd >= 0 && pollfd < FD_SET_MAX_FD {
                if events & POLLIN > 0 {
                    match self.fd_read_ready(pollfd, kernel_rready) {
                        Ok(ready) => {
                            if ready {
                                mask = mask + POLLIN;
                            }
                        },
                        Err(e) => {
                            return e;
                        },
                    }
                }
                if events & POLLOUT > 0 {
                    match self.fd_write_ready(pollfd, kernel_wready) {
                        Ok(ready) => {
                            if ready {
                                mask = mask + POLLOUT;
                            }
                        },
                        Err(e) => {
                            return e;
                        },
                    }
                }
                // an error report rides along with any readiness, when asked
                if mask != 0 && events & POLLERR > 0 {
                    mask = mask + POLLERR;
                }
            }
            proof {
                assert(mask == poll_mask_spec(
                    *old(self),
                    old(fds)@[i as int],
                    kernel_rready@,
                    kernel_wready@,
                ));
            }
            let mut entry = fds.remove(i);
            entry.revents = mask;
            fds.insert(i, entry);
            if mask != 0 {
                return_code = return_code + 1;
            }
            i = i + 1;
        }
        return_code
    }

    /// Allocate a fresh epoll descriptor.
    pub fn _epoll_object_allocator(&mut self) -> (r: i32)
        requires
            cage_wf(*old(self)),
        ensures
            cage_wf(*final(self)),
            r >= 0 ==> 0 <= r < final(self).fdtable@.len() && (final(self).fdtable@[r as int]
                matches Some(FileDescriptor::Epoll(ep)) && ep.registered_fds@.len() == 0),
            r < 0 ==> r == -(crate::errnos::EMFILE as i32) && final(self).fdtable@ == old(self).fdtable@,
            final(self).fs == old(self).fs,
            final(self).net == old(self).net,
            final(self).pipes == old(self).pipes,
            (exists|j: int| 0 <= j < old(self).fdtable@.len() && old(self).fdtable@[j] is None)
                ==> r >= 0,
    {
        let epollobjfd = FileDescriptor::Epoll(
            crate::cage::EpollDesc { mode: 0, registered_fds: Vec::new(), errno: 0, flags: 0 },
        );
        let r = self._socket_inserter(epollobjfd);
        proof {
            assert(cage_wf(*self)) by {
                assert forall|j: int|
                    0 <= j < self.fdtable@.len() implies ((#[trigger] self.fdtable@[j])
                    matches Some(f) ==> crate::cage::fd_wf(f, self.pipes@.len())) by {
                    if r < 0 || j != r {
                        assert(self.fdtable@[j] == old(self).fdtable@[j]);
                    }
                }
            }
        }
        r
    }

    /// Create an epoll instance: the size hint must be positive.
    pub fn epoll_create_syscall(&mut self, size: i32) -> (r: i32)
        requires
            cage_wf(*old(self)),
        ensures
            cage_wf(*final(self)),
            (size <= 0) <==> r == -(EINVAL as i32),
            r >= 0 ==> 0 <= r < final(self).fdtable@.len() && (final(self).fdtable@[r as int]
                matches Some(FileDescriptor::Epoll(ep)) && ep.registered_fds@.len() == 0),
            r < 0 ==> final(self).fdtable@ == old(self).fdtable@,
            final(self).fs == old(self).fs,
            final(self).net == old(self).net,
            final(self).pipes == old(self).pipes,
            (size > 0 && (exists|j: int|
                0 <= j < old(self).fdtable@.len() && old(self).fdtable@[j] is None)) ==> r >= 0,
    {
        if size <= 0 {
            return syscall_error(EINVAL);
        }
        let r = self._epoll_object_allocator();
        proof {
            assert(r < 0 ==> r == -(crate::errnos::EMFILE as i32));
        }
        r
    }

    /// Register, modify or unregister one descriptor with an epoll
    /// instance: adding an already-registered descriptor or modifying an
    /// absent one is refused, and an epoll instance cannot watch another.
    pub fn epoll_ctl_syscall(&mut self, epfd: i32, op: i32, fd: i32, event: &EpollEvent) -> (r:
        i32)
        requires
            cage_wf(*old(self)),
        ensures
            cage_wf(*final(self)),
            !(0 <= epfd < old(self).fdtable@.len() && (old(self).fdtable@[epfd as int]
                matches Some(FileDescriptor::Epoll(_)))) ==> r == -(EBADF as i32),
            (0 <= epfd < old(self).fdtable@.len() && (old(self).fdtable@[epfd as int]
                matches Some(FileDescriptor::Epoll(_))) && !(0 <= fd < old(self).fdtable@.len()
                && old(self).fdtable@[fd as int] is Some)) ==> r == -(EBADF as i32),
            (0 <= epfd < old(self).fdtable@.len() && (old(self).fdtable@[epfd as int]
                matches Some(FileDescriptor::Epoll(_))) && 0 <= fd < old(self).fdtable@.len() && (
            old(self).fdtable@[fd as int] matches Some(FileDescriptor::Epoll(_)))) ==> r == -(
            EBADF as i32),
            r == 0 ==> op == EPOLL_CTL_ADD || op == EPOLL_CTL_MOD || op == EPOLL_CTL_DEL,
            (0 <= epfd < old(self).fdtable@.len() && 0 <= fd < old(self).fdtable@.len() && fd
                != epfd) ==> (old(self).fdtable@[epfd as int] matches Some(
                FileDescriptor::Epoll(ep),
            ) ==> ((old(self).fdtable@[fd as int] matches Some(t) && !(t is Epoll)) ==> ({
                let ei = epoll_index_of(ep.registered_fds@, fd);
                let newev = EpollEvent { events: event.events, fd: event.fd };
                &&& (op == EPOLL_CTL_ADD && ei != -1 ==> r == -(EEXIST as i32))
                &&& (op == EPOLL_CTL_ADD && ei == -1 ==> r == 0 && (final(self).fdtable@[
                    epfd as int] matches Some(FileDescriptor::Epoll(ep2))
                    && ep2.registered_fds@ == ep.registered_fds@.push((fd, newev))))
                &&& (op == EPOLL_CTL_MOD && ei == -1 ==> r == -(ENOENT as i32))
                &&& (op == EPOLL_CTL_MOD && ei != -1 ==> r == 0 && (final(self).fdtable@[
                    epfd as int] matches Some(FileDescriptor::Epoll(ep3))
                    && ep3.registered_fds@ == ep.registered_fds@.update(ei, (fd, newev))))
                &&& (op == EPOLL_CTL_DEL ==> r == 0 && (final(self).fdtable@[epfd as int]
                    matches Some(FileDescriptor::Epoll(ep4)) && ep4.registered_fds@ == (if ei
                    != -1 {
                    ep.registered_fds@.remove(ei)
                } else {
                    ep.registered_fds@
                })))
                &&& (op != EPOLL_CTL_ADD && op != EPOLL_CTL_MOD && op != EPOLL_CTL_DEL ==> r
                    == -(EINVAL as i32))
                &&& (epoll_regs_unique(ep.registered_fds@) ==> (final(self).fdtable@[epfd as int]
                    matches Some(FileDescriptor::Epoll(ep5)) && epoll_regs_unique(
                    ep5.registered_fds@,
                ) && (op == EPOLL_CTL_DEL ==> epoll_index_of(ep5.registered_fds@, fd) == -1)))
            }))),
    {
        if epfd < 0 || epfd as usize >= self.fdtable.len() {
            return syscall_error(EBADF);
        }
        if fd < 0 || fd as usize >= self.fdtable.len() {
            match &self.fdtable[epfd as usize] {
                Some(FileDescriptor::Epoll(_)) => {
                    return syscall_error(EBADF);
                },
                _ => {
                    return syscall_error(EBADF);
                },
            }
        }
        // the target must exist and must not itself be an epoll instance
        let target_ok: bool = match &self.fdtable[fd as usize] {
            Some(FileDescriptor::Epoll(_)) => false,
            Some(_) => true,
            None => false,
        };
        match self.take_fd(epfd) {
            Some(FileDescriptor::Epoll(mut ep)) => {
                let r: i32 = if !target_ok {
                    syscall_error(EBADF)
                } else {
                    // find the registration
                    let mut idx: Option<usize> = None;
                    let mut i: usize = 0;
                    while i < ep.registered_fds.len()
                        invariant
                            i <= ep.registered_fds@.len(),
                            match idx {
                                Some(k) => k < ep.registered_fds@.len()
                                    && ep.registered_fds@[k as int].0 == fd && (forall|j: int|
                                    0 <= j < k ==> ep.registered_fds@[j].0 != fd),
                                None => forall|j: int|
                                    0 <= j < i ==> ep.registered_fds@[j].0 != fd,
                            },
                        decreases ep.registered_fds@.len() - i,
                    {
                        if idx.is_none() && ep.registered_fds[i].0 == fd {
                            idx = Some(i);
                        }
                        i = i + 1;
                    }
                    proof {
                        lemma_epoll_index_of(ep.registered_fds@, fd);
                        let io = epoll_index_of(ep.registered_fds@, fd);
                        match idx {
                            Some(k) => {
                                if io == -1 {
                                    assert(ep.registered_fds@[k as int].0 == fd);
                                }
                                if io < k as int && io != -1 {
                                    assert(ep.registered_fds@[io].0 == fd);
                                }
                                if io > k as int {
                                    assert(ep.registered_fds@[k as int].0 == fd);
                                }
                                assert(io == k as int);
                            },
                            None => {
                                if io != -1 {
                                    assert(ep.registered_fds@[io].0 == fd);
                                }
                                assert(io == -1);
                            },
                        }
                    }
                    if op == EPOLL_CTL_DEL {
                        match idx {
                            Some(k) => {
                                let ghost reg0 = ep.registered_fds@;
                                ep.registered_fds.remove(k);
                                proof {
                                    if epoll_regs_unique(reg0) {
                                        let rn = ep.registered_fds@;
                                        assert forall|j: int|
                                            0 <= j < rn.len() implies (#[trigger] rn[j]).0
                                            != fd by {
                                            if j < k {
                                                assert(rn[j] == reg0[j]);
                                            } else {
                                                assert(rn[j] == reg0[j + 1]);
                                                assert(reg0[k as int].0 == fd);
                                            }
                                        }
                                        assert(epoll_regs_unique(rn)) by {
                                            assert forall|a: int, b: int|
                                                0 <= a < b < rn.len() implies rn[a].0
                                                != rn[b].0 by {
                                                let a2 = if a < k {
                                                    a
                                                } else {
                                                    a + 1
                                                };
                                                let b2 = if b < k {
                                                    b
                                                } else {
                                                    b + 1
                                                };
                                                assert(rn[a] == reg0[a2] && rn[b] == reg0[b2]);
                                            }
                                        }
                                        lemma_epoll_index_of_absent(rn, fd);
                                    }
                                }
                                0
                            },
                            None => 0,
                        }
                    } else if op == EPOLL_CTL_MOD {
                        match idx {
                            Some(k) => {
                                let ghost reg0 = ep.registered_fds@;
                                ep.registered_fds.remove(k);
                                ep.registered_fds.insert(
                                    k,
                                    (fd, EpollEvent { events: event.events, fd: event.fd }),
                                );
                                proof {
                                    assert(ep.registered_fds@ =~= reg0.update(
                                        k as int,
                                        (fd, EpollEvent { events: event.events, fd: event.fd }),
                                    ));
                                    if epoll_regs_unique(reg0) {
                                        let rn = ep.registered_fds@;
                                        assert(epoll_regs_unique(rn)) by {
                                            assert forall|a: int, b: int|
                                                0 <= a < b < rn.len() implies rn[a].0
                                                != rn[b].0 by {
                                                assert(reg0[k as int].0 == fd);
                                                assert(rn[a].0 == reg0[a].0 && rn[b].0 == reg0[
                                                    b].0);
                                            }
                                        }
                                    }
                                }
                                0
                            },
                            None => syscall_error(ENOENT),
                        }
                    } else if op == EPOLL_CTL_ADD {
                        match idx {
                            Some(_) => syscall_error(EEXIST),
                            None => {
                                let ghost reg0 = ep.registered_fds@;
                                ep.registered_fds.push(
                                    (fd, EpollEvent { events: event.events, fd: event.fd }),
                                );
                                proof {
                                    if epoll_regs_unique(reg0) {
                                        let rn = ep.registered_fds@;
                                        assert(epoll_regs_unique(rn)) by {
                                            assert forall|a: int, b: int|
                                                0 <= a < b < rn.len() implies rn[a].0
                                                != rn[b].0 by {
                                                if b < reg0.len() {
                                                    assert(rn[a] == reg0[a] && rn[b] == reg0[b]);
                                                } else {
                                                    assert(rn[a] == reg0[a]);
                                                    assert(reg0[a].0 != fd);
                                                }
                                            }
                                        }
                                    }
                                }
                                0
                            },
                        }
                    } else {
                        syscall_error(EINVAL)
                    }
                };
                self.put_fd(epfd, FileDescriptor::Epoll(ep));
                proof {
                    assert(cage_wf(*self)) by {
                        assert forall|j: int|
                            0 <= j < self.fdtable@.len() implies ((#[trigger] self.fdtable@[j])
                            matches Some(f) ==> crate::cage::fd_wf(f, self.pipes@.len())) by {
                            if j != epfd {
                                assert(self.fdtable@[j] == old(self).fdtable@[j]);
                            }
                        }
                    }
                }
                r
            },
            Some(other) => {
                self.put_fd(epfd, other);
                proof {
                    assert(self.fdtable@ =~= old(self).fdtable@);
                }
                syscall_error(EBADF)
            },
            None => {
                proof {
                    assert(self.fdtable@ =~= old(self).fdtable@);
                }
                syscall_error(EBADF)
            },
        }
    }

    /// Wait on an epoll instance for one pass: closed descriptors fall out
    /// of the registration, the rest are polled, and up to `maxevents`
    /// results are reported.
    pub fn epoll_wait_syscall(
        &mut self,
        epfd: i32,
        events: &mut Vec<EpollEvent>,
        maxevents: i32,
        kernel_rready: &FdSet,
        kernel_wready: &FdSet,
    ) -> (r: i32)
        requires
            cage_wf(*old(self)),
            fdset_wf(*kernel_rready),
            fdset_wf(*kernel_wready),
        ensures
            cage_wf(*final(self)),
            !(0 <= epfd < old(self).fdtable@.len() && (old(self).fdtable@[epfd as int]
                matches Some(FileDescriptor::Epoll(_)))) ==> r == -(EBADF as i32),
            (0 <= epfd < old(self).fdtable@.len() && (old(self).fdtable@[epfd as int]
                matches Some(FileDescriptor::Epoll(_))) && maxevents < 0) ==> r == -(
            EINVAL as i32),
            r >= 0 ==> r <= maxevents && r == final(events)@.len() && (forall|i: int|
                0 <= i < final(events)@.len() ==> (#[trigger] final(events)@[i]).events != 0),
            r < 0 ==> final(self).fdtable@ == old(self).fdtable@ && final(self).fs == old(self).fs
                && final(self).net == old(self).net && final(self).pipes == old(self).pipes,
            (0 <= epfd < old(self).fdtable@.len() && maxevents >= 0) ==> (old(self).fdtable@[
                epfd as int] matches Some(FileDescriptor::Epoll(ep)) ==> ({
                let pruned = prune_regs(
                    old(self).fdtable@.update(epfd as int, None),
                    ep.registered_fds@,
                );
                let total = count_epoll_ready(
                    *final(self),
                    pruned,
                    kernel_rready@,
                    kernel_wready@,
                    pruned.len() as int,
                );
                &&& r >= 0
                &&& (final(self).fdtable@[epfd as int] matches Some(FileDescriptor::Epoll(ep2))
                    && ep2.registered_fds@ == pruned)
                &&& (epoll_regs_unique(ep.registered_fds@) ==> epoll_regs_unique(pruned))
                &&& r == (if total <= maxevents as int {
                    total
                } else {
                    maxevents as int
                })
                &&& (forall|j: int|
                    0 <= j < final(events)@.len() ==> exists|i: int|
                        0 <= i < pruned.len() && #[trigger] final(events)@[j] == (EpollEvent {
                            events: epoll_mask_spec(
                                *final(self),
                                pruned[i].0,
                                pruned[i].1.events,
                                kernel_rready@,
                                kernel_wready@,
                            ),
                            fd: pruned[i].1.fd,
                        }))
            })),
    {
        match self.take_fd(epfd) {
            Some(FileDescriptor::Epoll(mut ep)) => {
                if maxevents < 0 {
                    self.put_fd(epfd, FileDescriptor::Epoll(ep));
                    proof {
                        assert(self.fdtable@ =~= old(self).fdtable@);
                        assert(cage_wf(*self)) by {
                            assert forall|j: int|
                                0 <= j < self.fdtable@.len() implies ((#[trigger] self.fdtable@[j])
                                matches Some(f) ==> crate::cage::fd_wf(f, self.pipes@.len())) by {
                                if j != epfd {
                                    assert(self.fdtable@[j] == old(self).fdtable@[j]);
                                } else {
                                    assert(crate::cage::fd_wf(
                                        old(self).fdtable@[epfd as int]->Some_0,
                                        old(self).pipes@.len(),
                                    ));
                                }
                            }
                        }
                    }
                    return syscall_error(EINVAL);
                }
                // drop registrations whose descriptors are gone
                let ghost t_mid = self.fdtable@;
                let ghost regs0 = ep.registered_fds@;
                proof {
                    assert(t_mid =~= old(self).fdtable@.update(epfd as int, None));
                    assert(regs0.skip(0) =~= regs0);
                }
                let mut kept: Vec<(i32, EpollEvent)> = Vec::new();
                let mut i: usize = 0;
                while i < ep.registered_fds.len()
                    invariant
                        i <= ep.registered_fds@.len(),
                        kept@.len() <= i,
                        ep.registered_fds@ == regs0,
                        self.fdtable@ == t_mid,
                        prune_regs(t_mid, regs0) == kept@ + prune_regs(
                            t_mid,
                            regs0.skip(i as int),
                        ),
                    decreases ep.registered_fds@.len() - i,
                {
                    let (rfd, ev) = ep.registered_fds[i];
                    let alive = rfd >= 0 && (rfd as usize) < self.fdtable.len() && match &self
                        .fdtable[rfd as usize] {
                        Some(_) => true,
                        None => false,
                    };
                    proof {
                        assert(regs0.skip(i as int)[0] == regs0[i as int]);
                        assert(regs0.skip(i as int).skip(1) =~= regs0.skip(i + 1 as int));
                        assert(alive == epoll_alive(t_mid, rfd));
                    }
                    if alive {
                        kept.push((rfd, ev));
                        proof {
                            assert(kept@ + prune_regs(t_mid, regs0.skip(i + 1 as int)) =~= (
                            kept@.drop_last() + (seq![regs0[i as int]] + prune_regs(
                                t_mid,
                                regs0.skip(i + 1 as int),
                            ))));
                        }
                    }
                    i = i + 1;
                }
                proof {
                    assert(regs0.skip(regs0.len() as int) =~= Seq::<(i32, EpollEvent)>::empty());
                    assert(kept@ + prune_regs(t_mid, regs0.skip(regs0.len() as int)) =~= kept@);
                    assert(kept@ == prune_regs(t_mid, regs0));
                    if epoll_regs_unique(regs0) {
                        lemma_prune_unique(t_mid, regs0);
                    }
                    lemma_prune_alive(t_mid, regs0);
                }
                ep.registered_fds = kept;
                let ghost kept0 = ep.registered_fds@;
                let ghost c_mid = *self;
                // poll what remains
                let mut count: i32 = 0;
                events.clear();
                let mut k: usize = 0;
                while k < ep.registered_fds.len()
                    invariant
                        cage_wf(*self),
                        *self == c_mid,
                        fdset_wf(*kernel_rready),
                        fdset_wf(*kernel_wready),
                        ep.registered_fds@ == kept0,
                        k <= ep.registered_fds@.len(),
                        0 <= count <= k,
                        maxevents >= 0,
                        count <= maxevents,
                        events@.len() == count,
                        count == count_epoll_ready(
                            c_mid,
                            kept0,
                            kernel_rready@,
                            kernel_wready@,
                            k as int,
                        ),
                        forall|i2: int|
                            0 <= i2 < events@.len() ==> (#[trigger] events@[i2]).events != 0,
                        forall|j: int|
                            0 <= j < events@.len() ==> exists|i2: int|
                                0 <= i2 < kept0.len() && #[trigger] events@[j] == (EpollEvent {
                                    events: epoll_mask_spec(
                                        c_mid,
                                        kept0[i2].0,
                                        kept0[i2].1.events,
                                        kernel_rready@,
                                        kernel_wready@,
                                    ),
                                    fd: kept0[i2].1.fd,
                                }),
                    ensures
                        count == maxevents || k as int == kept0.len(),
                    decreases ep.registered_fds@.len() - k,
                {
                    if count >= maxevents {
                        break ;
                    }
                    let (rfd, ev) = ep.registered_fds[k];
                    let mut revents: u32 = 0;
                    if rfd >= 0 && rfd < FD_SET_MAX_FD {
                        if ev.events & EPOLLIN > 0 {
                            match self.fd_read_ready(rfd, kernel_rready) {
                                Ok(true) => {
                                    revents = revents | EPOLLIN;
                                },
                                _ => {},
                            }
                        }
                        if ev.events & EPOLLOUT > 0 {
                            match self.fd_write_ready(rfd, kernel_wready) {
                                Ok(true) => {
                                    revents = revents | EPOLLOUT;
                                },
                                _ => {},
                            }
                        }
                        // an error report rides along with any readiness
                        if revents != 0 && ev.events & EPOLLERR > 0 {
                            revents = revents | EPOLLERR;
                        }
                    }
                    proof {
                        assert(revents == epoll_mask_spec(
                            c_mid,
                            rfd,
                            ev.events,
                            kernel_rready@,
                            kernel_wready@,
                        ));
                    }
                    if revents != 0 {
                        events.push(EpollEvent { events: revents, fd: ev.fd });
                        count = count + 1;
                    }
                    k = k + 1;
                }
                let ghost kdone = k as int;
                let ghost cnt = count as int;
                self.put_fd(epfd, FileDescriptor::Epoll(ep));
                proof {
                    assert(cage_wf(*self)) by {
                        assert forall|j: int|
                            0 <= j < self.fdtable@.len() implies ((#[trigger] self.fdtable@[j])
                            matches Some(f) ==> crate::cage::fd_wf(f, self.pipes@.len())) by {
                            if j != epfd {
                                assert(self.fdtable@[j] == old(self).fdtable@[j]);
                            }
                        }
                    }
                    // the masks do not depend on the listener's own slot,
                    // which is the only one its restoration touches
                    assert forall|i2: int| 0 <= i2 < kept0.len() implies #[trigger] epoll_mask_spec(
                        *self,
                        kept0[i2].0,
                        kept0[i2].1.events,
                        kernel_rready@,
                        kernel_wready@,
                    ) == epoll_mask_spec(
                        c_mid,
                        kept0[i2].0,
                        kept0[i2].1.events,
                        kernel_rready@,
                        kernel_wready@,
                    ) by {
                        let rfd = kept0[i2].0;
                        assert(epoll_alive(t_mid, rfd));
                        assert(rfd != epfd);
                        assert(self.fdtable@[rfd as int] == c_mid.fdtable@[rfd as int]);
                        if 0 <= rfd < FD_SET_MAX_FD && c_mid.fdtable@[rfd as int] is Some {
                            assert(read_ready_spec(*self, rfd as int, kernel_rready@)
                                == read_ready_spec(c_mid, rfd as int, kernel_rready@));
                            assert(write_ready_spec(*self, rfd as int) == write_ready_spec(
                                c_mid,
                                rfd as int,
                            ));
                        }
                    }
                    lemma_count_epoll_congruence(
                        *self,
                        c_mid,
                        kept0,
                        kernel_rready@,
                        kernel_wready@,
                        kept0.len() as int,
                    );
                    if cnt == maxevents {
                        lemma_count_epoll_ready_mono(
                            c_mid,
                            kept0,
                            kernel_rready@,
                            kernel_wready@,
                            kdone,
                            kept0.len() as int,
                        );
                    }
                }
                count
            },
            Some(other) => {
                self.put_fd(epfd, other);
                proof {
                    assert(self.fdtable@ =~= old(self).fdtable@);
                }
                syscall_error(EBADF)
            },
            None => {
                proof {
                    if 0 <= epfd < old(self).fdtable@.len() {
                        assert(self.fdtable@ =~= old(self).fdtable@);
                    }
                }
                syscall_error(EBADF)
            },
        }
    }
}

} // verus!

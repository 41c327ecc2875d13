//! The cage: one emulated process, with its working directory, descriptor
//! table, signal and cancel flags, and the shared state it runs against.

use crate::errnos::{EINVAL, EMFILE, EOPNOTSUPP};
use crate::fs::FilesystemMetadata;
use crate::net_types::{NetMetadata, SocketDesc, FD_SET_MAX_FD};
use crate::paths::Path;
use crate::pipes::PipeTable;
use crate::types::EpollEvent;
use vstd::prelude::*;

verus! {

#[derive(Debug)]
pub struct EpollDesc {
    pub mode: i32,
    pub registered_fds: Vec<(i32, EpollEvent)>,
    pub errno: i32,
    pub flags: i32,
}

#[derive(Copy, Clone, Debug)]
pub struct PipeDesc {
    pub flags: i32,
    pub pipe: usize,
}

#[derive(Copy, Clone, Debug)]
pub struct StreamDesc {
    pub flags: i32,
    pub stream: i32,
}

#[derive(Copy, Clone, Debug)]
pub struct FileDesc {
    pub flags: i32,
    pub position: usize,
    pub inode: usize,
}

#[derive(Debug)]
pub enum FileDescriptor {
    File(FileDesc),
    Stream(StreamDesc),
    Socket(SocketDesc),
    Pipe(PipeDesc),
    Epoll(EpollDesc),
}

/// What a blocking operation does when a wait expires: park on the cancel
/// point, surface an interrupt, or try again.
#[derive(Copy, Clone, PartialEq, Eq, Structural, Debug)]
pub enum RetryAction {
    Cancel,
    Interrupt,
    Retry,
}

/// What a blocking multiplexer does at each wakeup of its retry loop: stop
/// with nothing ready once the timeout has elapsed, park on the cancel
/// point, surface an interrupt, or poll again.
#[derive(Copy, Clone, PartialEq, Eq, Structural, Debug)]
pub enum PollRetry {
    TimedOut,
    Cancel,
    Interrupt,
    Retry,
}

/// One emulated process and, in this single-process model, the shared
/// state it runs against: filesystem metadata, the socket registry, and
/// the pipe table.
#[derive(Debug)]
pub struct Cage {
    pub cageid: u64,
    pub cwd: Path,
    pub fdtable: Vec<Option<FileDescriptor>>,
    pub cancelstatus: bool,
    pub sigpending: bool,
    pub fs: FilesystemMetadata,
    pub net: NetMetadata,
    pub pipes: PipeTable,
    pub ifaddrs: Vec<u8>,
}

/// The hostname every cage reports.
pub open spec fn hostname_bytes() -> Seq<u8> {
    seq![108u8, 105u8, 110u8, 100u8, 0u8]
}

/// Validity of one descriptor against the pipe table: every pipe index it
/// holds names an existing pipe.
pub open spec fn fd_wf(f: FileDescriptor, npipes: nat) -> bool {
    match f {
        FileDescriptor::Socket(d) => match d.handle.unix_info {
            Some(u) => {
                &&& (u.sendpipe matches Some(p) ==> p < npipes)
                &&& (u.receivepipe matches Some(p) ==> p < npipes)
            },
            None => true,
        },
        FileDescriptor::Pipe(p) => p.pipe < npipes,
        _ => true,
    }
}

/// The cage invariant: a full-size descriptor table whose entries refer
/// only to existing pipes, over well-formed filesystem metadata.
pub open spec fn cage_wf(c: Cage) -> bool {
    &&& c.fdtable@.len() == FD_SET_MAX_FD
    &&& forall|j: int|
        0 <= j < c.fdtable@.len() ==> ((#[trigger] c.fdtable@[j]) matches Some(f) ==> fd_wf(
            f,
            c.pipes@.len(),
        ))
    &&& crate::net_types::accept_entries_valid(c.net.domsock_accept_table@, c.pipes@.len())
    &&& crate::fs::fs_wf(c.fs@)
}

impl Cage {
    pub fn new(cageid: u64, fs: FilesystemMetadata) -> (r: Cage)
        ensures
            r.cageid == cageid,
            r.fs == fs,
            r.fdtable@.len() == FD_SET_MAX_FD,
            forall|j: int| 0 <= j < r.fdtable@.len() ==> r.fdtable@[j] is None,
            r.cwd@.absolute,
            r.cwd@.comps.len() == 0,
            !r.cancelstatus,
            !r.sigpending,
            r.pipes@.len() == 0,
            r.net.porttable@.len() == 0,
            r.net.listening_port_set@.len() == 0,
            r.net.pending_conn_table@.len() == 0,
            r.net.domsock_paths@.len() == 0,
            r.net.domsock_accept_table@.len() == 0,
            r.ifaddrs@.len() == 0,
            crate::fs::fs_wf(fs@) ==> cage_wf(r),
    {
        let mut fdtable: Vec<Option<FileDescriptor>> = Vec::new();
        let mut i: usize = 0;
        while i < FD_SET_MAX_FD as usize
            invariant
                i <= FD_SET_MAX_FD as usize,
                fdtable@.len() == i,
                forall|j: int| 0 <= j < i ==> fdtable@[j] is None,
            decreases FD_SET_MAX_FD as usize - i,
        {
            fdtable.push(None);
            i = i + 1;
        }
        Cage {
            cageid,
            cwd: Path { absolute: true, comps: Vec::new() },
            fdtable,
            cancelstatus: false,
            sigpending: false,
            fs,
            net: NetMetadata::new(),
            pipes: PipeTable::new(),
            ifaddrs: Vec::new(),
        }
    }

    /// The lowest free descriptor number.
    pub fn get_next_fd(&self) -> (r: i32)
        requires
            self.fdtable@.len() <= FD_SET_MAX_FD,
        ensures
            r >= 0 ==> 0 <= r < self.fdtable@.len() && self.fdtable@[r as int] is None,
            r < 0 ==> r == -(EMFILE as i32) && (forall|j: int|
                0 <= j < self.fdtable@.len() ==> self.fdtable@[j] is Some),
    {
        let mut i: usize = 0;
        while i < self.fdtable.len()
            invariant
                i <= self.fdtable@.len(),
                self.fdtable@.len() <= FD_SET_MAX_FD,
                forall|j: int| 0 <= j < i ==> self.fdtable@[j] is Some,
            decreases self.fdtable@.len() - i,
        {
            if self.fdtable[i].is_none() {
                return i as i32;
            }
            i = i + 1;
        }
        -EMFILE
    }

    /// Take the descriptor out of its slot, leaving the slot empty; an
    /// out-of-range or empty slot yields nothing and changes nothing.
    pub fn take_fd(&mut self, fd: i32) -> (r: Option<FileDescriptor>)
        ensures
            final(self).cageid == old(self).cageid,
            final(self).cwd == old(self).cwd,
            final(self).cancelstatus == old(self).cancelstatus,
            final(self).sigpending == old(self).sigpending,
            final(self).fs == old(self).fs,
            final(self).net == old(self).net,
            final(self).pipes == old(self).pipes,
            final(self).ifaddrs == old(self).ifaddrs,
            final(self).fdtable@.len() == old(self).fdtable@.len(),
            if 0 <= fd < old(self).fdtable@.len() {
                &&& r == old(self).fdtable@[fd as int]
                &&& final(self).fdtable@ == old(self).fdtable@.update(fd as int, None)
            } else {
                &&& r is None
                &&& final(self).fdtable@ == old(self).fdtable@
            },
    {
        if fd < 0 || fd as usize >= self.fdtable.len() {
            return None;
        }
        let idx = fd as usize;
        let entry = self.fdtable.remove(idx);
        self.fdtable.insert(idx, None);
        proof {
            assert(self.fdtable@ =~= old(self).fdtable@.update(fd as int, None));
        }
        entry
    }

    /// Put a descriptor into a slot.
    pub fn put_fd(&mut self, fd: i32, v: FileDescriptor)
        requires
            0 <= fd < old(self).fdtable@.len(),
        ensures
            final(self).cageid == old(self).cageid,
            final(self).cwd == old(self).cwd,
            final(self).cancelstatus == old(self).cancelstatus,
            final(self).sigpending == old(self).sigpending,
            final(self).fs == old(self).fs,
            final(self).net == old(self).net,
            final(self).pipes == old(self).pipes,
            final(self).ifaddrs == old(self).ifaddrs,
            final(self).fdtable@ == old(self).fdtable@.update(fd as int, Some(v)),
    {
        let idx = fd as usize;
        self.fdtable.remove(idx);
        self.fdtable.insert(idx, Some(v));
        proof {
            assert(self.fdtable@ =~= old(self).fdtable@.update(fd as int, Some(v)));
        }
    }

    /// Place a new descriptor in the lowest free slot and return its number.
    pub fn _socket_inserter(&mut self, sockfd: FileDescriptor) -> (r: i32)
        requires
            old(self).fdtable@.len() <= FD_SET_MAX_FD,
        ensures
            final(self).cageid == old(self).cageid,
            final(self).cwd == old(self).cwd,
            final(self).fs == old(self).fs,
            final(self).net == old(self).net,
            final(self).pipes == old(self).pipes,
            final(self).fdtable@.len() == old(self).fdtable@.len(),
            r >= 0 ==> 0 <= r < old(self).fdtable@.len() && old(self).fdtable@[r as int] is None
                && final(self).fdtable@ == old(self).fdtable@.update(r as int, Some(sockfd)),
            r < 0 ==> r == -(EMFILE as i32) && final(self).fdtable@ == old(self).fdtable@ && (
            forall|j: int| 0 <= j < old(self).fdtable@.len() ==> old(self).fdtable@[j] is Some),
            (exists|j: int| 0 <= j < old(self).fdtable@.len() && old(self).fdtable@[j] is None)
                ==> r >= 0,
    {
        let fd = self.get_next_fd();
        if fd < 0 {
            return fd;
        }
        self.put_fd(fd, sockfd);
        fd
    }

    /// What a blocking path does at each wakeup: honor a pending cancel
    /// first, then a pending signal, and otherwise wait again.
    pub fn blocking_retry_action(&self) -> (r: RetryAction)
        ensures
            r == if self.cancelstatus {
                RetryAction::Cancel
            } else if self.sigpending {
                RetryAction::Interrupt
            } else {
                RetryAction::Retry
            },
    {
        if self.cancelstatus {
            RetryAction::Cancel
        } else if self.sigpending {
            RetryAction::Interrupt
        } else {
            RetryAction::Retry
        }
    }

    /// What a blocking select, poll or epoll wait does at a wakeup with
    /// nothing ready: a non-negative timeout that has elapsed ends the
    /// wait with zero descriptors; otherwise a pending cancel wins, then a
    /// pending signal, and otherwise the caller polls again.  A negative
    /// timeout waits forever.
    pub fn poll_retry_decision(&self, elapsed_ms: u64, timeout_ms: i64) -> (r: PollRetry)
        ensures
            r == (if timeout_ms >= 0 && elapsed_ms as int >= timeout_ms as int {
                PollRetry::TimedOut
            } else if self.cancelstatus {
                PollRetry::Cancel
            } else if self.sigpending {
                PollRetry::Interrupt
            } else {
                PollRetry::Retry
            }),
    {
        if timeout_ms >= 0 && elapsed_ms >= timeout_ms as u64 {
            PollRetry::TimedOut
        } else if self.cancelstatus {
            PollRetry::Cancel
        } else if self.sigpending {
            PollRetry::Interrupt
        } else {
            PollRetry::Retry
        }
    }

    /// Copy the fixed hostname, truncated to the caller's buffer length.
    pub fn gethostname_syscall(&self, address: &mut Vec<u8>, length: isize) -> (r: i32)
        ensures
            length < 0 ==> r == -(EINVAL as i32) && final(address)@ == old(address)@,
            length >= 0 ==> r == 0 && final(address)@ == hostname_bytes().take(
                if length < 5 {
                    length as int
                } else {
                    5
                },
            ),
    {
        if length < 0 {
            return -EINVAL;
        }
        let mut bytes: Vec<u8> = Vec::new();
        bytes.push(108);
        bytes.push(105);
        bytes.push(110);
        bytes.push(100);
        bytes.push(0);
        proof {
            assert(bytes@ =~= hostname_bytes());
        }
        let len: usize = if (length as usize) < 5 {
            length as usize
        } else {
            5
        };
        address.clear();
        let mut k: usize = 0;
        while k < len
            invariant
                k <= len,
                len <= 5,
                bytes@ == hostname_bytes(),
                address@ == hostname_bytes().take(k as int),
            decreases len - k,
        {
            address.push(bytes[k]);
            proof {
                assert(hostname_bytes().take(k + 1 as int) =~= hostname_bytes().take(
                    k as int,
                ).push(hostname_bytes()[k as int]));
            }
            k = k + 1;
        }
        0
    }

    /// Hand out the precomputed interface description, when the caller's
    /// limit admits it.
    pub fn getifaddrs_syscall(&self, buf: &mut Vec<u8>, count: usize) -> (r: i32)
        ensures
            self.ifaddrs@.len() < count ==> r == 0 && final(buf)@ == self.ifaddrs@,
            self.ifaddrs@.len() >= count ==> r == -(EOPNOTSUPP as i32) && final(buf)@ == old(
                buf,
            )@,
    {
        if self.ifaddrs.len() < count {
            let copied = crate::fs::clone_bytes(&self.ifaddrs);
            let mut c = copied;
            buf.clear();
            buf.append(&mut c);
            proof {
                assert(buf@ =~= self.ifaddrs@);
            }
            0
        } else {
            -EOPNOTSUPP
        }
    }
}

} // verus!

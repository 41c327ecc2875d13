//! The socket system calls: creation, binding, connecting, and the
//! Unix-domain rendezvous.  Emulated Unix-domain sockets run entirely on
//! the in-memory state here; for inet sockets every host-kernel answer
//! (a fresh kernel socket, an errno from bind / connect / listen) arrives
//! as a plain argument, so the state transition is verified for every
//! possible answer.

use crate::cage::{cage_wf, fd_wf, Cage, FileDescriptor};
use crate::errnos::{
    syscall_error, EADDRINUSE, EAGAIN, EBADF, EINPROGRESS, EINVAL, EISCONN, ENOENT, ENOPROTOOPT,
    ENOTCONN, ENOTDIR, ENOTSOCK, EOPNOTSUPP,
};
use crate::fs::{
    dict_lookup, dict_v, fs_wf, inode_wf, tbl_find, tbl_lookup, tbl_v, DirEntry, DirEntryV,
    DirectoryInodeV, Inode, InodePair, InodePairV, InodeV, SocketInode, DIRTABLE_CAP, NAME_CAP,
    NEXTINODE_CAP, ROOTDIRECTORYINODE, S_FILETYPEFLAGS, S_IFSOCK, S_IRWXA, DEFAULT_GID,
    DEFAULT_UID,
};
use crate::net_types::{
    clone_gensockaddr, dom_paths_has, ephemeral_available, new_sockaddr_unix, oav, port_reserved,
    ConnState, GenIpaddr, GenSockaddr, GenSockaddrV, PortRes, SockaddrUnixV, SockaddrV4,
    SockaddrV6, SocketDesc, SocketHandle, UnixSocketInfo, AF_INET, AF_INET6, AF_UNIX,
    EPHEMERAL_PORT_END, EPHEMERAL_PORT_START, IPPROTO_TCP, IPPROTO_UDP, O_CLOEXEC, O_NONBLOCK,
    PF_INET, PF_INET6, PF_UNIX, SOCK_CLOEXEC, SOCK_DGRAM, SOCK_NONBLOCK, SOCK_STREAM,
    SO_REUSEPORT,
};
use crate::paths::{
    convpath, normalize, normpath, split_path, walk, walk_blocked_by_nondir, walk_nondir,
    metawalkandparent, Path,
};
use crate::pipes::PIPE_CAPACITY;
use crate::net_types::{MSG_NOSIGNAL, MSG_PEEK, SHUT_RD, SHUT_RDWR, SHUT_WR, SOL_SOCKET, SOL_TCP,
    SOL_UDP, SO_ACCEPTCONN, SO_ERROR, SO_KEEPALIVE, SO_LINGER, SO_OOBINLINE, SO_RCVBUF,
    SO_RCVLOWAT, SO_REUSEADDR, SO_SNDBUF, SO_SNDLOWAT, SO_TYPE, TCP_NODELAY};
use vstd::prelude::*;

verus! {

/// The components of a raw byte path, resolved against a working
/// directory.
pub open spec fn truepath_comps(cwd: Seq<Seq<u8>>, path: Seq<u8>) -> Seq<Seq<u8>> {
    normalize(
        if path.len() > 0 && path[0] == crate::paths::SEP {
            Seq::<Seq<u8>>::empty()
        } else {
            cwd
        },
        split_path(path),
    )
}

impl Cage {
    /// A fresh socket handle in the given state, with no kernel socket and
    /// nothing bound yet.
    pub fn mksockhandle(
        domain: i32,
        socktype: i32,
        protocol: i32,
        conn: ConnState,
        socket_options: i32,
    ) -> (r: SocketHandle)
        ensures
            r.innersocket is None,
            r.socket_options == socket_options,
            r.tcp_options == 0,
            r.state == conn,
            r.protocol == protocol,
            r.domain == domain,
            r.last_peek@.len() == 0,
            r.localaddr is None,
            r.remoteaddr is None,
            r.unix_info is None,
            r.socktype == socktype,
            r.sndbuf == 131070,
            r.rcvbuf == 262140,
            r.errno == 0,
    {
        SocketHandle {
            innersocket: None,
            socket_options,
            tcp_options: 0,
            state: conn,
            protocol,
            domain,
            last_peek: Vec::new(),
            localaddr: None,
            remoteaddr: None,
            unix_info: None,
            socktype,
            sndbuf: 131070,
            rcvbuf: 262140,
            errno: 0,
        }
    }

    /// A fresh per-descriptor socket object around a fresh handle.
    pub fn _socket_initializer(
        &self,
        domain: i32,
        socktype: i32,
        protocol: i32,
        nonblocking: bool,
        cloexec: bool,
        conn: ConnState,
    ) -> (r: SocketDesc)
        ensures
            r.flags == (if nonblocking {
                O_NONBLOCK
            } else {
                0
            }) | (if cloexec {
                O_CLOEXEC
            } else {
                0
            }),
            r.domain == domain,
            r.rawfd == -1,
            r.handle.domain == domain && r.handle.socktype == socktype && r.handle.protocol
                == protocol && r.handle.state == conn && r.handle.innersocket is None
                && r.handle.localaddr is None && r.handle.remoteaddr is None
                && r.handle.unix_info is None && r.handle.last_peek@.len() == 0,
    {
        let flags = (if nonblocking {
            O_NONBLOCK
        } else {
            0
        }) | (if cloexec {
            O_CLOEXEC
        } else {
            0
        });
        SocketDesc {
            flags,
            domain,
            rawfd: -1,
            handle: Self::mksockhandle(domain, socktype, protocol, conn, flags),
        }
    }

    /// Create a socket descriptor.  Only `(AF_INET | AF_INET6 | AF_UNIX)`
    /// crossed with stream/TCP or datagram/UDP is supported; the kernel
    /// socket itself is created lazily at the first bind, connect or
    /// listen so that options set in between still reach it.
    pub fn socket_syscall(&mut self, domain: i32, socktype: i32, protocol: i32) -> (r: i32)
        requires
            old(self).fdtable@.len() <= crate::net_types::FD_SET_MAX_FD,
        ensures
            ({
                let real_socktype = socktype & 0x7;
                let nonblocking = (socktype & SOCK_NONBLOCK) != 0;
                let cloexec = (socktype & SOCK_CLOEXEC) != 0;
                let newprotocol = if protocol == 0 {
                    if real_socktype == SOCK_STREAM {
                        IPPROTO_TCP
                    } else {
                        IPPROTO_UDP
                    }
                } else {
                    protocol
                };
                let supported = (real_socktype == SOCK_STREAM && newprotocol == IPPROTO_TCP || (
                real_socktype == SOCK_DGRAM && newprotocol == IPPROTO_UDP)) && (domain == PF_INET
                    || domain == PF_INET6 || domain == PF_UNIX);
                &&& (!supported ==> r == -(EOPNOTSUPP as i32) && final(self).fdtable@ == old(self).fdtable@)
                &&& (supported && r >= 0 ==> 0 <= r < old(self).fdtable@.len() && old(self).fdtable@[r as int] is None && (final(self).fdtable@[r as int] matches Some(
                    FileDescriptor::Socket(d),
                ) && d.domain == domain && d.rawfd == -1 && d.handle.domain == domain
                    && d.handle.socktype == socktype && d.handle.protocol == newprotocol
                    && d.handle.state == ConnState::NOTCONNECTED && d.handle.innersocket is None
                    && d.handle.localaddr is None && d.handle.remoteaddr is None
                    && d.handle.unix_info is None && d.handle.last_peek@.len() == 0 && d.flags
                    == (if nonblocking {
                    O_NONBLOCK
                } else {
                    0
                }) | (if cloexec {
                    O_CLOEXEC
                } else {
                    0
                })) && (forall|j: int|
                    0 <= j < old(self).fdtable@.len() && j != r
                        ==> final(self).fdtable@[j] == old(self).fdtable@[j]))
                &&& (supported && r < 0 ==> r == -(crate::errnos::EMFILE as i32) && (forall|
                    j: int,
                |
                    0 <= j < old(self).fdtable@.len() ==> old(self).fdtable@[j] is Some))
                &&& (supported && (exists|j: int|
                    0 <= j < old(self).fdtable@.len() && old(self).fdtable@[j] is None) ==> r
                    >= 0)
            }),
            final(self).fs == old(self).fs,
            final(self).net == old(self).net,
            final(self).pipes == old(self).pipes,
    {
        let real_socktype = socktype & 0x7;
        let nonblocking = (socktype & SOCK_NONBLOCK) != 0;
        let cloexec = (socktype & SOCK_CLOEXEC) != 0;

        if real_socktype == SOCK_STREAM {
            let newprotocol = if protocol == 0 {
                IPPROTO_TCP
            } else {
                protocol
            };
            if newprotocol != IPPROTO_TCP {
                return syscall_error(EOPNOTSUPP);
            }
            if domain == PF_INET || domain == PF_INET6 || domain == PF_UNIX {
                let sockfdobj = self._socket_initializer(
                    domain,
                    socktype,
                    newprotocol,
                    nonblocking,
                    cloexec,
                    ConnState::NOTCONNECTED,
                );
                self._socket_inserter(FileDescriptor::Socket(sockfdobj))
            } else {
                syscall_error(EOPNOTSUPP)
            }
        } else if real_socktype == SOCK_DGRAM {
            let newprotocol = if protocol == 0 {
                IPPROTO_UDP
            } else {
                protocol
            };
            if newprotocol != IPPROTO_UDP {
                return syscall_error(EOPNOTSUPP);
            }
            if domain == PF_INET || domain == PF_INET6 || domain == PF_UNIX {
                let sockfdobj = self._socket_initializer(
                    domain,
                    socktype,
                    newprotocol,
                    nonblocking,
                    cloexec,
                    ConnState::NOTCONNECTED,
                );
                self._socket_inserter(FileDescriptor::Socket(sockfdobj))
            } else {
                syscall_error(EOPNOTSUPP)
            }
        } else {
            syscall_error(EOPNOTSUPP)
        }
    }

    /// Install the kernel socket the host created for this handle; a no-op
    /// when one is already attached.
    pub fn force_innersocket(sockhandle: &mut SocketHandle, kernel_fd: i32)
        requires
            kernel_fd >= 0,
        ensures
            final(sockhandle).innersocket == (if old(sockhandle).innersocket is None {
                Some(kernel_fd)
            } else {
                old(sockhandle).innersocket
            }),
            *final(sockhandle) == (SocketHandle {
                innersocket: final(sockhandle).innersocket,
                ..*old(sockhandle)
            }),
    {
        if sockhandle.innersocket.is_none() {
            sockhandle.innersocket = Some(kernel_fd);
        }
    }

    /// A fresh synthetic Unix-domain address for an unbound handle.
    pub fn gen_ud_path(&mut self) -> (r: Path)
        ensures
            r@.absolute,
            r@.comps.len() == 1,
            *final(self) == (Cage {
                net: crate::net_types::NetMetadata {
                    ud_id_counter: final(self).net.ud_id_counter,
                    ..old(self).net
                },
                ..*old(self)
            }),
    {
        let id = self.net.ud_id_counter;
        self.net.ud_id_counter = if id < u64::MAX {
            id + 1
        } else {
            0
        };
        let mut name: Vec<u8> = Vec::new();
        name.push(115);
        name.push(111);
        name.push(99);
        name.push(107);
        let mut digits: Vec<u8> = Vec::new();
        let mut v: u64 = id;
        digits.push(48 + ((v % 10) as u8));
        v = v / 10;
        while v > 0
            invariant
                true,
            decreases v,
        {
            digits.push(48 + ((v % 10) as u8));
            v = v / 10;
        }
        let mut k: usize = digits.len();
        while k > 0
            invariant
                k <= digits@.len(),
            decreases k,
        {
            k = k - 1;
            name.push(digits[k]);
        }
        let mut comps: Vec<Vec<u8>> = Vec::new();
        comps.push(name);
        let r = Path { absolute: true, comps };
        proof {
            assert(crate::paths::comps_v(r.comps@).len() == 1);
        }
        r
    }

    /// The local address a bind would use: the one already bound, or a
    /// fresh synthetic Unix-domain address.
    pub fn assign_new_addr_unix(&mut self, sockhandle: &SocketHandle) -> (r: GenSockaddr)
        ensures
            final(self).fs == old(self).fs,
            final(self).fdtable == old(self).fdtable,
            final(self).pipes == old(self).pipes,
            final(self).cwd == old(self).cwd,
            final(self).net.domsock_paths == old(self).net.domsock_paths,
            final(self).net.domsock_accept_table == old(self).net.domsock_accept_table,
            final(self).net.listening_port_set == old(self).net.listening_port_set,
            final(self).net.pending_conn_table == old(self).net.pending_conn_table,
            final(self).net.porttable == old(self).net.porttable,
            sockhandle.localaddr matches Some(a) ==> r@ == a@,
            sockhandle.localaddr is None ==> r@ is Unix,
    {
        match &sockhandle.localaddr {
            Some(addr) => clone_gensockaddr(addr),
            None => {
                let path = self.gen_ud_path();
                // the single component, made back into raw path bytes
                let mut bytes: Vec<u8> = Vec::new();
                bytes.push(crate::paths::SEP);
                let mut c = crate::fs::clone_bytes(&path.comps[0]);
                bytes.append(&mut c);
                new_sockaddr_unix(AF_UNIX as u16, &bytes)
            },
        }
    }

    /// The local address an implicit bind uses: for inet domains a fresh
    /// reservation from the ephemeral range on the unspecified address.
    pub fn assign_new_addr(
        &mut self,
        sockhandle: &SocketHandle,
        domain: i32,
        rebindability: bool,
    ) -> (r: Result<GenSockaddr, i32>)
        ensures
            final(self).fs == old(self).fs,
            final(self).fdtable == old(self).fdtable,
            final(self).pipes == old(self).pipes,
            final(self).cwd == old(self).cwd,
            final(self).net.domsock_paths == old(self).net.domsock_paths,
            final(self).net.domsock_accept_table == old(self).net.domsock_accept_table,
            final(self).net.listening_port_set == old(self).net.listening_port_set,
            final(self).net.pending_conn_table == old(self).net.pending_conn_table,
            sockhandle.localaddr matches Some(a) ==> (r matches Ok(out) && out@ == a@),
            sockhandle.localaddr is None ==> match r {
                Ok(out) => {
                    &&& (domain == AF_UNIX ==> out@ is Unix)
                    &&& (domain == AF_INET ==> (out@ matches GenSockaddrV::V4(v) && v.family
                        == AF_INET as u16 && v.addr == 0))
                    &&& (domain == AF_INET6 ==> (out@ matches GenSockaddrV::V6(v) && v.family
                        == AF_INET6 as u16 && v.addr == 0))
                    &&& (domain == AF_UNIX || domain == AF_INET || domain == AF_INET6)
                },
                Err(e) => (e == -(EOPNOTSUPP as i32) && domain != AF_UNIX && domain != AF_INET
                    && domain != AF_INET6) || e == -(EADDRINUSE as i32),
            },
            (sockhandle.localaddr is None && (domain == AF_INET || domain == AF_INET6) && r
                is Err) ==> !ephemeral_available(
                old(self).net.porttable@,
                if domain == AF_INET {
                    GenIpaddr::V4(0)
                } else {
                    GenIpaddr::V6(0)
                },
                sockhandle.protocol,
                sockhandle.domain,
            ),
    {
        match &sockhandle.localaddr {
            Some(addr) => Ok(clone_gensockaddr(addr)),
            None => {
                if domain == AF_UNIX {
                    let path = self.gen_ud_path();
                    let mut bytes: Vec<u8> = Vec::new();
                    bytes.push(crate::paths::SEP);
                    let mut c = crate::fs::clone_bytes(&path.comps[0]);
                    bytes.append(&mut c);
                    Ok(new_sockaddr_unix(AF_UNIX as u16, &bytes))
                } else if domain == AF_INET {
                    let port = match self.net._reserve_localport(
                        GenIpaddr::V4(0),
                        0,
                        sockhandle.protocol,
                        sockhandle.domain,
                        rebindability,
                    ) {
                        Ok(p) => p,
                        Err(e) => {
                            return Err(e);
                        },
                    };
                    Ok(
                        GenSockaddr::V4(
                            SockaddrV4 { family: AF_INET as u16, port, addr: 0 },
                        ),
                    )
                } else if domain == AF_INET6 {
                    let port = match self.net._reserve_localport(
                        GenIpaddr::V6(0),
                        0,
                        sockhandle.protocol,
                        sockhandle.domain,
                        rebindability,
                    ) {
                        Ok(p) => p,
                        Err(e) => {
                            return Err(e);
                        },
                    };
                    Ok(
                        GenSockaddr::V6(
                            SockaddrV6 { family: AF_INET6 as u16, port, addr: 0 },
                        ),
                    )
                } else {
                    Err(syscall_error(EOPNOTSUPP))
                }
            },
        }
    }
}

} // verus!

verus! {

/// The result code of a Unix-domain bind, as a function of the path and
/// the pre-state: a missing or empty path refuses, an existing file is in
/// use, and a resolvable parent directory with room owes success.
pub open spec fn unix_bind_code(c0: Cage, pathb: Seq<u8>, r: i32) -> bool {
    let tp = truepath_comps(c0.cwd@.comps, pathb);
    let t0 = tbl_v(c0.fs.inodetable@);
    let w = walk(t0, Some(ROOTDIRECTORYINODE), None, tp);
    &&& (pathb.len() == 0 ==> r == -(ENOENT as i32))
    &&& (pathb.len() > 0 && w == (None::<usize>, None::<usize>) && walk_nondir(
        t0,
        Some(ROOTDIRECTORYINODE),
        tp,
    ) ==> r == -(ENOTDIR as i32))
    &&& (pathb.len() > 0 && w == (None::<usize>, None::<usize>) && !walk_nondir(
        t0,
        Some(ROOTDIRECTORYINODE),
        tp,
    ) ==> r == -(ENOENT as i32))
    &&& (pathb.len() > 0 && w.0 is Some ==> r == -(EADDRINUSE as i32))
    &&& ((pathb.len() > 0 && w.0 is None && w.1 is Some && tp.len() > 0 && (tbl_lookup(
        t0,
        w.1->Some_0,
    ) matches Some(InodeV::Dir(d)) && dict_lookup(d.dict, tp.last()) is None && d.dict.len()
        < DIRTABLE_CAP as nat) && tp.last().len() <= NAME_CAP as nat && c0.fs.nextinode
        < NEXTINODE_CAP && c0.fs.inodetable@.len() < NEXTINODE_CAP) ==> r == 0)
}

/// What a successful Unix-domain bind did to the filesystem and the
/// bound-path set: a fresh socket inode under the parent directory, the
/// parent's dictionary and link count grown by one, the normalized path
/// appended to the bound set, and everything else untouched.
pub open spec fn unix_bind_effects(
    c0: Cage,
    c1: Cage,
    ui: Option<UnixSocketInfo>,
    pathb: Seq<u8>,
) -> bool {
    let tp = truepath_comps(c0.cwd@.comps, pathb);
    let w = walk(tbl_v(c0.fs.inodetable@), Some(ROOTDIRECTORYINODE), None, tp);
    let par = w.1->Some_0;
    let newino = c0.fs.nextinode;
    &&& pathb.len() > 0
    &&& w.0 is None
    &&& w.1 is Some
    &&& tp.len() > 0
    &&& c1.fs.nextinode == c0.fs.nextinode + 1
    &&& c1.fs.dev_id == c0.fs.dev_id
    &&& (ui matches Some(u) && u.inode == newino && u.sendpipe is None && u.receivepipe is None)
    &&& (tbl_lookup(tbl_v(c1.fs.inodetable@), newino) matches Some(InodeV::Socket(si))
        && si.linkcount == 1 && si.refcount == 1)
    &&& (tbl_lookup(tbl_v(c0.fs.inodetable@), par) matches Some(InodeV::Dir(d0)) && tbl_lookup(
        tbl_v(c1.fs.inodetable@),
        par,
    ) == Some(
        InodeV::Dir(
            DirectoryInodeV {
                dict: d0.dict.push(DirEntryV { name: tp.last(), inode: newino }),
                linkcount: (d0.linkcount + 1) as u32,
                ..d0
            },
        ),
    ) && dict_lookup(d0.dict.push(DirEntryV { name: tp.last(), inode: newino }), tp.last())
        == Some(newino))
    &&& (forall|n: usize|
        n != par && n != newino ==> #[trigger] tbl_lookup(tbl_v(c1.fs.inodetable@), n)
            == tbl_lookup(tbl_v(c0.fs.inodetable@), n))
    &&& c1.net.domsock_paths@.len() == c0.net.domsock_paths@.len() + 1
    &&& c1.net.domsock_paths@.last()@.comps == tp
    &&& c1.net.domsock_paths@.last()@.absolute
    &&& (forall|j: int|
        0 <= j < c0.net.domsock_paths@.len() ==> c1.net.domsock_paths@[j]
            == c0.net.domsock_paths@[j])
}

/// `a` with its port replaced by `p`.
pub open spec fn addr_with_port(a: GenSockaddrV, p: u16) -> GenSockaddrV {
    match a {
        GenSockaddrV::Unix(u) => GenSockaddrV::Unix(u),
        GenSockaddrV::V4(v) => GenSockaddrV::V4(SockaddrV4 { port: p, ..v }),
        GenSockaddrV::V6(v) => GenSockaddrV::V6(SockaddrV6 { port: p, ..v }),
    }
}

/// Once the port grant is settled, the kernel's bind verdict decides: its
/// errno is passed through, and on success the handle records the
/// requested address stamped with the granted port.
pub open spec fn inet_bind_granted(
    la1: Option<GenSockaddrV>,
    av: GenSockaddrV,
    p: u16,
    kernel_bind_errno: i32,
    r: i32,
) -> bool {
    &&& (kernel_bind_errno != 0 ==> r == -kernel_bind_errno)
    &&& (kernel_bind_errno == 0 ==> r == 0 && la1 == Some(addr_with_port(av, p)))
}

/// The whole inet bind outcome: a requested port is granted when free or
/// when the handle carries the rebind intent (`SO_REUSEPORT`), port zero
/// draws a free ephemeral port, the grant is recorded in the port
/// registry, and the kernel errno decides the rest.
pub open spec fn inet_bind_post(
    pt0: Seq<PortRes>,
    pt1: Seq<PortRes>,
    la1: Option<GenSockaddrV>,
    av: GenSockaddrV,
    ip: GenIpaddr,
    reqport: u16,
    protocol: i32,
    domain: i32,
    rebind: bool,
    kernel_bind_errno: i32,
    r: i32,
) -> bool {
    &&& (reqport != 0 ==> {
        let already = port_reserved(pt0, ip, reqport, protocol, domain);
        &&& (already && !rebind ==> r == -(EADDRINUSE as i32) && pt1 == pt0)
        &&& (already && rebind ==> pt1 == pt0 && inet_bind_granted(
            la1,
            av,
            reqport,
            kernel_bind_errno,
            r,
        ))
        &&& (!already ==> pt1 == pt0.push(PortRes { addr: ip, port: reqport, protocol, domain })
            && inet_bind_granted(la1, av, reqport, kernel_bind_errno, r))
    })
    &&& (reqport == 0 ==> ((r == -(EADDRINUSE as i32) && pt1 == pt0 && !ephemeral_available(
        pt0,
        ip,
        protocol,
        domain,
    )) || (exists|p: u16|
        EPHEMERAL_PORT_START <= p <= EPHEMERAL_PORT_END && !#[trigger] port_reserved(
            pt0,
            ip,
            p,
            protocol,
            domain,
        ) && pt1 == pt0.push(PortRes { addr: ip, port: p, protocol, domain })
            && inet_bind_granted(la1, av, p, kernel_bind_errno, r))))
}

/// The inet bind outcome, read off a descriptor slot: when the slot holds
/// an unbound inet socket whose domain matches the address family, the
/// filesystem and bound-path set are untouched and `inet_bind_post`
/// relates the port registry, the slot's new local address and the result.
pub open spec fn bind_fd_inet_post(
    c0: Cage,
    c1: Cage,
    fd: int,
    localaddr: GenSockaddr,
    kernel_bind_errno: i32,
    r: i32,
) -> bool {
    c0.fdtable@[fd] matches Some(FileDescriptor::Socket(d)) ==> ((localaddr.spec_family()
        == d.handle.domain as u16 && d.handle.localaddr is None && (d.handle.domain == AF_INET
        || d.handle.domain == AF_INET6)) ==> c1.fs == c0.fs && c1.net.domsock_paths
        == c0.net.domsock_paths && (c1.fdtable@[fd] matches Some(FileDescriptor::Socket(d2))
        && inet_bind_post(
        c0.net.porttable@,
        c1.net.porttable@,
        oav(d2.handle.localaddr),
        localaddr@,
        localaddr.spec_addr(),
        localaddr.spec_port(),
        d.handle.protocol,
        d.handle.domain,
        d.handle.socket_options & (1i32 << SO_REUSEPORT) != 0,
        kernel_bind_errno,
        r,
    )))
}

impl Cage {
    /// Bind a Unix-domain socket: resolve the path, allocate a socket
    /// inode under its parent directory, and publish the path in the
    /// bound-path set.
    pub fn bind_inner_socket_unix(&mut self, sockhandle: &mut SocketHandle, newsockaddr: &GenSockaddr) -> (r: i32)
        requires
            fs_wf(old(self).fs@),
            newsockaddr@ is Unix,
        ensures
            fs_wf(final(self).fs@),
            final(self).net.porttable == old(self).net.porttable,
            final(self).net.listening_port_set == old(self).net.listening_port_set,
            final(self).net.pending_conn_table == old(self).net.pending_conn_table,
            final(self).net.domsock_accept_table == old(self).net.domsock_accept_table,
            final(self).net.next_ephemeral == old(self).net.next_ephemeral,
            final(self).net.ud_id_counter == old(self).net.ud_id_counter,
            final(self).fdtable == old(self).fdtable,
            final(self).pipes == old(self).pipes,
            final(self).cwd == old(self).cwd,
            unix_bind_code(*old(self), newsockaddr@->Unix_0.path, r),
            r != 0 ==> final(self).fs@ == old(self).fs@ && final(self).net.domsock_paths == old(self).net.domsock_paths && *final(sockhandle) == *old(sockhandle),
            r == 0 ==> unix_bind_effects(
                *old(self),
                *final(self),
                final(sockhandle).unix_info,
                newsockaddr@->Unix_0.path,
            ) && *final(sockhandle) == (SocketHandle {
                unix_info: final(sockhandle).unix_info,
                ..*old(sockhandle)
            }),
    {
        let path = newsockaddr.path();
        if path.len() == 0 {
            return syscall_error(ENOENT);
        }
        let parsed = convpath(path);
        let truepath = normpath(&parsed, &self.cwd);
        let ghost tp = truepath@.comps;
        let (found, parent) = metawalkandparent(&truepath, &self.fs);
        match (found, parent) {
            (None, None) => {
                if walk_blocked_by_nondir(&truepath, &self.fs) {
                    syscall_error(ENOTDIR)
                } else {
                    syscall_error(ENOENT)
                }
            },
            (Some(_), _) => syscall_error(EADDRINUSE),
            (None, Some(pardirinode)) => {
                // a normalized path that resolved to a parent has at least
                // one component: an empty path resolves to the root itself
                proof {
                    assert(tp.len() > 0) by {
                        if tp.len() == 0 {
                            assert(walk(
                                tbl_v(old(self).fs.inodetable@),
                                Some(ROOTDIRECTORYINODE),
                                None,
                                tp,
                            ) == (Some(ROOTDIRECTORYINODE), None::<usize>));
                        }
                    }
                }
                let filename = crate::fs::clone_bytes(&truepath.comps[truepath.comps.len() - 1]);
                proof {
                    assert(filename@ == tp.last());
                }
                if filename.len() > NAME_CAP {
                    return syscall_error(EINVAL);
                }
                if self.fs.nextinode >= NEXTINODE_CAP || self.fs.inodetable.len() >= NEXTINODE_CAP
                {
                    return syscall_error(EINVAL);
                }
                let paridx = match tbl_find(&self.fs.inodetable, pardirinode) {
                    Some(i) => i,
                    None => {
                        return syscall_error(ENOTDIR);
                    },
                };
                let ghost t0 = tbl_v(self.fs.inodetable@);
                let ghost oldrow = t0[paridx as int];
                let mut parpair = self.fs.inodetable.remove(paridx);
                proof {
                    assert(parpair@ == oldrow);
                }
                let newinodenum = self.fs.nextinode;
                let r: i32 = match &mut parpair.inode {
                    Inode::Dir(dir) => {
                        if dir.filename_to_inode_dict.len() >= DIRTABLE_CAP {
                            -EINVAL
                        } else {
                            match crate::fs::dict_find(&dir.filename_to_inode_dict, &filename) {
                                Some(_) => -EADDRINUSE,
                                None => {
                                    let ghost d0 = dict_v(dir.filename_to_inode_dict@);
                                    proof {
                                        assert(inode_wf(InodeV::Dir(dir@)));
                                    }
                                    let ghost fname = filename@;
                                    dir.filename_to_inode_dict.push(
                                        DirEntry { name: filename, inode: newinodenum },
                                    );
                                    dir.linkcount = dir.linkcount + 1;
                                    proof {
                                        let d1 = dict_v(dir.filename_to_inode_dict@);
                                        assert(d1 =~= d0.push(
                                            DirEntryV { name: tp.last(), inode: newinodenum },
                                        ));
                                        crate::fs::lemma_dict_lookup_push(
                                            d0,
                                            DirEntryV { name: tp.last(), inode: newinodenum },
                                            tp.last(),
                                        );
                                        crate::fs::lemma_dict_none_no_index(d0, tp.last());
                                        assert forall|a: int, b: int|
                                            0 <= a < b < d1.len() implies d1[a].name
                                            != d1[b].name by {
                                            if b < d0.len() {
                                                assert(d1[a] == d0[a] && d1[b] == d0[b]);
                                            } else {
                                                assert(d1[a] == d0[a]);
                                                assert(d0[a].name != tp.last());
                                            }
                                        }
                                        assert(inode_wf(InodeV::Dir(dir@)));
                                    }
                                    0
                                },
                            }
                        }
                    },
                    _ => -ENOTDIR,
                };
                if r != 0 {
                    self.fs.inodetable.insert(paridx, parpair);
                    proof {
                        assert(tbl_v(self.fs.inodetable@) =~= tbl_v(old(self).fs.inodetable@));
                        assert(self.fs@ =~~= old(self).fs@);
                    }
                    return r;
                }
                let mode = match &parpair.inode {
                    Inode::Dir(dir) => (dir.mode | S_FILETYPEFLAGS) & S_IRWXA,
                    _ => 0,
                };
                let effective_mode = S_IFSOCK | mode;
                let newinode = Inode::Socket(
                    SocketInode {
                        size: 0,
                        uid: DEFAULT_UID,
                        gid: DEFAULT_GID,
                        mode: effective_mode,
                        linkcount: 1,
                        refcount: 1,
                        atime: 0,
                        ctime: 0,
                        mtime: 0,
                    },
                );
                self.fs.inodetable.insert(paridx, parpair);
                proof {
                    let p = self.fs.inodetable@[paridx as int]@;
                    assert(tbl_v(self.fs.inodetable@) =~= t0.update(paridx as int, p));
                    assert forall|n: usize| #[trigger]
                        tbl_lookup(tbl_v(self.fs.inodetable@), n) == (if n == pardirinode {
                            Some(p.inode)
                        } else {
                            tbl_lookup(t0, n)
                        }) by {
                        crate::fs::lemma_tbl_lookup_update(t0, pardirinode, paridx as int, p, n);
                    }
                }
                let ghost t1 = tbl_v(self.fs.inodetable@);
                proof {
                    if tbl_lookup(t1, newinodenum) is Some {
                        crate::fs::lemma_tbl_lookup_index(t1, newinodenum);
                        let i = choose|i: int|
                            0 <= i < t1.len() && t1[i].num == newinodenum && #[trigger] t1[i].inode
                                == tbl_lookup(t1, newinodenum)->Some_0;
                        assert(t1[i].num == t0[i].num);
                        assert(t0[i].num < old(self).fs.nextinode);
                        assert(false);
                    }
                }
                self.fs.inodetable.push(InodePair { num: newinodenum, inode: newinode });
                self.fs.nextinode = newinodenum + 1;
                proof {
                    let np = InodePairV {
                        num: newinodenum,
                        inode: self.fs.inodetable@.last()@.inode,
                    };
                    assert(tbl_v(self.fs.inodetable@) =~= t1.push(np));
                    assert forall|n: usize| #[trigger]
                        tbl_lookup(tbl_v(self.fs.inodetable@), n) == (if n == newinodenum {
                            Some(np.inode)
                        } else {
                            tbl_lookup(t1, n)
                        }) by {
                        crate::fs::lemma_tbl_lookup_push(t1, np, n);
                    }
                    // the table stays well formed
                    assert(fs_wf(self.fs@)) by {
                        assert forall|k: int|
                            0 <= k < tbl_v(self.fs.inodetable@).len() implies (#[trigger] tbl_v(
                            self.fs.inodetable@,
                        )[k]).num < self.fs.nextinode && inode_wf(
                            tbl_v(self.fs.inodetable@)[k].inode,
                        ) by {
                            if k < t0.len() && k != paridx {
                                assert(tbl_v(self.fs.inodetable@)[k] == t0[k]);
                            }
                            if k == paridx {
                                assert(tbl_v(self.fs.inodetable@)[paridx as int].inode
                                    == parpair@.inode);
                            }
                        }
                        assert(crate::fs::tbl_unique(tbl_v(self.fs.inodetable@))) by {
                            crate::fs::lemma_tbl_none_no_index(t1, newinodenum);
                            assert(forall|j: int|
                                0 <= j < t1.len() ==> #[trigger] tbl_v(self.fs.inodetable@)[j].num
                                    == t0[j].num);
                            assert(forall|j: int|
                                0 <= j < t1.len() ==> tbl_v(self.fs.inodetable@)[j].num
                                    != newinodenum);
                        }
                    }
                }
                sockhandle.unix_info = Some(
                    UnixSocketInfo {
                        mode: S_IFSOCK | 0o666,
                        sendpipe: None,
                        receivepipe: None,
                        inode: newinodenum,
                    },
                );
                self.net.domsock_paths.push(truepath);
                0
            },
        }
    }
}

} // verus!

verus! {

/// The handle's Unix-domain pipe bookkeeping either survived a call
/// unchanged or carries no pipes yet.
pub open spec fn unix_info_fresh_or_same(h0: SocketHandle, h1: SocketHandle) -> bool {
    h1.unix_info == h0.unix_info || (h1.unix_info matches Some(u) && u.sendpipe is None
        && u.receivepipe is None)
}

/// Every pipe the handle refers to exists in the pipe table.
pub open spec fn unix_pipes_valid(h: SocketHandle, npipes: nat) -> bool {
    h.unix_info matches Some(u) ==> ((u.sendpipe matches Some(p) ==> p < npipes) && (
    u.receivepipe matches Some(p2) ==> p2 < npipes))
}

impl Cage {
    /// Bind an inet socket: attach the kernel socket, reserve the port
    /// (honoring a rebind intent), stamp the granted port into the
    /// address, and surface whatever the kernel bind answered.
    pub fn bind_inner_socket_inet(
        &mut self,
        sockhandle: &mut SocketHandle,
        newsockaddr: &mut GenSockaddr,
        prereserved: bool,
        kernel_fd: i32,
        kernel_bind_errno: i32,
    ) -> (r: i32)
        requires
            kernel_fd >= 0,
            0 <= kernel_bind_errno <= 0x10000,
        ensures
            final(self).fs == old(self).fs,
            final(self).fdtable == old(self).fdtable,
            final(self).pipes == old(self).pipes,
            final(self).cwd == old(self).cwd,
            final(self).net.domsock_paths == old(self).net.domsock_paths,
            final(self).net.domsock_accept_table == old(self).net.domsock_accept_table,
            final(self).net.listening_port_set == old(self).net.listening_port_set,
            final(self).net.pending_conn_table == old(self).net.pending_conn_table,
            final(sockhandle).innersocket == (if old(sockhandle).innersocket is None {
                Some(kernel_fd)
            } else {
                old(sockhandle).innersocket
            }),
            *final(sockhandle) == (SocketHandle {
                innersocket: final(sockhandle).innersocket,
                ..*old(sockhandle)
            }),
            unix_info_fresh_or_same(*old(sockhandle), *final(sockhandle)),
            r == 0 || r < 0,
            r == 0 && kernel_bind_errno != 0 ==> false,
            prereserved ==> (r == 0) == (kernel_bind_errno == 0),
            !prereserved ==> inet_bind_post(
                old(self).net.porttable@,
                final(self).net.porttable@,
                (if r == 0 {
                    Some(final(newsockaddr)@)
                } else {
                    None
                }),
                old(newsockaddr)@,
                old(newsockaddr).spec_addr(),
                old(newsockaddr).spec_port(),
                old(sockhandle).protocol,
                old(sockhandle).domain,
                old(sockhandle).socket_options & (1i32 << SO_REUSEPORT) != 0,
                kernel_bind_errno,
                r,
            ),
    {
        let intent_to_rebind = sockhandle.socket_options & (1i32 << SO_REUSEPORT) != 0;
        Self::force_innersocket(sockhandle, kernel_fd);

        let newlocalport = if prereserved {
            newsockaddr.port()
        } else {
            match self.net._reserve_localport(
                newsockaddr.addr(),
                newsockaddr.port(),
                sockhandle.protocol,
                sockhandle.domain,
                intent_to_rebind,
            ) {
                Ok(p) => p,
                Err(e) => {
                    return e;
                },
            }
        };
        newsockaddr.set_port(newlocalport);
        if kernel_bind_errno != 0 {
            return -kernel_bind_errno;
        }
        0
    }

    /// Bind one handle.  The address family must match the socket's
    /// domain, and a handle that is already bound refuses a second bind.
    pub fn bind_inner_socket(
        &mut self,
        sockhandle: &mut SocketHandle,
        localaddr: &GenSockaddr,
        prereserved: bool,
        kernel_fd: i32,
        kernel_bind_errno: i32,
    ) -> (r: i32)
        requires
            kernel_fd >= 0,
            0 <= kernel_bind_errno <= 0x10000,
            fs_wf(old(self).fs@),
        ensures
            fs_wf(final(self).fs@),
            final(self).fdtable == old(self).fdtable,
            final(self).pipes == old(self).pipes,
            final(self).cwd == old(self).cwd,
            final(self).net.domsock_accept_table == old(self).net.domsock_accept_table,
            final(self).net.pending_conn_table == old(self).net.pending_conn_table,
            final(self).net.listening_port_set == old(self).net.listening_port_set,
            unix_info_fresh_or_same(*old(sockhandle), *final(sockhandle)),
            unix_pipes_valid(*old(sockhandle), old(self).pipes@.len()) ==> unix_pipes_valid(
                *final(sockhandle),
                final(self).pipes@.len(),
            ),
            final(sockhandle).remoteaddr == old(sockhandle).remoteaddr,
            final(sockhandle).state == old(sockhandle).state,
            final(sockhandle).last_peek == old(sockhandle).last_peek,
            final(sockhandle).domain == old(sockhandle).domain,
            final(sockhandle).protocol == old(sockhandle).protocol,
            final(sockhandle).socket_options == old(sockhandle).socket_options,
            final(sockhandle).socktype == old(sockhandle).socktype,
            localaddr.spec_family() != old(sockhandle).domain as u16 ==> r == -(EINVAL as i32)
                && *final(sockhandle) == *old(sockhandle) && final(self).fs == old(self).fs
                && final(self).net == old(self).net,
            (localaddr.spec_family() == old(sockhandle).domain as u16
                && old(sockhandle).localaddr is Some) ==> r == -(EINVAL as i32)
                && *final(sockhandle) == *old(sockhandle) && final(self).fs == old(self).fs
                && final(self).net == old(self).net,
            (localaddr.spec_family() == old(sockhandle).domain as u16
                && old(sockhandle).localaddr is None && old(sockhandle).domain != AF_UNIX
                && old(sockhandle).domain != AF_INET && old(sockhandle).domain != AF_INET6) ==> r
                == -(EINVAL as i32) && *final(sockhandle) == *old(sockhandle) && final(self).fs
                == old(self).fs && final(self).net == old(self).net,
            (old(sockhandle).domain == AF_UNIX && r != 0) ==> final(self).fs@ == old(self).fs@
                && final(self).net.domsock_paths == old(self).net.domsock_paths
                && final(self).net.porttable == old(self).net.porttable && *final(sockhandle)
                == *old(sockhandle),
            (localaddr.spec_family() == old(sockhandle).domain as u16
                && old(sockhandle).localaddr is None && (old(sockhandle).domain == AF_INET
                || old(sockhandle).domain == AF_INET6) && !prereserved) ==> final(self).fs
                == old(self).fs && final(self).net.domsock_paths == old(self).net.domsock_paths
                && inet_bind_post(
                old(self).net.porttable@,
                final(self).net.porttable@,
                oav(final(sockhandle).localaddr),
                localaddr@,
                localaddr.spec_addr(),
                localaddr.spec_port(),
                old(sockhandle).protocol,
                old(sockhandle).domain,
                old(sockhandle).socket_options & (1i32 << SO_REUSEPORT) != 0,
                kernel_bind_errno,
                r,
            ),
            r == 0 ==> final(sockhandle).localaddr is Some,
            r != 0 ==> final(sockhandle).localaddr == old(sockhandle).localaddr,
            (localaddr.spec_family() == old(sockhandle).domain as u16
                && old(sockhandle).localaddr is None && (old(sockhandle).domain == AF_INET
                || old(sockhandle).domain == AF_INET6) && prereserved && kernel_bind_errno == 0)
                ==> r == 0,
            (localaddr.spec_family() == old(sockhandle).domain as u16
                && old(sockhandle).localaddr is None && old(sockhandle).domain == AF_UNIX
                && localaddr@ is Unix) ==> unix_bind_code(
                *old(self),
                localaddr@->Unix_0.path,
                r,
            ) && (r == 0 ==> unix_bind_effects(
                *old(self),
                *final(self),
                final(sockhandle).unix_info,
                localaddr@->Unix_0.path,
            ) && oav(final(sockhandle).localaddr) == Some(localaddr@)),
            old(sockhandle).domain == AF_UNIX ==> final(self).net.porttable == old(self).net.porttable,
    {
        if localaddr.get_family() != sockhandle.domain as u16 {
            return syscall_error(EINVAL);
        }
        if sockhandle.localaddr.is_some() {
            return syscall_error(EINVAL);
        }
        let mut newsockaddr = clone_gensockaddr(localaddr);
        let res: i32 = if sockhandle.domain == AF_UNIX {
            match &newsockaddr {
                GenSockaddr::Unix(_) => {},
                _ => {
                    return syscall_error(EINVAL);
                },
            }
            self.bind_inner_socket_unix(sockhandle, &newsockaddr)
        } else if sockhandle.domain == AF_INET || sockhandle.domain == AF_INET6 {
            self.bind_inner_socket_inet(
                sockhandle,
                &mut newsockaddr,
                prereserved,
                kernel_fd,
                kernel_bind_errno,
            )
        } else {
            return syscall_error(EINVAL);
        };
        // an error leaves the handle unbound
        if res == 0 {
            sockhandle.localaddr = Some(newsockaddr);
        }
        res
    }

    /// Bind the socket behind a descriptor.
    pub fn bind_inner(
        &mut self,
        fd: i32,
        localaddr: &GenSockaddr,
        prereserved: bool,
        kernel_fd: i32,
        kernel_bind_errno: i32,
    ) -> (r: i32)
        requires
            kernel_fd >= 0,
            0 <= kernel_bind_errno <= 0x10000,
            cage_wf(*old(self)),
        ensures
            cage_wf(*final(self)),
            !(0 <= fd < old(self).fdtable@.len() && old(self).fdtable@[fd as int] is Some) ==> r
                == -(EBADF as i32) && final(self).fdtable@ == old(self).fdtable@ && final(self).fs
                == old(self).fs && final(self).net == old(self).net,
            (0 <= fd < old(self).fdtable@.len() && (old(self).fdtable@[fd as int] matches Some(e)
                && !(e is Socket))) ==> r == -(ENOTSOCK as i32) && final(self).fs == old(self).fs
                && final(self).net == old(self).net && final(self).fdtable@ == old(self).fdtable@,
            (0 <= fd < old(self).fdtable@.len() && (old(self).fdtable@[fd as int] matches Some(
                FileDescriptor::Socket(d),
            ) && d.handle.localaddr is Some)) ==> r == -(EINVAL as i32) && final(self).fs == old(self).fs && final(self).net == old(self).net && final(self).fdtable@ == old(self).fdtable@,
            (0 <= fd < old(self).fdtable@.len() ==> (old(self).fdtable@[fd as int] matches Some(
                FileDescriptor::Socket(d),
            ) ==> (r != 0 && d.handle.domain == AF_UNIX ==> final(self).fs@ == old(self).fs@
                && final(self).net.domsock_paths == old(self).net.domsock_paths && final(self).net.porttable == old(self).net.porttable && final(self).fdtable@[fd as int] == old(self).fdtable@[fd as int]))),
            (0 <= fd < old(self).fdtable@.len() && !prereserved) ==> bind_fd_inet_post(
                *old(self),
                *final(self),
                fd as int,
                *localaddr,
                kernel_bind_errno,
                r,
            ),
            (0 <= fd < old(self).fdtable@.len() ==> (old(self).fdtable@[fd as int] matches Some(
                FileDescriptor::Socket(d),
            ) ==> ((localaddr.spec_family() == d.handle.domain as u16 && d.handle.localaddr
                is None && d.handle.domain == AF_UNIX && localaddr@ is Unix) ==> unix_bind_code(
                *old(self),
                localaddr@->Unix_0.path,
                r,
            ) && (r == 0 ==> (final(self).fdtable@[fd as int] matches Some(
                FileDescriptor::Socket(d2),
            ) && unix_bind_effects(
                *old(self),
                *final(self),
                d2.handle.unix_info,
                localaddr@->Unix_0.path,
            ) && oav(d2.handle.localaddr) == Some(localaddr@)))))),
    {
        match self.take_fd(fd) {
            None => {
                proof {
                    if 0 <= fd < old(self).fdtable@.len() {
                        assert(self.fdtable@ =~= old(self).fdtable@);
                    }
                }
                syscall_error(EBADF)
            },
            Some(FileDescriptor::Socket(mut desc)) => {
                let ghost c_mid = *self;
                let r = self.bind_inner_socket(
                    &mut desc.handle,
                    localaddr,
                    prereserved,
                    kernel_fd,
                    kernel_bind_errno,
                );
                let ghost dfin = desc;
                let ghost c_post = *self;
                self.put_fd(fd, FileDescriptor::Socket(desc));
                proof {
                    // the bind outcome transfers across the slot's
                    // removal and restoration: those touch only the table
                    assert(c_mid.cwd == old(self).cwd && c_mid.fs == old(self).fs
                        && c_mid.net.domsock_paths == old(self).net.domsock_paths);
                    assert(self.fs == c_post.fs && self.net.domsock_paths
                        == c_post.net.domsock_paths);
                    assert(c_mid.net == old(self).net && self.net == c_post.net);
                    assert(self.fdtable@[fd as int] == Some(FileDescriptor::Socket(dfin)));
                    if r != 0 && old(self).fdtable@[fd as int]->Some_0->Socket_0.handle.domain
                        == AF_UNIX {
                        assert(self.fdtable@[fd as int] == old(self).fdtable@[fd as int]);
                    }
                    assert(cage_wf(*self)) by {
                        assert forall|j: int|
                            0 <= j < self.fdtable@.len() implies ((#[trigger] self.fdtable@[j])
                            matches Some(f) ==> crate::cage::fd_wf(f, self.pipes@.len())) by {
                            if j != fd {
                                assert(self.fdtable@[j] == old(self).fdtable@[j]);
                            } else {
                                assert(crate::cage::fd_wf(
                                    old(self).fdtable@[fd as int]->Some_0,
                                    old(self).pipes@.len(),
                                ));
                            }
                        }
                    }
                }
                r
            },
            Some(other) => {
                self.put_fd(fd, other);
                proof {
                    assert(self.fdtable@ =~= old(self).fdtable@);
                }
                syscall_error(ENOTSOCK)
            },
        }
    }

    /// The bind system call.
    pub fn bind_syscall(&mut self, fd: i32, localaddr: &GenSockaddr, kernel_fd: i32, kernel_bind_errno: i32) -> (
        r: i32)
        requires
            kernel_fd >= 0,
            0 <= kernel_bind_errno <= 0x10000,
            cage_wf(*old(self)),
        ensures
            cage_wf(*final(self)),
            !(0 <= fd < old(self).fdtable@.len() && old(self).fdtable@[fd as int] is Some) ==> r
                == -(EBADF as i32) && final(self).fdtable@ == old(self).fdtable@ && final(self).fs
                == old(self).fs && final(self).net == old(self).net,
            (0 <= fd < old(self).fdtable@.len() && (old(self).fdtable@[fd as int] matches Some(e)
                && !(e is Socket))) ==> r == -(ENOTSOCK as i32) && final(self).fs == old(self).fs
                && final(self).net == old(self).net && final(self).fdtable@ == old(self).fdtable@,
            (0 <= fd < old(self).fdtable@.len() && (old(self).fdtable@[fd as int] matches Some(
                FileDescriptor::Socket(d),
            ) && d.handle.localaddr is Some)) ==> r == -(EINVAL as i32) && final(self).fs
                == old(self).fs && final(self).net == old(self).net && final(self).fdtable@
                == old(self).fdtable@,
            (0 <= fd < old(self).fdtable@.len() ==> (old(self).fdtable@[fd as int] matches Some(
                FileDescriptor::Socket(d),
            ) ==> (r != 0 && d.handle.domain == AF_UNIX ==> final(self).fs@ == old(self).fs@
                && final(self).net.domsock_paths == old(self).net.domsock_paths
                && final(self).net.porttable == old(self).net.porttable
                && final(self).fdtable@[fd as int] == old(self).fdtable@[fd as int]))),
            0 <= fd < old(self).fdtable@.len() ==> bind_fd_inet_post(
                *old(self),
                *final(self),
                fd as int,
                *localaddr,
                kernel_bind_errno,
                r,
            ),
            (0 <= fd < old(self).fdtable@.len() ==> (old(self).fdtable@[fd as int] matches Some(
                FileDescriptor::Socket(d),
            ) ==> ((localaddr.spec_family() == d.handle.domain as u16 && d.handle.localaddr
                is None && d.handle.domain == AF_UNIX && localaddr@ is Unix) ==> unix_bind_code(
                *old(self),
                localaddr@->Unix_0.path,
                r,
            ) && (r == 0 ==> (final(self).fdtable@[fd as int] matches Some(
                FileDescriptor::Socket(d2),
            ) && unix_bind_effects(
                *old(self),
                *final(self),
                d2.handle.unix_info,
                localaddr@->Unix_0.path,
            ) && oav(d2.handle.localaddr) == Some(localaddr@)))))),
    {
        self.bind_inner(fd, localaddr, false, kernel_fd, kernel_bind_errno)
    }

    /// Bind an unbound handle to a fresh local address; a bound handle is
    /// left alone.
    pub fn _implicit_bind(
        &mut self,
        sockhandle: &mut SocketHandle,
        domain: i32,
        kernel_fd: i32,
        kernel_bind_errno: i32,
    ) -> (r: i32)
        requires
            kernel_fd >= 0,
            0 <= kernel_bind_errno <= 0x10000,
            fs_wf(old(self).fs@),
        ensures
            fs_wf(final(self).fs@),
            final(self).fdtable == old(self).fdtable,
            final(self).pipes == old(self).pipes,
            final(self).net.domsock_accept_table == old(self).net.domsock_accept_table,
            final(self).net.listening_port_set == old(self).net.listening_port_set,
            final(self).net.pending_conn_table == old(self).net.pending_conn_table,
            unix_info_fresh_or_same(*old(sockhandle), *final(sockhandle)),
            unix_pipes_valid(*old(sockhandle), old(self).pipes@.len()) ==> unix_pipes_valid(
                *final(sockhandle),
                final(self).pipes@.len(),
            ),
            final(sockhandle).remoteaddr == old(sockhandle).remoteaddr,
            final(sockhandle).state == old(sockhandle).state,
            final(sockhandle).last_peek == old(sockhandle).last_peek,
            final(sockhandle).domain == old(sockhandle).domain,
            final(sockhandle).protocol == old(sockhandle).protocol,
            old(sockhandle).localaddr is Some ==> r == 0 && *final(sockhandle) == *old(sockhandle)
                && *final(self) == *old(self),
            r == 0 ==> final(sockhandle).localaddr is Some,
            (old(sockhandle).localaddr is None && (domain == AF_INET || domain == AF_INET6)
                && domain == old(sockhandle).domain && kernel_bind_errno == 0
                && ephemeral_available(
                old(self).net.porttable@,
                if domain == AF_INET {
                    GenIpaddr::V4(0)
                } else {
                    GenIpaddr::V6(0)
                },
                old(sockhandle).protocol,
                old(sockhandle).domain,
            )) ==> r == 0,
    {
        if sockhandle.localaddr.is_some() {
            return 0;
        }
        let localaddr = match self.assign_new_addr(
            sockhandle,
            domain,
            sockhandle.protocol & (1i32 << SO_REUSEPORT) != 0,
        ) {
            Ok(a) => a,
            Err(e) => {
                return e;
            },
        };
        let bindret = self.bind_inner_socket(
            sockhandle,
            &localaddr,
            true,
            kernel_fd,
            kernel_bind_errno,
        );
        bindret
    }
}

} // verus!

verus! {

impl Cage {
    /// Connect a datagram socket: record the remote address and bind the
    /// local side if it has no address yet.
    pub fn connect_udp(
        &mut self,
        sockhandle: &mut SocketHandle,
        remoteaddr: &GenSockaddr,
        kernel_fd: i32,
        kernel_bind_errno: i32,
    ) -> (r: i32)
        requires
            kernel_fd >= 0,
            0 <= kernel_bind_errno <= 0x10000,
            fs_wf(old(self).fs@),
        ensures
            fs_wf(final(self).fs@),
            final(self).fdtable == old(self).fdtable,
            final(self).pipes == old(self).pipes,
            final(self).net.domsock_accept_table == old(self).net.domsock_accept_table,
            unix_info_fresh_or_same(*old(sockhandle), *final(sockhandle)),
            unix_pipes_valid(*old(sockhandle), old(self).pipes@.len()) ==> unix_pipes_valid(
                *final(sockhandle),
                final(self).pipes@.len(),
            ),
            oav(final(sockhandle).remoteaddr) == Some(remoteaddr@),
            old(sockhandle).localaddr is Some ==> r == 0 && *final(sockhandle) == (SocketHandle {
                remoteaddr: final(sockhandle).remoteaddr,
                ..*old(sockhandle)
            }),
            r == 0 ==> final(sockhandle).localaddr is Some,
    {
        sockhandle.remoteaddr = Some(clone_gensockaddr(remoteaddr));
        match &sockhandle.localaddr {
            Some(_) => 0,
            None => {
                let localaddr = match self.assign_new_addr(
                    sockhandle,
                    sockhandle.domain,
                    sockhandle.protocol & (1i32 << SO_REUSEPORT) != 0,
                ) {
                    Ok(a) => a,
                    Err(e) => {
                        return e;
                    },
                };
                self.bind_inner_socket(sockhandle, &localaddr, true, kernel_fd, kernel_bind_errno)
            },
        }
    }

    /// Connect a Unix-domain stream socket: make the pipe pair, publish
    /// the rendezvous under the listener's path (pipes already swapped for
    /// the acceptor), and become connected.
    pub fn connect_tcp_unix(
        &mut self,
        sockhandle: &mut SocketHandle,
        flags: i32,
        remoteaddr: &GenSockaddr,
    ) -> (r: i32)
        requires
            fs_wf(old(self).fs@),
            old(sockhandle).state == ConnState::NOTCONNECTED,
        ensures
            fs_wf(final(self).fs@),
            final(self).fdtable == old(self).fdtable,
            old(self).pipes@.len() <= final(self).pipes@.len(),
            unix_pipes_valid(*old(sockhandle), old(self).pipes@.len()) ==> unix_pipes_valid(
                *final(sockhandle),
                final(self).pipes@.len(),
            ),
            crate::net_types::accept_entries_valid(
                old(self).net.domsock_accept_table@,
                old(self).pipes@.len(),
            ) ==> crate::net_types::accept_entries_valid(
                final(self).net.domsock_accept_table@,
                final(self).pipes@.len(),
            ),
            !(remoteaddr@ is Unix) ==> r == -(EINVAL as i32) && *final(self) == *old(self)
                && *final(sockhandle) == *old(sockhandle),
            (remoteaddr@ is Unix && old(sockhandle).localaddr is Some && !dom_paths_has(
                old(self).net.domsock_paths@,
                crate::paths::PathV {
                    absolute: true,
                    comps: truepath_comps(old(self).cwd@.comps, remoteaddr@->Unix_0.path),
                },
            )) ==> r == -(ENOENT as i32),
            (remoteaddr@ is Unix && old(sockhandle).localaddr is Some && old(sockhandle).unix_info is Some && dom_paths_has(
                old(self).net.domsock_paths@,
                crate::paths::PathV {
                    absolute: true,
                    comps: truepath_comps(old(self).cwd@.comps, remoteaddr@->Unix_0.path),
                },
            )) ==> r == 0,
            r == 0 ==> {
                &&& final(sockhandle).state == ConnState::CONNECTED
                &&& oav(final(sockhandle).remoteaddr) == Some(remoteaddr@)
                &&& (final(sockhandle).unix_info matches Some(u) && u.sendpipe matches Some(p1)
                    && u.receivepipe matches Some(p2) && p1 == old(self).pipes@.len()
                    && p2 == old(self).pipes@.len() + 1)
                &&& final(self).pipes@.len() == old(self).pipes@.len() + 2
                &&& final(self).pipes@[old(self).pipes@.len() as int] == Seq::<u8>::empty()
                &&& final(self).pipes@[old(self).pipes@.len() as int + 1] == Seq::<u8>::empty()
                &&& (forall|k: int|
                    0 <= k < old(self).pipes@.len()
                        ==> final(self).pipes@[k] == old(self).pipes@[k])
                &&& final(self).net.domsock_accept_table@.len()
                    == old(self).net.domsock_accept_table@.len() + 1
                &&& (final(self).net.domsock_accept_table@.last().1.receive_pipe
                    == old(self).pipes@.len()
                    && final(self).net.domsock_accept_table@.last().1.send_pipe
                    == old(self).pipes@.len() + 1)
            },
            r != 0 ==> final(self).pipes@.len() >= old(self).pipes@.len(),
    {
        match remoteaddr {
            GenSockaddr::Unix(_) => {},
            _ => {
                return syscall_error(EINVAL);
            },
        }
        if sockhandle.localaddr.is_none() {
            let localaddr = self.assign_new_addr_unix(sockhandle);
            match &localaddr {
                GenSockaddr::Unix(_) => {},
                _ => {
                    return syscall_error(EINVAL);
                },
            }
            let bindret = self.bind_inner_socket(sockhandle, &localaddr, false, 0, 0);
            if bindret != 0 {
                return bindret;
            }
        }
        let parsed = convpath(remoteaddr.path());
        let remotepathbuf = normpath(&parsed, &self.cwd);
        if !self.net.domsock_paths_contains(&remotepathbuf) {
            return syscall_error(ENOENT);
        }
        let (pipe1, pipe2) = self.pipes.create_unix_sockpipes();
        match &mut sockhandle.unix_info {
            Some(u) => {
                u.sendpipe = Some(pipe1);
                u.receivepipe = Some(pipe2);
            },
            None => {
                return syscall_error(EINVAL);
            },
        }
        sockhandle.remoteaddr = Some(clone_gensockaddr(remoteaddr));
        let localcopy = match &sockhandle.localaddr {
            Some(a) => clone_gensockaddr(a),
            None => {
                return syscall_error(EINVAL);
            },
        };
        let entry = crate::net_types::DomsockTableEntry {
            sockaddr: localcopy,
            receive_pipe: pipe1,
            send_pipe: pipe2,
            cond_blocking: flags & O_NONBLOCK == 0,
        };
        self.net.domsock_accept_table.push((remotepathbuf, entry));
        sockhandle.state = ConnState::CONNECTED;
        0
    }

    /// Connect an inet stream socket: bind implicitly if needed, then take
    /// the kernel's answer — success connects, a pending handshake leaves
    /// the socket in progress, anything else surfaces as the error.
    pub fn connect_tcp_inet(
        &mut self,
        sockhandle: &mut SocketHandle,
        remoteaddr: &GenSockaddr,
        kernel_fd: i32,
        kernel_bind_errno: i32,
        kernel_connect_errno: i32,
    ) -> (r: i32)
        requires
            kernel_fd >= 0,
            0 <= kernel_bind_errno <= 0x10000,
            0 <= kernel_connect_errno <= 0x10000,
            fs_wf(old(self).fs@),
        ensures
            fs_wf(final(self).fs@),
            final(self).fdtable == old(self).fdtable,
            final(self).pipes == old(self).pipes,
            final(self).net.domsock_accept_table == old(self).net.domsock_accept_table,
            unix_info_fresh_or_same(*old(sockhandle), *final(sockhandle)),
            unix_pipes_valid(*old(sockhandle), old(self).pipes@.len()) ==> unix_pipes_valid(
                *final(sockhandle),
                final(self).pipes@.len(),
            ),
            old(sockhandle).state != ConnState::NOTCONNECTED ==> r == -(EISCONN as i32)
                && *final(self) == *old(self) && *final(sockhandle) == *old(sockhandle),
            (old(sockhandle).state == ConnState::NOTCONNECTED && old(sockhandle).localaddr is Some)
                ==> {
                &&& (kernel_connect_errno == 0 ==> r == 0 && final(sockhandle).state
                    == ConnState::CONNECTED && oav(final(sockhandle).remoteaddr) == Some(
                    remoteaddr@,
                ))
                &&& (kernel_connect_errno == EINPROGRESS ==> r == -(EINPROGRESS as i32) && final(sockhandle).state == ConnState::INPROGRESS)
                &&& (kernel_connect_errno != 0 && kernel_connect_errno != EINPROGRESS ==> r
                    == -kernel_connect_errno && final(sockhandle).state
                    == ConnState::NOTCONNECTED)
            },
    {
        if sockhandle.state != ConnState::NOTCONNECTED {
            return syscall_error(EISCONN);
        }
        if sockhandle.localaddr.is_none() {
            Self::force_innersocket(sockhandle, kernel_fd);
            let localaddr = match self.assign_new_addr(
                sockhandle,
                sockhandle.domain,
                sockhandle.protocol & (1i32 << SO_REUSEPORT) != 0,
            ) {
                Ok(a) => a,
                Err(e) => {
                    return e;
                },
            };
            if kernel_bind_errno != 0 {
                sockhandle.localaddr = Some(localaddr);
                return -kernel_bind_errno;
            }
            sockhandle.localaddr = Some(localaddr);
        }
        let mut inprogress = false;
        if kernel_connect_errno != 0 {
            if kernel_connect_errno == EINPROGRESS {
                inprogress = true;
            } else {
                return -kernel_connect_errno;
            }
        }
        sockhandle.state = ConnState::CONNECTED;
        sockhandle.remoteaddr = Some(clone_gensockaddr(remoteaddr));
        sockhandle.errno = 0;
        if inprogress {
            sockhandle.state = ConnState::INPROGRESS;
            syscall_error(EINPROGRESS)
        } else {
            0
        }
    }

    /// Connect a stream socket; a socket that is not plainly unconnected
    /// refuses with `EISCONN`.
    pub fn connect_tcp(
        &mut self,
        sockhandle: &mut SocketHandle,
        flags: i32,
        remoteaddr: &GenSockaddr,
        kernel_fd: i32,
        kernel_bind_errno: i32,
        kernel_connect_errno: i32,
    ) -> (r: i32)
        requires
            kernel_fd >= 0,
            0 <= kernel_bind_errno <= 0x10000,
            0 <= kernel_connect_errno <= 0x10000,
            fs_wf(old(self).fs@),
        ensures
            fs_wf(final(self).fs@),
            final(self).fdtable == old(self).fdtable,
            old(self).pipes@.len() <= final(self).pipes@.len(),
            unix_pipes_valid(*old(sockhandle), old(self).pipes@.len()) ==> unix_pipes_valid(
                *final(sockhandle),
                final(self).pipes@.len(),
            ),
            crate::net_types::accept_entries_valid(
                old(self).net.domsock_accept_table@,
                old(self).pipes@.len(),
            ) ==> crate::net_types::accept_entries_valid(
                final(self).net.domsock_accept_table@,
                final(self).pipes@.len(),
            ),
            old(sockhandle).state != ConnState::NOTCONNECTED ==> r == -(EISCONN as i32)
                && *final(self) == *old(self) && *final(sockhandle) == *old(sockhandle),
            (old(sockhandle).state == ConnState::NOTCONNECTED && old(sockhandle).domain != AF_UNIX
                && old(sockhandle).domain != AF_INET && old(sockhandle).domain != AF_INET6) ==> r
                == -(EINVAL as i32),
            old(sockhandle).domain != AF_UNIX ==> final(self).pipes == old(self).pipes,
            (old(sockhandle).state == ConnState::NOTCONNECTED && (old(sockhandle).domain
                == AF_INET || old(sockhandle).domain == AF_INET6) && old(sockhandle).localaddr
                is Some) ==> {
                &&& (kernel_connect_errno == 0 ==> r == 0 && final(sockhandle).state
                    == ConnState::CONNECTED && oav(final(sockhandle).remoteaddr) == Some(
                    remoteaddr@,
                ))
                &&& (kernel_connect_errno == EINPROGRESS ==> r == -(EINPROGRESS as i32) && final(sockhandle).state == ConnState::INPROGRESS)
                &&& (kernel_connect_errno != 0 && kernel_connect_errno != EINPROGRESS ==> r
                    == -kernel_connect_errno && final(sockhandle).state
                    == ConnState::NOTCONNECTED)
            },
            (old(sockhandle).state == ConnState::NOTCONNECTED && old(sockhandle).domain == AF_UNIX
                && remoteaddr@ is Unix && old(sockhandle).localaddr is Some && old(sockhandle).unix_info is Some) ==> {
                let tp = crate::paths::PathV {
                    absolute: true,
                    comps: truepath_comps(old(self).cwd@.comps, remoteaddr@->Unix_0.path),
                };
                &&& (dom_paths_has(old(self).net.domsock_paths@, tp) ==> r == 0 && final(sockhandle).state == ConnState::CONNECTED && oav(final(sockhandle).remoteaddr) == Some(
                    remoteaddr@,
                ))
                &&& (!dom_paths_has(old(self).net.domsock_paths@, tp) ==> r == -(ENOENT as i32))
            },
    {
        if sockhandle.state != ConnState::NOTCONNECTED {
            return syscall_error(EISCONN);
        }
        if sockhandle.domain == AF_UNIX {
            self.connect_tcp_unix(sockhandle, flags, remoteaddr)
        } else if sockhandle.domain == AF_INET || sockhandle.domain == AF_INET6 {
            self.connect_tcp_inet(
                sockhandle,
                remoteaddr,
                kernel_fd,
                kernel_bind_errno,
                kernel_connect_errno,
            )
        } else {
            syscall_error(EINVAL)
        }
    }

    /// The inet connect outcome, read off a descriptor slot: for an
    /// unconnected bound inet stream socket the kernel's verdict decides
    /// between success, a connection in progress, and a passed-through
    /// errno that leaves the handle unconnected.
    pub open spec fn connect_fd_inet_post(
        c0: Cage,
        c1: Cage,
        fd: int,
        remoteaddr: GenSockaddr,
        kernel_connect_errno: i32,
        r: i32,
    ) -> bool {
        c0.fdtable@[fd] matches Some(FileDescriptor::Socket(d)) ==> ((remoteaddr.spec_family()
            == d.handle.domain as u16 && d.handle.protocol == IPPROTO_TCP && d.handle.state
            == ConnState::NOTCONNECTED && (d.handle.domain == AF_INET || d.handle.domain
            == AF_INET6) && d.handle.localaddr is Some) ==> (c1.fdtable@[fd] matches Some(
            FileDescriptor::Socket(d2),
        ) && {
            &&& (kernel_connect_errno == 0 ==> r == 0 && d2.handle.state == ConnState::CONNECTED
                && oav(d2.handle.remoteaddr) == Some(remoteaddr@))
            &&& (kernel_connect_errno == EINPROGRESS ==> r == -(EINPROGRESS as i32)
                && d2.handle.state == ConnState::INPROGRESS)
            &&& (kernel_connect_errno != 0 && kernel_connect_errno != EINPROGRESS ==> r
                == -kernel_connect_errno && d2.handle.state == ConnState::NOTCONNECTED)
        }))
    }

    /// The connect system call.
    pub fn connect_syscall(
        &mut self,
        fd: i32,
        remoteaddr: &GenSockaddr,
        kernel_fd: i32,
        kernel_bind_errno: i32,
        kernel_connect_errno: i32,
    ) -> (r: i32)
        requires
            kernel_fd >= 0,
            0 <= kernel_bind_errno <= 0x10000,
            0 <= kernel_connect_errno <= 0x10000,
            cage_wf(*old(self)),
        ensures
            cage_wf(*final(self)),
            !(0 <= fd < old(self).fdtable@.len() && old(self).fdtable@[fd as int] is Some) ==> r
                == -(EBADF as i32) && final(self).fdtable@ == old(self).fdtable@,
            (0 <= fd < old(self).fdtable@.len() && (old(self).fdtable@[fd as int] matches Some(e)
                && !(e is Socket))) ==> r == -(ENOTSOCK as i32),
            (0 <= fd < old(self).fdtable@.len() && (old(self).fdtable@[fd as int] matches Some(
                FileDescriptor::Socket(d),
            ) && remoteaddr.spec_family() != d.handle.domain as u16)) ==> r == -(EINVAL as i32),
            (0 <= fd < old(self).fdtable@.len() && (old(self).fdtable@[fd as int] matches Some(
                FileDescriptor::Socket(d),
            ) && remoteaddr.spec_family() == d.handle.domain as u16 && d.handle.protocol
                == IPPROTO_TCP && d.handle.state != ConnState::NOTCONNECTED)) ==> r == -(
            EISCONN as i32) && final(self).fs == old(self).fs && final(self).net == old(self).net
                && final(self).pipes == old(self).pipes && (final(self).fdtable@[fd as int]
                matches Some(FileDescriptor::Socket(d2)) && d2.handle == old(self).fdtable@[
                fd as int]->Some_0->Socket_0.handle),
            0 <= fd < old(self).fdtable@.len() ==> Self::connect_fd_inet_post(
                *old(self),
                *final(self),
                fd as int,
                *remoteaddr,
                kernel_connect_errno,
                r,
            ),
            (0 <= fd < old(self).fdtable@.len() ==> (old(self).fdtable@[fd as int] matches Some(
                FileDescriptor::Socket(d),
            ) ==> ((remoteaddr.spec_family() == d.handle.domain as u16 && d.handle.protocol
                == IPPROTO_TCP && d.handle.state == ConnState::NOTCONNECTED && d.handle.domain
                == AF_UNIX && remoteaddr@ is Unix && d.handle.localaddr is Some
                && d.handle.unix_info is Some) ==> {
                let tp = crate::paths::PathV {
                    absolute: true,
                    comps: truepath_comps(old(self).cwd@.comps, remoteaddr@->Unix_0.path),
                };
                &&& (dom_paths_has(old(self).net.domsock_paths@, tp) ==> r == 0 && (final(self).fdtable@[fd as int] matches Some(FileDescriptor::Socket(d2)) && d2.handle.state
                    == ConnState::CONNECTED && oav(d2.handle.remoteaddr) == Some(remoteaddr@)))
                &&& (!dom_paths_has(old(self).net.domsock_paths@, tp) ==> r == -(ENOENT as i32))
            }))),
    {
        match self.take_fd(fd) {
            None => {
                proof {
                    if 0 <= fd < old(self).fdtable@.len() {
                        assert(self.fdtable@ =~= old(self).fdtable@);
                    }
                }
                syscall_error(EBADF)
            },
            Some(FileDescriptor::Socket(mut desc)) => {
                if remoteaddr.get_family() != desc.handle.domain as u16 {
                    let r = syscall_error(EINVAL);
                    self.put_fd(fd, FileDescriptor::Socket(desc));
                    proof {
                        assert(cage_wf(*self)) by {
                            assert forall|j: int|
                                0 <= j < self.fdtable@.len() implies ((#[trigger] self.fdtable@[j])
                                matches Some(f) ==> crate::cage::fd_wf(f, self.pipes@.len())) by {
                                if j != fd {
                                    assert(self.fdtable@[j] == old(self).fdtable@[j]);
                                } else {
                                    assert(crate::cage::fd_wf(
                                        old(self).fdtable@[fd as int]->Some_0,
                                        old(self).pipes@.len(),
                                    ));
                                }
                            }
                        }
                    }
                    return r;
                }
                let r: i32 = if desc.handle.protocol == IPPROTO_UDP {
                    self.connect_udp(&mut desc.handle, remoteaddr, kernel_fd, kernel_bind_errno)
                } else if desc.handle.protocol == IPPROTO_TCP {
                    self.connect_tcp(
                        &mut desc.handle,
                        desc.flags,
                        remoteaddr,
                        kernel_fd,
                        kernel_bind_errno,
                        kernel_connect_errno,
                    )
                } else {
                    syscall_error(EOPNOTSUPP)
                };
                // cache the kernel descriptor for readiness polling
                desc.rawfd = match &desc.handle.innersocket {
                    Some(k) => *k,
                    None => -1,
                };
                self.put_fd(fd, FileDescriptor::Socket(desc));
                proof {
                    assert(cage_wf(*self)) by {
                        assert forall|j: int|
                            0 <= j < self.fdtable@.len() implies ((#[trigger] self.fdtable@[j])
                            matches Some(f) ==> crate::cage::fd_wf(f, self.pipes@.len())) by {
                            if j != fd {
                                assert(self.fdtable@[j] == old(self).fdtable@[j]);
                                assert(old(self).pipes@.len() <= self.pipes@.len());
                            }
                        }
                    }
                }
                r
            },
            Some(other) => {
                self.put_fd(fd, other);
                proof {
                    assert(self.fdtable@ =~= old(self).fdtable@);
                    assert(cage_wf(*self)) by {
                        assert forall|j: int|
                            0 <= j < self.fdtable@.len() implies ((#[trigger] self.fdtable@[j])
                            matches Some(f) ==> crate::cage::fd_wf(f, self.pipes@.len())) by {
                            assert(self.fdtable@[j] == old(self).fdtable@[j]);
                        }
                    }
                }
                syscall_error(ENOTSOCK)
            },
        }
    }
}

} // verus!

verus! {

impl Cage {
    /// A connected pair of Unix-domain stream sockets: two descriptors
    /// whose handles are cross-wired over one fresh pipe pair, so bytes
    /// sent on one end arrive at the other.
    pub fn socketpair_syscall(
        &mut self,
        domain: i32,
        socktype: i32,
        protocol: i32,
        sv: &mut crate::types::SockPair,
    ) -> (r: i32)
        requires
            cage_wf(*old(self)),
        ensures
            cage_wf(*final(self)),
            domain != AF_UNIX ==> r == -(EOPNOTSUPP as i32) && *final(self) == *old(self),
            (domain == AF_UNIX && (socktype & 0x7 != SOCK_STREAM || (if protocol == 0 {
                IPPROTO_TCP
            } else {
                protocol
            }) != IPPROTO_TCP)) ==> r == -(EOPNOTSUPP as i32) && *final(self) == *old(self),
            r == 0 ==> ({
                let p = old(self).pipes@.len() as int;
                let fd1 = final(sv).sock1;
                let fd2 = final(sv).sock2;
                &&& 0 <= fd1 < final(self).fdtable@.len()
                &&& 0 <= fd2 < final(self).fdtable@.len()
                &&& fd1 != fd2
                &&& final(self).pipes@.len() == p + 2
                &&& final(self).pipes@[p] == Seq::<u8>::empty()
                &&& final(self).pipes@[p + 1] == Seq::<u8>::empty()
                &&& (final(self).fdtable@[fd1 as int] matches Some(FileDescriptor::Socket(d1))
                    && d1.handle.state == ConnState::CONNECTED && d1.handle.domain == AF_UNIX
                    && d1.handle.socktype == socktype && d1.handle.protocol == IPPROTO_TCP
                    && d1.handle.last_peek@.len() == 0 && (d1.handle.unix_info
                    matches Some(u1) && u1.sendpipe == Some(p as usize) && u1.receivepipe == Some(
                    (p + 1) as usize,
                )))
                &&& (final(self).fdtable@[fd2 as int] matches Some(FileDescriptor::Socket(d2))
                    && d2.handle.state == ConnState::CONNECTED && d2.handle.domain == AF_UNIX
                    && d2.handle.socktype == socktype && d2.handle.protocol == IPPROTO_TCP
                    && d2.handle.last_peek@.len() == 0 && (d2.handle.unix_info
                    matches Some(u2) && u2.sendpipe == Some((p + 1) as usize) && u2.receivepipe
                    == Some(p as usize)))
                &&& ({
                    let d1 = final(self).fdtable@[fd1 as int]->Some_0->Socket_0;
                    let d2 = final(self).fdtable@[fd2 as int]->Some_0->Socket_0;
                    &&& d1.handle.localaddr is Some
                    &&& d2.handle.localaddr is Some
                    &&& oav(d1.handle.remoteaddr) == oav(d2.handle.localaddr)
                    &&& oav(d2.handle.remoteaddr) == oav(d1.handle.localaddr)
                    &&& (d1.handle.unix_info matches Some(u1) && tbl_lookup(
                        tbl_v(final(self).fs.inodetable@),
                        u1.inode,
                    ) matches Some(InodeV::Socket(si1)) && si1.refcount == 2)
                    &&& (d2.handle.unix_info matches Some(u2) && tbl_lookup(
                        tbl_v(final(self).fs.inodetable@),
                        u2.inode,
                    ) matches Some(InodeV::Socket(si2)) && si2.refcount == 2)
                })
            }),
    {
        let newprotocol = if protocol == 0 {
            IPPROTO_TCP
        } else {
            protocol
        };
        if domain != AF_UNIX {
            return syscall_error(EOPNOTSUPP);
        }
        if socktype & 0x7 != SOCK_STREAM || newprotocol != IPPROTO_TCP {
            return syscall_error(EOPNOTSUPP);
        }
        let nonblocking = (socktype & SOCK_NONBLOCK) != 0;
        let cloexec = (socktype & SOCK_CLOEXEC) != 0;

        let mut sock1fdobj = self._socket_initializer(
            domain,
            socktype,
            newprotocol,
            nonblocking,
            cloexec,
            ConnState::NOTCONNECTED,
        );
        let mut sock2fdobj = self._socket_initializer(
            domain,
            socktype,
            newprotocol,
            nonblocking,
            cloexec,
            ConnState::NOTCONNECTED,
        );

        // bind both ends to fresh synthetic addresses
        let localaddr1 = self.assign_new_addr_unix(&sock1fdobj.handle);
        match &localaddr1 {
            GenSockaddr::Unix(_) => {},
            _ => {
                return syscall_error(EINVAL);
            },
        }
        let ghost c_pre1 = *self;
        let b1 = self.bind_inner_socket(&mut sock1fdobj.handle, &localaddr1, false, 0, 0);
        if b1 != 0 {
            return b1;
        }
        let ghost c_mid = *self;
        let localaddr2 = self.assign_new_addr_unix(&sock2fdobj.handle);
        match &localaddr2 {
            GenSockaddr::Unix(_) => {},
            _ => {
                return syscall_error(EINVAL);
            },
        }
        let b2 = self.bind_inner_socket(&mut sock2fdobj.handle, &localaddr2, false, 0, 0);
        if b2 != 0 {
            return b2;
        }
        let ghost c_post = *self;
        proof {
            // the first bound inode survives the second bind: it is neither
            // the second bind's fresh inode (one above it) nor the parent
            // directory (whose inode holds a directory, not a socket)
            let ino1 = sock1fdobj.handle.unix_info->Some_0.inode;
            let tp2 = truepath_comps(c_mid.cwd@.comps, localaddr2@->Unix_0.path);
            let w2 = walk(tbl_v(c_mid.fs.inodetable@), Some(ROOTDIRECTORYINODE), None, tp2);
            let par2 = w2.1->Some_0;
            assert(ino1 == c_pre1.fs.nextinode && c_mid.fs.nextinode == ino1 + 1);
            assert(tbl_lookup(tbl_v(c_mid.fs.inodetable@), ino1) matches Some(
                InodeV::Socket(si),
            ) && si.refcount == 1);
            assert(ino1 != par2);
            assert(tbl_lookup(tbl_v(c_post.fs.inodetable@), ino1) == tbl_lookup(
                tbl_v(c_mid.fs.inodetable@),
                ino1,
            ));
        }

        // one pipe pair, crossed between the two ends
        let (pipe1, pipe2) = self.pipes.create_unix_sockpipes();
        sock1fdobj.handle.remoteaddr = Some(clone_gensockaddr(&localaddr2));
        sock2fdobj.handle.remoteaddr = Some(clone_gensockaddr(&localaddr1));
        let inode1 = match &mut sock1fdobj.handle.unix_info {
            Some(u) => {
                u.sendpipe = Some(pipe1);
                u.receivepipe = Some(pipe2);
                u.inode
            },
            None => {
                return syscall_error(EINVAL);
            },
        };
        let inode2 = match &mut sock2fdobj.handle.unix_info {
            Some(u) => {
                u.sendpipe = Some(pipe2);
                u.receivepipe = Some(pipe1);
                u.inode
            },
            None => {
                return syscall_error(EINVAL);
            },
        };
        sock1fdobj.handle.state = ConnState::CONNECTED;
        sock2fdobj.handle.state = ConnState::CONNECTED;

        // both descriptors hold the bound socket inodes open
        crate::fs::incref_inode(&mut self.fs, inode1);
        crate::fs::incref_inode(&mut self.fs, inode2);
        proof {
            assert(inode2 == inode1 + 1);
            assert(tbl_lookup(tbl_v(self.fs.inodetable@), inode1) matches Some(
                InodeV::Socket(s1),
            ) && s1.refcount == 2);
            assert(tbl_lookup(tbl_v(self.fs.inodetable@), inode2) matches Some(
                InodeV::Socket(s2),
            ) && s2.refcount == 2);
        }

        let sock1fd = self._socket_inserter(FileDescriptor::Socket(sock1fdobj));
        if sock1fd < 0 {
            return sock1fd;
        }
        let sock2fd = self._socket_inserter(FileDescriptor::Socket(sock2fdobj));
        if sock2fd < 0 {
            return sock2fd;
        }
        proof {
            assert(self.fdtable@[sock1fd as int] == Some(FileDescriptor::Socket(sock1fdobj)));
            assert(self.fdtable@[sock2fd as int] == Some(FileDescriptor::Socket(sock2fdobj)));
            assert(oav(sock1fdobj.handle.localaddr) == Some(localaddr1@));
            assert(oav(sock2fdobj.handle.localaddr) == Some(localaddr2@));
            assert(oav(sock1fdobj.handle.remoteaddr) == Some(localaddr2@));
            assert(oav(sock2fdobj.handle.remoteaddr) == Some(localaddr1@));
            assert(sock1fdobj.handle.unix_info->Some_0.inode == inode1);
            assert(sock2fdobj.handle.unix_info->Some_0.inode == inode2);
        }
        sv.sock1 = sock1fd;
        sv.sock2 = sock2fd;
        proof {
            assert(cage_wf(*self)) by {
                assert forall|j: int|
                    0 <= j < self.fdtable@.len() implies ((#[trigger] self.fdtable@[j])
                    matches Some(f) ==> crate::cage::fd_wf(f, self.pipes@.len())) by {
                    if j != sock1fd && j != sock2fd {
                        assert(self.fdtable@[j] == old(self).fdtable@[j]);
                    }
                }
            }
        }
        0
    }

    /// Begin listening.  Idempotent on a listening socket; a connected or
    /// in-progress socket refuses; a Unix-domain listener just flips
    /// state, while an inet listener registers its mux key and passes the
    /// kernel's verdict through, rolling back on failure.
    pub fn listen_syscall(
        &mut self,
        fd: i32,
        _backlog: i32,
        kernel_fd: i32,
        kernel_bind_errno: i32,
        kernel_listen_errno: i32,
    ) -> (r: i32)
        requires
            kernel_fd >= 0,
            0 <= kernel_bind_errno <= 0x10000,
            0 <= kernel_listen_errno <= 0x10000,
            cage_wf(*old(self)),
        ensures
            cage_wf(*final(self)),
            !(0 <= fd < old(self).fdtable@.len() && old(self).fdtable@[fd as int] is Some) ==> r
                == -(EBADF as i32) && final(self).fdtable@ == old(self).fdtable@,
            (0 <= fd < old(self).fdtable@.len() && (old(self).fdtable@[fd as int] matches Some(e)
                && !(e is Socket))) ==> r == -(ENOTSOCK as i32),
            (0 <= fd < old(self).fdtable@.len() && (old(self).fdtable@[fd as int] matches Some(
                FileDescriptor::Socket(d),
            ) && d.handle.state == ConnState::LISTEN)) ==> r == 0,
            (0 <= fd < old(self).fdtable@.len() && (old(self).fdtable@[fd as int] matches Some(
                FileDescriptor::Socket(d),
            ) && (d.handle.state == ConnState::CONNECTED || d.handle.state
                == ConnState::CONNRDONLY || d.handle.state == ConnState::CONNWRONLY
                || d.handle.state == ConnState::INPROGRESS))) ==> r == -(EOPNOTSUPP as i32),
            (0 <= fd < old(self).fdtable@.len() && (old(self).fdtable@[fd as int] matches Some(
                FileDescriptor::Socket(d),
            ) && d.handle.state == ConnState::NOTCONNECTED && d.handle.protocol != IPPROTO_TCP))
                ==> r == -(EOPNOTSUPP as i32),
            (0 <= fd < old(self).fdtable@.len() && (old(self).fdtable@[fd as int] matches Some(
                FileDescriptor::Socket(d),
            ) && d.handle.state == ConnState::NOTCONNECTED && d.handle.protocol == IPPROTO_TCP
                && d.handle.domain == AF_UNIX)) ==> r == 0 && (final(self).fdtable@[fd as int]
                matches Some(FileDescriptor::Socket(d2)) && d2.handle.state == ConnState::LISTEN),
            r == 0 ==> (final(self).fdtable@[fd as int] matches Some(FileDescriptor::Socket(d2))
                && d2.handle.state == ConnState::LISTEN) || !(0 <= fd < old(self).fdtable@.len()),
            (0 <= fd < old(self).fdtable@.len() ==> (old(self).fdtable@[fd as int] matches Some(
                FileDescriptor::Socket(d),
            ) ==> ((d.handle.state == ConnState::NOTCONNECTED && d.handle.protocol == IPPROTO_TCP
                && d.handle.domain != AF_UNIX && d.handle.localaddr is Some) ==> {
                &&& (kernel_listen_errno == 0 ==> r == 0)
                &&& (kernel_listen_errno != 0 ==> r == -kernel_listen_errno && (final(self).fdtable@[fd as int] matches Some(FileDescriptor::Socket(d3)) && d3.handle.state
                    == ConnState::NOTCONNECTED) && final(self).net.listening_port_set@ == old(self).net.listening_port_set@)
            }))),
            (r == 0 && 0 <= fd < old(self).fdtable@.len()) ==> ((old(self).fdtable@[fd as int]
                matches Some(FileDescriptor::Socket(d)) && d.handle.state
                == ConnState::NOTCONNECTED && d.handle.protocol == IPPROTO_TCP && d.handle.domain
                != AF_UNIX) ==> (final(self).fdtable@[fd as int] matches Some(
                FileDescriptor::Socket(d2),
            ) && d2.rawfd == (if d2.handle.innersocket is Some {
                d2.handle.innersocket->Some_0
            } else {
                -1i32
            }) && (d2.handle.localaddr matches Some(la) && final(self).net.listening_port_set@
                == old(self).net.listening_port_set@.push(
                crate::net_types::MuxKey {
                    addr: la.spec_addr(),
                    port: la.spec_port(),
                    domain: d2.handle.domain,
                    tcp: crate::net_types::TCPPORT,
                },
            ) && ({
                let key = crate::net_types::MuxKey {
                    addr: la.spec_addr(),
                    port: la.spec_port(),
                    domain: d2.handle.domain,
                    tcp: crate::net_types::TCPPORT,
                };
                &&& (crate::net_types::pending_index_of(old(self).net.pending_conn_table@, key)
                    != -1 ==> final(self).net.pending_conn_table@
                    == old(self).net.pending_conn_table@)
                &&& (crate::net_types::pending_index_of(old(self).net.pending_conn_table@, key)
                    == -1 ==> final(self).net.pending_conn_table@.len()
                    == old(self).net.pending_conn_table@.len() + 1 && final(self).net.pending_conn_table@.last().key == key && final(self).net.pending_conn_table@.last().queue@ == Seq::<
                    crate::net_types::PendingConn,
                >::empty() && (forall|j: int|
                    0 <= j < old(self).net.pending_conn_table@.len()
                        ==> final(self).net.pending_conn_table@[j]
                        == old(self).net.pending_conn_table@[j]))
            })))),
            (0 <= fd < old(self).fdtable@.len() ==> (old(self).fdtable@[fd as int] matches Some(
                FileDescriptor::Socket(d),
            ) ==> ((d.handle.state == ConnState::NOTCONNECTED && d.handle.protocol == IPPROTO_TCP
                && (d.handle.domain == AF_INET || d.handle.domain == AF_INET6)
                && d.handle.localaddr is None && kernel_bind_errno == 0 && kernel_listen_errno
                == 0 && ephemeral_available(
                old(self).net.porttable@,
                if d.handle.domain == AF_INET {
                    GenIpaddr::V4(0)
                } else {
                    GenIpaddr::V6(0)
                },
                d.handle.protocol,
                d.handle.domain,
            )) ==> r == 0))),
    {
        match self.take_fd(fd) {
            None => {
                proof {
                    if 0 <= fd < old(self).fdtable@.len() {
                        assert(self.fdtable@ =~= old(self).fdtable@);
                    }
                }
                syscall_error(EBADF)
            },
            Some(FileDescriptor::Socket(mut desc)) => {
                let r: i32 = if desc.handle.state == ConnState::LISTEN {
                    0
                } else if desc.handle.state != ConnState::NOTCONNECTED {
                    syscall_error(EOPNOTSUPP)
                } else if desc.handle.protocol != IPPROTO_TCP {
                    syscall_error(EOPNOTSUPP)
                } else if desc.handle.domain == AF_UNIX {
                    desc.handle.state = ConnState::LISTEN;
                    0
                } else {
                    // inet: bind implicitly, register the key, consult the kernel
                    let mut r2: i32 = 0;
                    if desc.handle.localaddr.is_none() {
                        let domain = desc.handle.domain;
                        let ib = self._implicit_bind(
                            &mut desc.handle,
                            domain,
                            kernel_fd,
                            kernel_bind_errno,
                        );
                        if ib < 0 {
                            r2 = ib;
                        }
                    }
                    if r2 == 0 {
                        match &desc.handle.localaddr {
                            Some(la) => {
                                let key = crate::net_types::mux_port(
                                    la.addr(),
                                    la.port(),
                                    desc.handle.domain,
                                    crate::net_types::TCPPORT,
                                );
                                self.net.listening_port_set.push(key);
                                desc.handle.state = ConnState::LISTEN;
                                if kernel_listen_errno != 0 {
                                    let lastidx = self.net.listening_port_set.len() - 1;
                                    self.net.listening_port_set.remove(lastidx);
                                    desc.handle.state = ConnState::NOTCONNECTED;
                                    r2 = -kernel_listen_errno;
                                } else {
                                    desc.rawfd = match &desc.handle.innersocket {
                                        Some(k) => *k,
                                        None => -1,
                                    };
                                    if self.net.pending_find(key).is_none() {
                                        self.net.pending_conn_table.push(
                                            crate::net_types::PendingEntry {
                                                key,
                                                queue: Vec::new(),
                                            },
                                        );
                                    }
                                }
                            },
                            None => {
                                r2 = syscall_error(EINVAL);
                            },
                        }
                    }
                    r2
                };
                self.put_fd(fd, FileDescriptor::Socket(desc));
                proof {
                    assert(cage_wf(*self)) by {
                        assert forall|j: int|
                            0 <= j < self.fdtable@.len() implies ((#[trigger] self.fdtable@[j])
                            matches Some(f) ==> crate::cage::fd_wf(f, self.pipes@.len())) by {
                            if j != fd {
                                assert(self.fdtable@[j] == old(self).fdtable@[j]);
                            } else {
                                assert(crate::cage::fd_wf(
                                    old(self).fdtable@[fd as int]->Some_0,
                                    old(self).pipes@.len(),
                                ));
                            }
                        }
                    }
                }
                r
            },
            Some(other) => {
                self.put_fd(fd, other);
                proof {
                    assert(self.fdtable@ =~= old(self).fdtable@);
                }
                syscall_error(ENOTSOCK)
            },
        }
    }
}

} // verus!

verus! {

impl Cage {
    /// Accept one pending Unix-domain connection: consume the rendezvous
    /// entry published under the listener's path (its pipes already
    /// swapped) and build the connected peer socket.  With no connector
    /// pending the caller is told to come back.
    pub fn accept_unix(&mut self, sockhandle: &SocketHandle, flags: i32) -> (r: Result<
        SocketDesc,
        i32,
    >)
        requires
            fs_wf(old(self).fs@),
            crate::net_types::accept_entries_valid(
                old(self).net.domsock_accept_table@,
                old(self).pipes@.len(),
            ),
        ensures
            fs_wf(final(self).fs@),
            final(self).fdtable == old(self).fdtable,
            final(self).pipes == old(self).pipes,
            crate::net_types::accept_entries_valid(
                final(self).net.domsock_accept_table@,
                final(self).pipes@.len(),
            ),
            sockhandle.protocol == IPPROTO_UDP ==> (r matches Err(e2) && e2 == -(
            EOPNOTSUPP as i32)) && *final(self) == *old(self),
            (sockhandle.protocol == IPPROTO_TCP && sockhandle.state != ConnState::LISTEN) ==> (r
                matches Err(e2) && e2 == -(EINVAL as i32)) && *final(self) == *old(self),
            r matches Err(e2) ==> e2 < 0,
            r matches Ok(d) ==> {
                &&& d.handle.state == ConnState::CONNECTED
                &&& (d.handle.unix_info matches Some(u) ==> ((u.sendpipe matches Some(p) ==> p
                    < final(self).pipes@.len()) && (u.receivepipe matches Some(p2) ==> p2 < final(self).pipes@.len())))
                &&& final(self).net.domsock_accept_table@.len() == old(self).net.domsock_accept_table@.len() - 1
            },
            (sockhandle.protocol == IPPROTO_TCP && sockhandle.state == ConnState::LISTEN)
                ==> (sockhandle.localaddr matches Some(la) ==> (la@ is Unix ==> {
                let lp = crate::paths::PathV {
                    absolute: true,
                    comps: truepath_comps(old(self).cwd@.comps, la@->Unix_0.path),
                };
                let ai = crate::net_types::accept_table_index(
                    old(self).net.domsock_accept_table@,
                    lp,
                );
                &&& (ai == -1 ==> (r matches Err(e2) && e2 == -(EAGAIN as i32)) && *final(self)
                    == *old(self))
                &&& (ai != -1 ==> (r matches Ok(d) && {
                    let entry = old(self).net.domsock_accept_table@[ai].1;
                    &&& oav(d.handle.remoteaddr) == Some(entry.sockaddr@)
                    &&& (d.handle.unix_info matches Some(u) ==> u.sendpipe == Some(
                        entry.send_pipe,
                    ) && u.receivepipe == Some(entry.receive_pipe))
                    &&& final(self).net.domsock_accept_table@ == old(self).net.domsock_accept_table@.remove(ai)
                }))
            })),
    {
        if sockhandle.protocol == IPPROTO_UDP {
            return Err(syscall_error(EOPNOTSUPP));
        }
        if sockhandle.protocol != IPPROTO_TCP {
            return Err(syscall_error(EOPNOTSUPP));
        }
        if sockhandle.state != ConnState::LISTEN {
            return Err(syscall_error(EINVAL));
        }
        let localaddr = match &sockhandle.localaddr {
            Some(a) => a,
            None => {
                return Err(syscall_error(EINVAL));
            },
        };
        match localaddr {
            GenSockaddr::Unix(_) => {},
            _ => {
                return Err(syscall_error(EINVAL));
            },
        }
        let parsed = convpath(localaddr.path());
        let localpathbuf = normpath(&parsed, &self.cwd);
        let idx = match self.net.accept_table_find(&localpathbuf) {
            Some(i) => i,
            None => {
                // no connector is waiting; with a blocking descriptor the
                // caller retries after its cancel and signal checks
                return Err(syscall_error(EAGAIN));
            },
        };
        let ghost at0 = self.net.domsock_accept_table@;
        let (_path, entry) = self.net.domsock_accept_table.remove(idx);
        proof {
            assert(at0[idx as int].1.receive_pipe < self.pipes@.len());
            assert(at0[idx as int].1.send_pipe < self.pipes@.len());
            assert forall|j: int|
                0 <= j < self.net.domsock_accept_table@.len() implies (#[trigger] self
                .net.domsock_accept_table@[j]).1.receive_pipe < self.pipes@.len() && self
                .net.domsock_accept_table@[j].1.send_pipe < self.pipes@.len() by {
                if j < idx {
                    assert(self.net.domsock_accept_table@[j] == at0[j]);
                } else {
                    assert(self.net.domsock_accept_table@[j] == at0[j + 1]);
                }
            }
        }
        let mut newsockfd = self._socket_initializer(
            sockhandle.domain,
            sockhandle.socktype,
            sockhandle.protocol,
            flags & O_NONBLOCK != 0,
            flags & O_CLOEXEC != 0,
            ConnState::CONNECTED,
        );
        let remote_addr = clone_gensockaddr(&entry.sockaddr);
        match &remote_addr {
            GenSockaddr::Unix(_) => {
                let rparsed = convpath(remote_addr.path());
                let pathclone = normpath(&rparsed, &self.cwd);
                match crate::paths::metawalk(&pathclone, &self.fs) {
                    Some(inodenum) => {
                        let mode = match &sockhandle.unix_info {
                            Some(u) => u.mode,
                            None => S_IFSOCK | 0o666,
                        };
                        newsockfd.handle.unix_info = Some(
                            UnixSocketInfo {
                                mode,
                                sendpipe: Some(entry.send_pipe),
                                receivepipe: Some(entry.receive_pipe),
                                inode: inodenum,
                            },
                        );
                        crate::fs::incref_inode(&mut self.fs, inodenum);
                    },
                    None => {},
                }
            },
            _ => {},
        }
        newsockfd.handle.localaddr = match &sockhandle.localaddr {
            Some(a) => Some(clone_gensockaddr(a)),
            None => None,
        };
        newsockfd.handle.remoteaddr = Some(remote_addr);
        newsockfd.handle.state = ConnState::CONNECTED;
        Ok(newsockfd)
    }

    /// Accept one inet connection: first from the pending queue the
    /// readiness loop filled, otherwise from the kernel's own answer; the
    /// new connection gets a fresh ephemeral local port.
    pub fn accept_inet(
        &mut self,
        sockhandle: &SocketHandle,
        flags: i32,
        kernel_accept: &Result<(i32, GenSockaddr), i32>,
    ) -> (r: Result<SocketDesc, i32>)
        requires
            fs_wf(old(self).fs@),
            kernel_accept matches Ok(k) ==> k.0 >= 0,
            kernel_accept matches Err(e) ==> 0 < *e <= 0x10000,
        ensures
            fs_wf(final(self).fs@),
            final(self).fdtable == old(self).fdtable,
            final(self).pipes == old(self).pipes,
            final(self).net.domsock_accept_table == old(self).net.domsock_accept_table,
            r matches Err(e2) ==> e2 < 0,
            sockhandle.protocol == IPPROTO_UDP ==> (r matches Err(e2) && e2 == -(
            EOPNOTSUPP as i32)) && *final(self) == *old(self),
            (sockhandle.protocol == IPPROTO_TCP && sockhandle.state != ConnState::LISTEN) ==> (r
                matches Err(e2) && e2 == -(EINVAL as i32)) && *final(self) == *old(self),
            r matches Ok(d) ==> d.handle.state == ConnState::CONNECTED
                && d.handle.unix_info is None && d.handle.remoteaddr is Some
                && d.handle.innersocket is Some && d.rawfd == d.handle.innersocket->Some_0
                && d.handle.domain == sockhandle.domain && d.handle.protocol
                == sockhandle.protocol,
            r is Ok ==> (sockhandle.localaddr matches Some(la) && (r->Ok_0.handle.localaddr
                matches Some(nla) && exists|p: u16|
                EPHEMERAL_PORT_START <= p <= EPHEMERAL_PORT_END && !#[trigger] port_reserved(
                    old(self).net.porttable@,
                    la.spec_addr(),
                    p,
                    sockhandle.protocol,
                    sockhandle.domain,
                ) && nla@ == addr_with_port(la@, p) && final(self).net.porttable@
                    == old(self).net.porttable@.push(
                    PortRes {
                        addr: la.spec_addr(),
                        port: p,
                        protocol: sockhandle.protocol,
                        domain: sockhandle.domain,
                    },
                ))),
            (sockhandle.protocol == IPPROTO_TCP && sockhandle.state == ConnState::LISTEN)
                ==> (sockhandle.localaddr matches Some(la) ==> {
                let key = crate::net_types::MuxKey {
                    addr: la.spec_addr(),
                    port: la.spec_port(),
                    domain: sockhandle.domain,
                    tcp: crate::net_types::TCPPORT,
                };
                let pi = crate::net_types::pending_index_of(
                    old(self).net.pending_conn_table@,
                    key,
                );
                let avail = crate::net_types::ephemeral_available(
                    old(self).net.porttable@,
                    la.spec_addr(),
                    sockhandle.protocol,
                    sockhandle.domain,
                );
                &&& ((pi == -1 || old(self).net.pending_conn_table@[pi].queue@.len() == 0)
                    ==> (match *kernel_accept {
                    Err(e) => r matches Err(e2) && e2 == -e,
                    Ok(k) => avail ==> (r matches Ok(d) && d.handle.innersocket == Some(k.0)
                        && oav(d.handle.remoteaddr) == Some(k.1@)),
                }))
                &&& ((pi != -1 && old(self).net.pending_conn_table@[pi].queue@.len() > 0) ==> (
                avail ==> (r matches Ok(d) && d.handle.innersocket == Some(
                    old(self).net.pending_conn_table@[pi].queue@.last().kernel_fd,
                ) && oav(d.handle.remoteaddr) == Some(
                    old(self).net.pending_conn_table@[pi].queue@.last().remote@,
                ))))
            }),
    {
        if sockhandle.protocol == IPPROTO_UDP {
            return Err(syscall_error(EOPNOTSUPP));
        }
        if sockhandle.protocol != IPPROTO_TCP {
            return Err(syscall_error(EOPNOTSUPP));
        }
        if sockhandle.state != ConnState::LISTEN {
            return Err(syscall_error(EINVAL));
        }
        let ladr = match &sockhandle.localaddr {
            Some(a) => clone_gensockaddr(a),
            None => {
                return Err(syscall_error(EINVAL));
            },
        };
        let key = crate::net_types::mux_port(
            ladr.addr(),
            ladr.port(),
            sockhandle.domain,
            crate::net_types::TCPPORT,
        );
        // a connection the readiness loop already fielded wins
        let queued: Option<crate::net_types::PendingConn> = match self.net.pending_find(key) {
            Some(i) => {
                let mut entry = self.net.pending_conn_table.remove(i);
                let q = entry.queue.pop();
                self.net.pending_conn_table.insert(i, entry);
                q
            },
            None => None,
        };
        let (acceptedfd, remote_addr) = match queued {
            Some(conn) => (conn.kernel_fd, conn.remote),
            None => {
                match kernel_accept {
                    Ok(k) => {
                        if k.0 < 0 {
                            return Err(syscall_error(EINVAL));
                        }
                        (k.0, clone_gensockaddr(&k.1))
                    },
                    Err(e) => {
                        // a blocking accept's one-second timeout surfaces as
                        // a retry for the caller's cancel and signal checks
                        return Err(-*e);
                    },
                }
            },
        };
        let mut newaddr = ladr;
        let newport = match self.net._reserve_localport(
            newaddr.addr(),
            0,
            sockhandle.protocol,
            sockhandle.domain,
            false,
        ) {
            Ok(p) => p,
            Err(e) => {
                return Err(e);
            },
        };
        newaddr.set_port(newport);
        let mut newsockfd = self._socket_initializer(
            sockhandle.domain,
            sockhandle.socktype,
            sockhandle.protocol,
            flags & O_NONBLOCK != 0,
            flags & O_CLOEXEC != 0,
            ConnState::CONNECTED,
        );
        newsockfd.handle.localaddr = Some(newaddr);
        newsockfd.handle.remoteaddr = Some(remote_addr);
        newsockfd.handle.innersocket = Some(acceptedfd);
        newsockfd.rawfd = acceptedfd;
        newsockfd.handle.state = ConnState::CONNECTED;
        Ok(newsockfd)
    }

    /// The accept system call: take one pending connection on a listening
    /// socket, install it at a fresh descriptor, and report the peer's
    /// address.
    pub fn accept_syscall(
        &mut self,
        fd: i32,
        addr: &mut GenSockaddr,
        kernel_accept: &Result<(i32, GenSockaddr), i32>,
    ) -> (r: i32)
        requires
            cage_wf(*old(self)),
            kernel_accept matches Ok(k) ==> k.0 >= 0,
            kernel_accept matches Err(e) ==> 0 < *e <= 0x10000,
        ensures
            cage_wf(*final(self)),
            !(0 <= fd < old(self).fdtable@.len() && old(self).fdtable@[fd as int] is Some) ==> r
                == -(EBADF as i32) && final(self).fdtable@ == old(self).fdtable@,
            (0 <= fd < old(self).fdtable@.len() && (old(self).fdtable@[fd as int] matches Some(e)
                && !(e is Socket))) ==> r == -(ENOTSOCK as i32),
            (0 <= fd < old(self).fdtable@.len() && (old(self).fdtable@[fd as int] matches Some(
                FileDescriptor::Socket(d),
            ) && d.handle.protocol == IPPROTO_UDP && (d.handle.domain == AF_UNIX
                || d.handle.domain == AF_INET || d.handle.domain == AF_INET6))) ==> r == -(
            EOPNOTSUPP as i32),
            (0 <= fd < old(self).fdtable@.len() && (old(self).fdtable@[fd as int] matches Some(
                FileDescriptor::Socket(d),
            ) && d.handle.protocol == IPPROTO_TCP && d.handle.state != ConnState::LISTEN && (
            d.handle.domain == AF_UNIX || d.handle.domain == AF_INET || d.handle.domain
                == AF_INET6))) ==> r == -(EINVAL as i32),
            r >= 0 ==> 0 <= r < final(self).fdtable@.len() && r != fd && (final(self).fdtable@[
                r as int] matches Some(FileDescriptor::Socket(nd)) && nd.handle.state
                == ConnState::CONNECTED && (nd.handle.remoteaddr matches Some(ra) ==> final(addr)@ == ra@)),
            ((r >= 0 && 0 <= fd < old(self).fdtable@.len()) ==> (old(self).fdtable@[fd as int]
                matches Some(FileDescriptor::Socket(d)) ==> ((d.handle.domain == AF_INET
                || d.handle.domain == AF_INET6) ==> (final(self).fdtable@[r as int]
                matches Some(FileDescriptor::Socket(nd)) && nd.handle.innersocket is Some
                && nd.rawfd == nd.handle.innersocket->Some_0 && (d.handle.localaddr matches Some(
                la,
            ) ==> (nd.handle.localaddr matches Some(nla) && exists|p: u16|
                EPHEMERAL_PORT_START <= p <= EPHEMERAL_PORT_END && !#[trigger] port_reserved(
                    old(self).net.porttable@,
                    la.spec_addr(),
                    p,
                    d.handle.protocol,
                    d.handle.domain,
                ) && nla@ == addr_with_port(la@, p))))))),
            (0 <= fd < old(self).fdtable@.len() ==> (old(self).fdtable@[fd as int] matches Some(
                FileDescriptor::Socket(d),
            ) ==> (((d.handle.domain == AF_INET || d.handle.domain == AF_INET6)
                && d.handle.protocol == IPPROTO_TCP && d.handle.state == ConnState::LISTEN)
                ==> (d.handle.localaddr matches Some(la) ==> ({
                let key = crate::net_types::MuxKey {
                    addr: la.spec_addr(),
                    port: la.spec_port(),
                    domain: d.handle.domain,
                    tcp: crate::net_types::TCPPORT,
                };
                let pi = crate::net_types::pending_index_of(
                    old(self).net.pending_conn_table@,
                    key,
                );
                let avail = ephemeral_available(
                    old(self).net.porttable@,
                    la.spec_addr(),
                    d.handle.protocol,
                    d.handle.domain,
                );
                &&& ((pi == -1 || old(self).net.pending_conn_table@[pi].queue@.len() == 0)
                    ==> (kernel_accept matches Err(e) ==> r == -e))
                &&& ((((pi != -1 && old(self).net.pending_conn_table@[pi].queue@.len() > 0)
                    || kernel_accept is Ok) && avail && (exists|j: int|
                    0 <= j < old(self).fdtable@.len() && j != fd && old(self).fdtable@[j]
                        is None)) ==> r >= 0)
            }))))),
            (0 <= fd < old(self).fdtable@.len() ==> (old(self).fdtable@[fd as int] matches Some(
                FileDescriptor::Socket(d),
            ) ==> final(self).fdtable@[fd as int] == old(self).fdtable@[fd as int])),
            (0 <= fd < old(self).fdtable@.len() ==> (old(self).fdtable@[fd as int] matches Some(
                FileDescriptor::Socket(d),
            ) ==> ((d.handle.domain == AF_UNIX && d.handle.protocol == IPPROTO_TCP
                && d.handle.state == ConnState::LISTEN) ==> (d.handle.localaddr matches Some(la)
                ==> ((la@ is Unix && crate::net_types::accept_table_index(
                old(self).net.domsock_accept_table@,
                crate::paths::PathV {
                    absolute: true,
                    comps: truepath_comps(old(self).cwd@.comps, la@->Unix_0.path),
                },
            ) != -1 && (exists|j: int|
                0 <= j < old(self).fdtable@.len() && j != fd && old(self).fdtable@[j] is None))
                ==> r >= 0))))),
    {
        match self.take_fd(fd) {
            None => {
                proof {
                    if 0 <= fd < old(self).fdtable@.len() {
                        assert(self.fdtable@ =~= old(self).fdtable@);
                    }
                }
                syscall_error(EBADF)
            },
            Some(FileDescriptor::Socket(desc)) => {
                let res: Result<SocketDesc, i32> = if desc.handle.domain == AF_UNIX {
                    self.accept_unix(&desc.handle, desc.flags)
                } else if desc.handle.domain == AF_INET || desc.handle.domain == AF_INET6 {
                    self.accept_inet(&desc.handle, desc.flags, kernel_accept)
                } else {
                    Err(syscall_error(EINVAL))
                };
                // the listener goes back first, so the fresh descriptor
                // cannot land in its slot
                self.put_fd(fd, FileDescriptor::Socket(desc));
                proof {
                    assert(cage_wf(*self)) by {
                        assert forall|j: int|
                            0 <= j < self.fdtable@.len() implies ((#[trigger] self.fdtable@[j])
                            matches Some(f) ==> crate::cage::fd_wf(f, self.pipes@.len())) by {
                            if j != fd {
                                assert(self.fdtable@[j] == old(self).fdtable@[j]);
                            } else {
                                assert(crate::cage::fd_wf(
                                    old(self).fdtable@[fd as int]->Some_0,
                                    old(self).pipes@.len(),
                                ));
                            }
                        }
                    }
                }
                let r: i32 = match res {
                    Ok(newdesc) => {
                        match &newdesc.handle.remoteaddr {
                            Some(ra) => {
                                *addr = clone_gensockaddr(ra);
                            },
                            None => {},
                        }
                        proof {
                            // a free slot elsewhere survives the listener's
                            // return to its own slot
                            if exists|j: int|
                                0 <= j < old(self).fdtable@.len() && j != fd && old(self).fdtable@[j] is None {
                                let j = choose|j: int|
                                    0 <= j < old(self).fdtable@.len() && j != fd && old(self).fdtable@[j] is None;
                                assert(self.fdtable@[j] is None);
                            }
                        }
                        self._socket_inserter(FileDescriptor::Socket(newdesc))
                    },
                    Err(e) => e,
                };
                proof {
                    assert(cage_wf(*self));
                }
                r
            },
            Some(other) => {
                self.put_fd(fd, other);
                proof {
                    assert(self.fdtable@ =~= old(self).fdtable@);
                }
                syscall_error(ENOTSOCK)
            },
        }
    }
}

} // verus!

verus! {

/// What a plain read from a Unix-domain pipe delivers when nothing was
/// peeked before: the pipe's head bytes, consumed, or a try-again on an
/// empty pipe.
pub open spec fn recv_post_unix_pipe(
    pipes0: Seq<Seq<u8>>,
    pipes1: Seq<Seq<u8>>,
    rp: usize,
    bufv: Seq<u8>,
    want: usize,
    r: i32,
) -> bool {
    &&& (pipes0[rp as int].len() == 0 ==> r == -(EAGAIN as i32))
    &&& (pipes0[rp as int].len() > 0 ==> {
        let n = if want <= pipes0[rp as int].len() {
            want as int
        } else {
            pipes0[rp as int].len() as int
        };
        &&& r == n
        &&& bufv == pipes0[rp as int].take(n)
        &&& pipes1[rp as int] == pipes0[rp as int].skip(n)
    })
}

/// The host kernel's answers for one receive attempt: the freshly created
/// kernel socket and bind verdict an implicit bind would use, the received
/// bytes (or errno), the sender's address where the kernel reported one,
/// and whether a probe found an in-progress connect completed.
pub struct KernelRecv {
    pub kernel_fd: i32,
    pub bind_errno: i32,
    pub recv: Result<Vec<u8>, i32>,
    pub from: Option<GenSockaddr>,
    pub connected_probe: bool,
}

/// A receive request longer than one pipe's capacity is served as a short
/// read of at most that much.
pub open spec fn recv_want(buflen: usize) -> int {
    if buflen <= PIPE_CAPACITY {
        buflen as int
    } else {
        PIPE_CAPACITY as int
    }
}

/// What a stream receive delivers, as a function of the handle, the peek
/// cache, the pipe (for Unix domain) or the kernel's answer (for inet).
pub open spec fn recv_tcp_post(
    h0: SocketHandle,
    h1: SocketHandle,
    pipes0: Seq<Seq<u8>>,
    pipes1: Seq<Seq<u8>>,
    bufv: Seq<u8>,
    buflen: usize,
    flags: i32,
    k: KernelRecv,
    r: i32,
) -> bool {
    let st = if h0.state == ConnState::INPROGRESS && k.connected_probe {
        ConnState::CONNECTED
    } else {
        h0.state
    };
    let blen = recv_want(buflen);
    let pk = h0.last_peek@;
    &&& h1.state == st
    &&& ((st != ConnState::CONNECTED && st != ConnState::CONNRDONLY) ==> r == -(ENOTCONN as i32)
        && h1.last_peek@ == pk && pipes1 == pipes0)
    &&& ((st == ConnState::CONNECTED || st == ConnState::CONNRDONLY) && pk.len() >= blen ==> r
        == blen && bufv == pk.take(blen) && h1.last_peek@ == (if flags & MSG_PEEK != 0 {
        pk
    } else {
        pk.skip(blen)
    }) && pipes1 == pipes0)
    &&& ((st == ConnState::CONNECTED || st == ConnState::CONNRDONLY) && pk.len() == 0 && blen > 0
        && h0.domain == AF_UNIX && flags & MSG_PEEK == 0 ==> (h0.unix_info matches Some(u) ==> (
    u.receivepipe matches Some(rp) ==> recv_post_unix_pipe(
        pipes0,
        pipes1,
        rp,
        bufv,
        if buflen <= PIPE_CAPACITY {
            buflen
        } else {
            PIPE_CAPACITY
        },
        r,
    ))))
    &&& ((st == ConnState::CONNECTED || st == ConnState::CONNRDONLY) && pk.len() == 0 && blen > 0
        && h0.domain != AF_UNIX ==> (match k.recv {
        Ok(bytes) => {
            let take_n = if bytes@.len() <= blen {
                bytes@.len() as int
            } else {
                blen
            };
            &&& r == take_n
            &&& bufv == bytes@.take(take_n)
            &&& h1.last_peek@ == (if flags & MSG_PEEK != 0 {
                bytes@.take(take_n)
            } else {
                pk
            })
        },
        Err(e) => r == -e,
    }))
    &&& ((st == ConnState::CONNECTED || st == ConnState::CONNRDONLY) && 0 < pk.len() < blen
        && h0.domain == AF_UNIX && flags & MSG_PEEK == 0 ==> (h0.unix_info matches Some(u) ==> (
    u.receivepipe matches Some(rp) ==> {
        &&& (pipes0[rp as int].len() == 0 ==> r == pk.len() && bufv == pk && h1.last_peek@
            == Seq::<u8>::empty())
        &&& (pipes0[rp as int].len() > 0 ==> {
            let m = if blen - pk.len() <= pipes0[rp as int].len() {
                blen - pk.len()
            } else {
                pipes0[rp as int].len() as int
            };
            &&& r == pk.len() + m
            &&& bufv == pk + pipes0[rp as int].take(m)
            &&& pipes1[rp as int] == pipes0[rp as int].skip(m)
            &&& h1.last_peek@ == Seq::<u8>::empty()
        })
    })))
    &&& ((st == ConnState::CONNECTED || st == ConnState::CONNRDONLY) && pk.len() < blen
        && h0.domain == AF_UNIX && flags & MSG_PEEK != 0 ==> (h0.unix_info matches Some(u) ==> (
    u.receivepipe matches Some(rp) ==> {
        &&& (pipes0[rp as int].len() == 0 && pk.len() == 0 ==> r == -(EAGAIN as i32)
            && h1.last_peek@ == pk)
        &&& (pipes0[rp as int].len() == 0 && pk.len() > 0 ==> r == pk.len() && bufv == pk
            && h1.last_peek@ == pk)
        &&& (pipes0[rp as int].len() > 0 ==> {
            let m = if blen - pk.len() <= pipes0[rp as int].len() {
                blen - pk.len()
            } else {
                pipes0[rp as int].len() as int
            };
            &&& r == pk.len() + m
            &&& bufv == pk + pipes0[rp as int].take(m)
            &&& pipes1[rp as int] == pipes0[rp as int].skip(m)
            &&& h1.last_peek@ == pk + pipes0[rp as int].take(m)
        })
    })))
    &&& ((st == ConnState::CONNECTED || st == ConnState::CONNRDONLY) && 0 < pk.len() < blen
        && h0.domain != AF_UNIX ==> (match k.recv {
        Ok(bytes) => {
            let take_n = if bytes@.len() <= blen - pk.len() {
                bytes@.len() as int
            } else {
                blen - pk.len()
            };
            &&& r == pk.len() + take_n
            &&& bufv == pk + bytes@.take(take_n)
            &&& h1.last_peek@ == (if flags & MSG_PEEK != 0 {
                pk + bytes@.take(take_n)
            } else {
                Seq::<u8>::empty()
            })
        },
        Err(_) => r == pk.len() && bufv == pk && h1.last_peek@ == (if flags & MSG_PEEK != 0 {
            pk
        } else {
            Seq::<u8>::empty()
        }),
    }))
}

/// What a datagram receive delivers: the peek cache first, then the
/// kernel's bytes, with the sender's address reported when the kernel
/// named one.
pub open spec fn recv_udp_post(
    h0: SocketHandle,
    h1: SocketHandle,
    bufv: Seq<u8>,
    addr1: Option<GenSockaddrV>,
    buflen: usize,
    flags: i32,
    k: KernelRecv,
    r: i32,
) -> bool {
    let blen = recv_want(buflen);
    let pk = h0.last_peek@;
    &&& (pk.len() >= blen && blen > 0 && h0.localaddr is Some ==> r == blen && bufv == pk.take(
        blen,
    ) && h1.last_peek@ == (if flags & MSG_PEEK != 0 {
        pk
    } else {
        pk.skip(blen)
    }))
    &&& (pk.len() == 0 && blen > 0 && h0.localaddr is Some ==> (match k.recv {
        Ok(bytes) => {
            let take_n = if bytes@.len() <= blen {
                bytes@.len() as int
            } else {
                blen
            };
            &&& r == take_n
            &&& bufv == bytes@.take(take_n)
            &&& h1.last_peek@ == (if flags & MSG_PEEK != 0 {
                bytes@.take(take_n)
            } else {
                pk
            })
            &&& (k.from matches Some(a) ==> addr1 matches Some(av) && av == a@)
        },
        Err(e) => r == -e,
    }))
    &&& (0 < pk.len() < blen && blen > 0 && h0.localaddr is Some ==> (match k.recv {
        Ok(bytes) => {
            let take_n = if bytes@.len() <= blen - pk.len() {
                bytes@.len() as int
            } else {
                blen - pk.len()
            };
            &&& r == pk.len() + take_n
            &&& bufv == pk + bytes@.take(take_n)
            &&& h1.last_peek@ == (if flags & MSG_PEEK != 0 {
                pk + bytes@.take(take_n)
            } else {
                Seq::<u8>::empty()
            })
        },
        Err(_) => r == pk.len() && bufv == pk && h1.last_peek@ == (if flags & MSG_PEEK != 0 {
            pk
        } else {
            Seq::<u8>::empty()
        }),
    }))
}

impl Cage {
    /// Receive on a stream socket.  Bytes peeked earlier are served first;
    /// under `MSG_PEEK` nothing is consumed and freshly read bytes join
    /// the peek cache, so the next read sees them again.
    #[verifier::rlimit(60)]
    pub fn recv_common_inner_tcp(
        &mut self,
        sockhandle: &mut SocketHandle,
        buf: &mut Vec<u8>,
        buflen: usize,
        flags: i32,
        k: &KernelRecv,
    ) -> (r: i32)
        requires
            unix_pipes_valid(*old(sockhandle), old(self).pipes@.len()),
            k.recv matches Ok(bytes) ==> bytes@.len() <= buflen,
            k.recv matches Err(e) ==> 0 < e <= 0x10000,
        ensures
            final(self).fdtable == old(self).fdtable,
            final(self).fs == old(self).fs,
            final(self).net == old(self).net,
            final(self).pipes@.len() == old(self).pipes@.len(),
            unix_pipes_valid(*final(sockhandle), final(self).pipes@.len()),
            *final(sockhandle) == (SocketHandle {
                state: final(sockhandle).state,
                last_peek: final(sockhandle).last_peek,
                ..*old(sockhandle)
            }),
            recv_tcp_post(
                *old(sockhandle),
                *final(sockhandle),
                old(self).pipes@,
                final(self).pipes@,
                final(buf)@,
                buflen,
                flags,
                *k,
                r,
            ),
    {
        if sockhandle.state == ConnState::INPROGRESS && k.connected_probe {
            sockhandle.state = ConnState::CONNECTED;
        }
        if sockhandle.state != ConnState::CONNECTED && sockhandle.state != ConnState::CONNRDONLY {
            return syscall_error(ENOTCONN);
        }
        // a request longer than a pipe's capacity is served short
        let buflen = if buflen > PIPE_CAPACITY {
            PIPE_CAPACITY
        } else {
            buflen
        };
        // serve the peek cache first
        let pk_len = sockhandle.last_peek.len();
        let bytecount = if pk_len <= buflen {
            pk_len
        } else {
            buflen
        };
        buf.clear();
        let mut kk: usize = 0;
        while kk < bytecount
            invariant
                kk <= bytecount,
                bytecount <= sockhandle.last_peek@.len(),
                buf@ == sockhandle.last_peek@.take(kk as int),
            decreases bytecount - kk,
        {
            buf.push(sockhandle.last_peek[kk]);
            proof {
                assert(sockhandle.last_peek@.take(kk + 1 as int) =~= sockhandle.last_peek@.take(
                    kk as int,
                ).push(sockhandle.last_peek@[kk as int]));
            }
            kk = kk + 1;
        }
        let ghost pk = sockhandle.last_peek@;
        if flags & MSG_PEEK == 0 && bytecount > 0 {
            let mut rest: Vec<u8> = Vec::new();
            let mut k2: usize = bytecount;
            while k2 < sockhandle.last_peek.len()
                invariant
                    bytecount <= k2 <= sockhandle.last_peek@.len(),
                    sockhandle.last_peek@ == pk,
                    rest@ == pk.subrange(bytecount as int, k2 as int),
                decreases sockhandle.last_peek@.len() - k2,
            {
                rest.push(sockhandle.last_peek[k2]);
                proof {
                    assert(pk.subrange(bytecount as int, k2 + 1 as int) =~= pk.subrange(
                        bytecount as int,
                        k2 as int,
                    ).push(pk[k2 as int]));
                }
                k2 = k2 + 1;
            }
            sockhandle.last_peek = rest;
            proof {
                assert(pk.subrange(bytecount as int, pk.len() as int) =~= pk.skip(
                    bytecount as int,
                ));
            }
        }
        if bytecount == buflen && buflen > 0 {
            return bytecount as i32;
        }
        if pk_len >= buflen && buflen > 0 {
            return bytecount as i32;
        }
        if buflen == 0 {
            proof {
                assert(pk.skip(0) =~= pk);
            }
            return 0;
        }
        // more is wanted: from the pipe for Unix-domain, from the kernel
        // answer for inet
        let remaining = buflen - bytecount;
        if sockhandle.domain == AF_UNIX {
            let recvpipe = match &sockhandle.unix_info {
                Some(u) => match u.receivepipe {
                    Some(p) => p,
                    None => {
                        if bytecount > 0 {
                            return bytecount as i32;
                        }
                        return syscall_error(EAGAIN);
                    },
                },
                None => {
                    if bytecount > 0 {
                        return bytecount as i32;
                    }
                    return syscall_error(EAGAIN);
                },
            };
            let mut fresh: Vec<u8> = Vec::new();
            let rr = self.pipes.read_from_pipe(recvpipe, &mut fresh, remaining);
            if rr < 0 {
                if bytecount > 0 {
                    proof {
                        assert(buf@ =~= pk);
                        if flags & MSG_PEEK == 0 {
                            assert(sockhandle.last_peek@ =~= Seq::<u8>::empty());
                        }
                    }
                    return bytecount as i32;
                }
                return rr;
            }
            let mut fresh2 = crate::fs::clone_bytes(&fresh);
            buf.append(&mut fresh2);
            if flags & MSG_PEEK != 0 {
                let mut fresh3 = crate::fs::clone_bytes(&fresh);
                sockhandle.last_peek.append(&mut fresh3);
            }
            proof {
                if 0 < pk.len() {
                    assert(buf@ =~= pk + fresh@);
                    if flags & MSG_PEEK == 0 {
                        assert(sockhandle.last_peek@ =~= Seq::<u8>::empty());
                    }
                }
                if flags & MSG_PEEK != 0 {
                    assert(buf@ =~= pk + fresh@);
                    assert(sockhandle.last_peek@ =~= pk + fresh@);
                }
            }
            let total = bytecount + (rr as usize);
            total as i32
        } else {
            match &k.recv {
                Ok(bytes) => {
                    let take_n = if bytes.len() <= remaining {
                        bytes.len()
                    } else {
                        remaining
                    };
                    let mut kb: usize = 0;
                    let ghost b0 = buf@;
                    while kb < take_n
                        invariant
                            kb <= take_n,
                            take_n <= bytes@.len(),
                            buf@ == b0 + bytes@.take(kb as int),
                        decreases take_n - kb,
                    {
                        buf.push(bytes[kb]);
                        proof {
                            assert(b0 + bytes@.take(kb + 1 as int) =~= (b0 + bytes@.take(
                                kb as int,
                            )).push(bytes@[kb as int]));
                        }
                        kb = kb + 1;
                    }
                    let ghost lp0 = sockhandle.last_peek@;
                    if flags & MSG_PEEK != 0 {
                        let ghost h0 = *sockhandle;
                        let mut kb2: usize = 0;
                        while kb2 < take_n
                            invariant
                                kb2 <= take_n,
                                take_n <= bytes@.len(),
                                sockhandle.last_peek@ == lp0 + bytes@.take(kb2 as int),
                                *sockhandle == (SocketHandle {
                                    last_peek: sockhandle.last_peek,
                                    ..h0
                                }),
                            decreases take_n - kb2,
                        {
                            sockhandle.last_peek.push(bytes[kb2]);
                            proof {
                                assert(lp0 + bytes@.take(kb2 + 1 as int) =~= (lp0 + bytes@.take(
                                    kb2 as int,
                                )).push(bytes@[kb2 as int]));
                            }
                            kb2 = kb2 + 1;
                        }
                    }
                    proof {
                        if pk.len() == 0 {
                            assert(buf@ =~= bytes@.take(take_n as int));
                            if flags & MSG_PEEK != 0 {
                                assert(sockhandle.last_peek@ =~= bytes@.take(take_n as int));
                            }
                        } else {
                            assert(buf@ =~= pk + bytes@.take(take_n as int));
                            if flags & MSG_PEEK != 0 {
                                assert(sockhandle.last_peek@ =~= pk + bytes@.take(take_n as int));
                            } else {
                                assert(sockhandle.last_peek@.len() == 0);
                                assert(sockhandle.last_peek@ =~= Seq::<u8>::empty());
                            }
                        }
                    }
                    (bytecount + take_n) as i32
                },
                Err(e) => {
                    if bytecount > 0 {
                        proof {
                            assert(buf@ =~= pk);
                            if flags & MSG_PEEK == 0 {
                                assert(sockhandle.last_peek@ =~= Seq::<u8>::empty());
                            }
                        }
                        return bytecount as i32;
                    }
                    -*e
                },
            }
        }
    }

    /// Receive on a datagram socket: bind implicitly if needed, then serve
    /// the peek cache and the kernel's answer as the stream path does,
    /// reporting the sender's address where the kernel named one.
    pub fn recv_common_inner_udp(
        &mut self,
        sockhandle: &mut SocketHandle,
        buf: &mut Vec<u8>,
        buflen: usize,
        flags: i32,
        addr: &mut Option<GenSockaddr>,
        k: &KernelRecv,
    ) -> (r: i32)
        requires
            fs_wf(old(self).fs@),
            unix_pipes_valid(*old(sockhandle), old(self).pipes@.len()),
            0 <= k.bind_errno <= 0x10000,
            k.kernel_fd >= 0,
            k.recv matches Ok(bytes) ==> bytes@.len() <= buflen,
            k.recv matches Err(e) ==> 0 < e <= 0x10000,
        ensures
            fs_wf(final(self).fs@),
            final(self).fdtable == old(self).fdtable,
            final(self).pipes == old(self).pipes,
            final(self).net.domsock_accept_table == old(self).net.domsock_accept_table,
            unix_pipes_valid(*final(sockhandle), final(self).pipes@.len()),
            recv_udp_post(
                *old(sockhandle),
                *final(sockhandle),
                final(buf)@,
                oav(*final(addr)),
                buflen,
                flags,
                *k,
                r,
            ),
    {
        if sockhandle.localaddr.is_none() {
            let domain = sockhandle.domain;
            let ib = self._implicit_bind(sockhandle, domain, k.kernel_fd, k.bind_errno);
            if ib < 0 {
                return ib;
            }
        }
        let buflen = if buflen > PIPE_CAPACITY {
            PIPE_CAPACITY
        } else {
            buflen
        };
        // peek cache, exactly as for streams
        let pk_len = sockhandle.last_peek.len();
        let bytecount = if pk_len <= buflen {
            pk_len
        } else {
            buflen
        };
        buf.clear();
        let mut kk: usize = 0;
        while kk < bytecount
            invariant
                kk <= bytecount,
                bytecount <= sockhandle.last_peek@.len(),
                buf@ == sockhandle.last_peek@.take(kk as int),
            decreases bytecount - kk,
        {
            buf.push(sockhandle.last_peek[kk]);
            proof {
                assert(sockhandle.last_peek@.take(kk + 1 as int) =~= sockhandle.last_peek@.take(
                    kk as int,
                ).push(sockhandle.last_peek@[kk as int]));
            }
            kk = kk + 1;
        }
        let ghost pk = sockhandle.last_peek@;
        if flags & MSG_PEEK == 0 && bytecount > 0 {
            let mut rest: Vec<u8> = Vec::new();
            let mut k2: usize = bytecount;
            while k2 < sockhandle.last_peek.len()
                invariant
                    bytecount <= k2 <= sockhandle.last_peek@.len(),
                    sockhandle.last_peek@ == pk,
                    rest@ == pk.subrange(bytecount as int, k2 as int),
                decreases sockhandle.last_peek@.len() - k2,
            {
                rest.push(sockhandle.last_peek[k2]);
                proof {
                    assert(pk.subrange(bytecount as int, k2 + 1 as int) =~= pk.subrange(
                        bytecount as int,
                        k2 as int,
                    ).push(pk[k2 as int]));
                }
                k2 = k2 + 1;
            }
            sockhandle.last_peek = rest;
            proof {
                assert(pk.subrange(bytecount as int, pk.len() as int) =~= pk.skip(
                    bytecount as int,
                ));
            }
        }
        if bytecount == buflen && buflen > 0 {
            return bytecount as i32;
        }
        if pk_len >= buflen && buflen > 0 {
            return bytecount as i32;
        }
        if buflen == 0 {
            return 0;
        }
        let remaining = buflen - bytecount;
        match &k.recv {
            Ok(bytes) => {
                let take_n = if bytes.len() <= remaining {
                    bytes.len()
                } else {
                    remaining
                };
                let mut kb: usize = 0;
                let ghost b0 = buf@;
                while kb < take_n
                    invariant
                        kb <= take_n,
                        take_n <= bytes@.len(),
                        buf@ == b0 + bytes@.take(kb as int),
                    decreases take_n - kb,
                {
                    buf.push(bytes[kb]);
                    proof {
                        assert(b0 + bytes@.take(kb + 1 as int) =~= (b0 + bytes@.take(
                            kb as int,
                        )).push(bytes@[kb as int]));
                    }
                    kb = kb + 1;
                }
                let ghost lp0 = sockhandle.last_peek@;
                let ghost h0 = *sockhandle;
                if flags & MSG_PEEK != 0 {
                    let mut kb2: usize = 0;
                    while kb2 < take_n
                        invariant
                            kb2 <= take_n,
                            take_n <= bytes@.len(),
                            sockhandle.last_peek@ == lp0 + bytes@.take(kb2 as int),
                            *sockhandle == (SocketHandle {
                                last_peek: sockhandle.last_peek,
                                ..h0
                            }),
                        decreases take_n - kb2,
                    {
                        sockhandle.last_peek.push(bytes[kb2]);
                        proof {
                            assert(lp0 + bytes@.take(kb2 + 1 as int) =~= (lp0 + bytes@.take(
                                kb2 as int,
                            )).push(bytes@[kb2 as int]));
                        }
                        kb2 = kb2 + 1;
                    }
                }
                match &k.from {
                    Some(a) => {
                        *addr = Some(clone_gensockaddr(a));
                    },
                    None => {},
                }
                proof {
                    if pk.len() == 0 {
                        assert(buf@ =~= bytes@.take(take_n as int));
                        if flags & MSG_PEEK != 0 {
                            assert(sockhandle.last_peek@ =~= bytes@.take(take_n as int));
                        }
                    } else {
                        assert(buf@ =~= pk + bytes@.take(take_n as int));
                        if flags & MSG_PEEK != 0 {
                            assert(sockhandle.last_peek@ =~= pk + bytes@.take(take_n as int));
                        } else {
                            assert(sockhandle.last_peek@ =~= Seq::<u8>::empty());
                        }
                    }
                }
                (bytecount + take_n) as i32
            },
            Err(e) => {
                if bytecount > 0 {
                    proof {
                        assert(buf@ =~= pk);
                        if flags & MSG_PEEK == 0 {
                            assert(sockhandle.last_peek@ =~= Seq::<u8>::empty());
                        }
                    }
                    return bytecount as i32;
                }
                -*e
            },
        }
    }
}

} // verus!

verus! {

/// What send promises for one socket descriptor, over the pipe table
/// before and after.
pub open spec fn send_post(
    d: SocketDesc,
    pipes0: Seq<Seq<u8>>,
    pipes1: Seq<Seq<u8>>,
    buf: Seq<u8>,
    buflen: usize,
    flags: i32,
    kernel_send: Result<i32, i32>,
    r: i32,
) -> bool {
    &&& (flags & !MSG_NOSIGNAL != 0 ==> r == -(EOPNOTSUPP as i32))
    &&& (flags & !MSG_NOSIGNAL == 0 && d.handle.domain == AF_UNIX && d.handle.protocol
        == IPPROTO_TCP && d.handle.state != ConnState::CONNECTED ==> r == -(ENOTCONN as i32))
    &&& (flags & !MSG_NOSIGNAL == 0 && d.handle.domain == AF_UNIX && d.handle.protocol
        == IPPROTO_TCP && d.handle.state == ConnState::CONNECTED ==> send_post_unix_pipe(
        d,
        pipes0,
        pipes1,
        buf,
        buflen,
        r,
    ))
    &&& (flags & !MSG_NOSIGNAL == 0 && (d.handle.domain == AF_INET || d.handle.domain == AF_INET6)
        && d.handle.protocol == IPPROTO_TCP ==> send_post_inet_stream(d, kernel_send, r))
    &&& (flags & !MSG_NOSIGNAL == 0 && (d.handle.domain == AF_INET || d.handle.domain == AF_INET6)
        && d.handle.protocol == IPPROTO_UDP && d.handle.remoteaddr is None ==> r == -(
    ENOTCONN as i32))
    &&& (flags & !MSG_NOSIGNAL == 0 && (d.handle.domain == AF_INET || d.handle.domain == AF_INET6)
        && d.handle.protocol == IPPROTO_UDP && d.handle.remoteaddr is Some
        && d.handle.localaddr is Some ==> (match kernel_send {
        Ok(v) => r == v,
        Err(e) => r == -e,
    }))
}

pub open spec fn send_post_unix_pipe(
    d: SocketDesc,
    pipes0: Seq<Seq<u8>>,
    pipes1: Seq<Seq<u8>>,
    buf: Seq<u8>,
    buflen: usize,
    r: i32,
) -> bool {
    d.handle.unix_info matches Some(u) ==> (u.sendpipe matches Some(sp) ==> {
        &&& (pipes0[sp as int].len() + buflen <= PIPE_CAPACITY ==> r == buflen && pipes1[
            sp as int] == pipes0[sp as int] + buf.take(buflen as int))
        &&& (pipes0[sp as int].len() + buflen > PIPE_CAPACITY ==> r == -(EAGAIN as i32))
    })
}

pub open spec fn send_post_inet_stream(d: SocketDesc, kernel_send: Result<i32, i32>, r: i32) -> bool {
    &&& (d.handle.state != ConnState::CONNECTED && d.handle.state != ConnState::CONNWRONLY ==> r
        == -(ENOTCONN as i32))
    &&& ((d.handle.state == ConnState::CONNECTED || d.handle.state == ConnState::CONNWRONLY)
        ==> (match kernel_send {
        Ok(v) => r == v,
        Err(e) => r == -e,
    }))
}

/// What sendto promises for one socket descriptor with an explicit
/// destination.
pub open spec fn sendto_post(
    d: SocketDesc,
    dest_family: u16,
    flags: i32,
    kernel_send: Result<i32, i32>,
    r: i32,
) -> bool {
    &&& (d.handle.domain == AF_UNIX ==> r == -(EISCONN as i32))
    &&& (d.handle.domain != AF_UNIX && dest_family != d.handle.domain as u16 ==> r == -(
    EINVAL as i32))
    &&& (d.handle.domain != AF_UNIX && dest_family == d.handle.domain as u16 && flags
        & !MSG_NOSIGNAL != 0 ==> r == -(EOPNOTSUPP as i32))
    &&& (d.handle.domain != AF_UNIX && dest_family == d.handle.domain as u16 && flags
        & !MSG_NOSIGNAL == 0 && d.handle.state != ConnState::NOTCONNECTED ==> r == -(
    EISCONN as i32))
    &&& (d.handle.domain != AF_UNIX && dest_family == d.handle.domain as u16 && flags
        & !MSG_NOSIGNAL == 0 && d.handle.state == ConnState::NOTCONNECTED && d.handle.protocol
        == IPPROTO_TCP ==> r == -(EISCONN as i32))
    &&& (d.handle.domain != AF_UNIX && dest_family == d.handle.domain as u16 && flags
        & !MSG_NOSIGNAL == 0 && d.handle.state == ConnState::NOTCONNECTED && d.handle.protocol
        == IPPROTO_UDP && d.handle.localaddr is Some ==> (match kernel_send {
        Ok(v) => r == v,
        Err(e) => r == -e,
    }))
}

/// The send inputs on which nothing is transmitted or bound: a refused
/// flag, a stream socket that is not connected, a datagram socket with no
/// recorded remote address, or an unsupported domain or protocol.
pub open spec fn send_untouched(d: SocketDesc, flags: i32) -> bool {
    ||| flags & !MSG_NOSIGNAL != 0
    ||| (d.handle.domain == AF_UNIX && !(d.handle.protocol == IPPROTO_TCP && d.handle.state
        == ConnState::CONNECTED))
    ||| ((d.handle.domain == AF_INET || d.handle.domain == AF_INET6) && d.handle.protocol
        == IPPROTO_TCP && d.handle.state != ConnState::CONNECTED && d.handle.state
        != ConnState::CONNWRONLY)
    ||| ((d.handle.domain == AF_INET || d.handle.domain == AF_INET6) && d.handle.protocol
        == IPPROTO_UDP && d.handle.remoteaddr is None)
    ||| (d.handle.domain != AF_UNIX && d.handle.domain != AF_INET && d.handle.domain != AF_INET6)
}

/// The sendto inputs on which nothing is transmitted or bound: a
/// connection-oriented or mismatched socket, or a refused flag.
pub open spec fn sendto_untouched(d: SocketDesc, dest_family: u16, flags: i32) -> bool {
    ||| d.handle.domain == AF_UNIX
    ||| dest_family != d.handle.domain as u16
    ||| flags & !MSG_NOSIGNAL != 0
    ||| d.handle.state != ConnState::NOTCONNECTED
    ||| d.handle.protocol == IPPROTO_TCP
}

impl Cage {
    /// Send on a connected socket.  A Unix-domain stream writes into its
    /// send pipe; an inet socket passes the kernel's answer through; a
    /// datagram socket must have a recorded remote address.
    pub fn send_syscall(
        &mut self,
        fd: i32,
        buf: &Vec<u8>,
        buflen: usize,
        flags: i32,
        kernel_fd: i32,
        kernel_bind_errno: i32,
        kernel_send: &Result<i32, i32>,
    ) -> (r: i32)
        requires
            cage_wf(*old(self)),
            buflen <= buf@.len(),
            kernel_fd >= 0,
            0 <= kernel_bind_errno <= 0x10000,
            kernel_send matches Ok(v) ==> 0 <= *v <= buflen,
            kernel_send matches Err(e) ==> 0 < *e <= 0x10000,
        ensures
            cage_wf(*final(self)),
            !(0 <= fd < old(self).fdtable@.len() && old(self).fdtable@[fd as int] is Some) ==> r
                == -(EBADF as i32) && final(self).fdtable@ == old(self).fdtable@ && final(self).pipes == old(self).pipes,
            (0 <= fd < old(self).fdtable@.len() && (old(self).fdtable@[fd as int] matches Some(e)
                && !(e is Socket))) ==> r == -(ENOTSOCK as i32),
            (0 <= fd < old(self).fdtable@.len() ==> (old(self).fdtable@[fd as int] matches Some(
                FileDescriptor::Socket(d),
            ) ==> send_post(
                d,
                old(self).pipes@,
                final(self).pipes@,
                buf@,
                buflen,
                flags,
                *kernel_send,
                r,
            ))),
            (0 <= fd < old(self).fdtable@.len() ==> (old(self).fdtable@[fd as int] matches Some(
                FileDescriptor::Socket(d),
            ) ==> (send_untouched(d, flags) ==> final(self).pipes == old(self).pipes
                && final(self).fs == old(self).fs && final(self).net == old(self).net
                && final(self).fdtable@ == old(self).fdtable@))),
    {
        match self.take_fd(fd) {
            None => {
                proof {
                    if 0 <= fd < old(self).fdtable@.len() {
                        assert(self.fdtable@ =~= old(self).fdtable@);
                    }
                }
                syscall_error(EBADF)
            },
            Some(FileDescriptor::Socket(mut desc)) => {
                let r: i32 = if flags & !MSG_NOSIGNAL != 0 {
                    syscall_error(EOPNOTSUPP)
                } else if desc.handle.domain == AF_UNIX {
                    if desc.handle.protocol != IPPROTO_TCP {
                        syscall_error(EOPNOTSUPP)
                    } else if desc.handle.state != ConnState::CONNECTED {
                        syscall_error(ENOTCONN)
                    } else {
                        match &desc.handle.unix_info {
                            Some(u) => match u.sendpipe {
                                Some(sp) => self.pipes.write_to_pipe(sp, buf, buflen),
                                None => syscall_error(EAGAIN),
                            },
                            None => syscall_error(EINPROGRESS),
                        }
                    }
                } else if desc.handle.domain == AF_INET || desc.handle.domain == AF_INET6 {
                    if desc.handle.protocol == IPPROTO_TCP {
                        if desc.handle.state != ConnState::CONNECTED && desc.handle.state
                            != ConnState::CONNWRONLY {
                            syscall_error(ENOTCONN)
                        } else {
                            match kernel_send {
                                Ok(v) => *v,
                                Err(e) => -*e,
                            }
                        }
                    } else if desc.handle.protocol == IPPROTO_UDP {
                        if desc.handle.remoteaddr.is_none() {
                            syscall_error(ENOTCONN)
                        } else {
                            let domain = desc.handle.domain;
                            let ib = self._implicit_bind(
                                &mut desc.handle,
                                domain,
                                kernel_fd,
                                kernel_bind_errno,
                            );
                            if ib < 0 {
                                ib
                            } else {
                                match kernel_send {
                                    Ok(v) => *v,
                                    Err(e) => -*e,
                                }
                            }
                        }
                    } else {
                        syscall_error(EOPNOTSUPP)
                    }
                } else {
                    syscall_error(EINVAL)
                };
                self.put_fd(fd, FileDescriptor::Socket(desc));
                proof {
                    assert(cage_wf(*self)) by {
                        assert forall|j: int|
                            0 <= j < self.fdtable@.len() implies ((#[trigger] self.fdtable@[j])
                            matches Some(f) ==> crate::cage::fd_wf(f, self.pipes@.len())) by {
                            if j != fd {
                                assert(self.fdtable@[j] == old(self).fdtable@[j]);
                            } else {
                                assert(crate::cage::fd_wf(
                                    old(self).fdtable@[fd as int]->Some_0,
                                    old(self).pipes@.len(),
                                ));
                            }
                        }
                    }
                    if send_untouched(old(self).fdtable@[fd as int]->Some_0->Socket_0, flags) {
                        assert(self.fdtable@ =~= old(self).fdtable@);
                    }
                }
                r
            },
            Some(other) => {
                self.put_fd(fd, other);
                proof {
                    assert(self.fdtable@ =~= old(self).fdtable@);
                }
                syscall_error(ENOTSOCK)
            },
        }
    }

    /// Send to an explicit destination.  A wildcard destination falls back
    /// to plain send; a stream socket is connection-oriented and refuses;
    /// a datagram socket binds implicitly and passes the kernel's answer.
    pub fn sendto_syscall(
        &mut self,
        fd: i32,
        buf: &Vec<u8>,
        buflen: usize,
        flags: i32,
        dest_addr: &GenSockaddr,
        kernel_fd: i32,
        kernel_bind_errno: i32,
        kernel_send: &Result<i32, i32>,
    ) -> (r: i32)
        requires
            cage_wf(*old(self)),
            buflen <= buf@.len(),
            kernel_fd >= 0,
            0 <= kernel_bind_errno <= 0x10000,
            kernel_send matches Ok(v) ==> 0 <= *v <= buflen,
            kernel_send matches Err(e) ==> 0 < *e <= 0x10000,
        ensures
            cage_wf(*final(self)),
            ({
                let shunt = dest_addr.spec_port() == 0
                    && dest_addr.spec_addr().spec_is_unspecified();
                &&& (!shunt && !(0 <= fd < old(self).fdtable@.len() && old(self).fdtable@[
                    fd as int] is Some) ==> r == -(EBADF as i32))
                &&& (!shunt && 0 <= fd < old(self).fdtable@.len() ==> (old(self).fdtable@[
                    fd as int] matches Some(FileDescriptor::Socket(d)) ==> sendto_post(
                    d,
                    dest_addr.spec_family(),
                    flags,
                    *kernel_send,
                    r,
                )))
                &&& (!shunt && 0 <= fd < old(self).fdtable@.len() ==> (old(self).fdtable@[
                    fd as int] matches Some(FileDescriptor::Socket(d)) ==> (sendto_untouched(
                    d,
                    dest_addr.spec_family(),
                    flags,
                ) ==> final(self).pipes == old(self).pipes && final(self).fs == old(self).fs
                    && final(self).net == old(self).net && final(self).fdtable@ == old(self).fdtable@)))
            }),
    {
        if dest_addr.port() == 0 && dest_addr.addr().is_unspecified() {
            return self.send_syscall(
                fd,
                buf,
                buflen,
                flags,
                kernel_fd,
                kernel_bind_errno,
                kernel_send,
            );
        }
        match self.take_fd(fd) {
            None => {
                proof {
                    if 0 <= fd < old(self).fdtable@.len() {
                        assert(self.fdtable@ =~= old(self).fdtable@);
                    }
                }
                syscall_error(EBADF)
            },
            Some(FileDescriptor::Socket(mut desc)) => {
                let r: i32 = if desc.handle.domain == AF_UNIX {
                    syscall_error(EISCONN)
                } else if dest_addr.get_family() != desc.handle.domain as u16 {
                    syscall_error(EINVAL)
                } else if flags & !MSG_NOSIGNAL != 0 {
                    syscall_error(EOPNOTSUPP)
                } else if desc.handle.state != ConnState::NOTCONNECTED {
                    syscall_error(EISCONN)
                } else if desc.handle.protocol == IPPROTO_TCP {
                    syscall_error(EISCONN)
                } else if desc.handle.protocol == IPPROTO_UDP {
                    let domain = dest_addr.get_family() as i32;
                    let ib = self._implicit_bind(
                        &mut desc.handle,
                        domain,
                        kernel_fd,
                        kernel_bind_errno,
                    );
                    if ib < 0 {
                        ib
                    } else {
                        match kernel_send {
                            Ok(v) => *v,
                            Err(e) => -*e,
                        }
                    }
                } else {
                    syscall_error(EOPNOTSUPP)
                };
                self.put_fd(fd, FileDescriptor::Socket(desc));
                proof {
                    assert(cage_wf(*self)) by {
                        assert forall|j: int|
                            0 <= j < self.fdtable@.len() implies ((#[trigger] self.fdtable@[j])
                            matches Some(f) ==> crate::cage::fd_wf(f, self.pipes@.len())) by {
                            if j != fd {
                                assert(self.fdtable@[j] == old(self).fdtable@[j]);
                            } else {
                                assert(crate::cage::fd_wf(
                                    old(self).fdtable@[fd as int]->Some_0,
                                    old(self).pipes@.len(),
                                ));
                            }
                        }
                    }
                    if sendto_untouched(
                        old(self).fdtable@[fd as int]->Some_0->Socket_0,
                        dest_addr.spec_family(),
                        flags,
                    ) {
                        assert(self.fdtable@ =~= old(self).fdtable@);
                    }
                }
                r
            },
            Some(other) => {
                self.put_fd(fd, other);
                proof {
                    assert(self.fdtable@ =~= old(self).fdtable@);
                }
                syscall_error(ENOTSOCK)
            },
        }
    }

    /// Receive: dispatch on the socket's protocol; the sender's address,
    /// where the kernel named one, comes back through `addr`.
    pub fn recv_common(
        &mut self,
        fd: i32,
        buf: &mut Vec<u8>,
        buflen: usize,
        flags: i32,
        addr: &mut Option<GenSockaddr>,
        k: &KernelRecv,
    ) -> (r: i32)
        requires
            cage_wf(*old(self)),
            k.kernel_fd >= 0,
            0 <= k.bind_errno <= 0x10000,
            k.recv matches Ok(bytes) ==> bytes@.len() <= buflen,
            k.recv matches Err(e) ==> 0 < e <= 0x10000,
        ensures
            cage_wf(*final(self)),
            !(0 <= fd < old(self).fdtable@.len() && old(self).fdtable@[fd as int] is Some) ==> r
                == -(EBADF as i32) && final(self).fdtable@ == old(self).fdtable@,
            (0 <= fd < old(self).fdtable@.len() && (old(self).fdtable@[fd as int] matches Some(e)
                && !(e is Socket))) ==> r == -(ENOTSOCK as i32),
            (0 <= fd < old(self).fdtable@.len() && (old(self).fdtable@[fd as int] matches Some(
                FileDescriptor::Socket(d),
            ) && d.handle.protocol != IPPROTO_TCP && d.handle.protocol != IPPROTO_UDP)) ==> r
                == -(EOPNOTSUPP as i32),
            (0 <= fd < old(self).fdtable@.len() ==> (old(self).fdtable@[fd as int] matches Some(
                FileDescriptor::Socket(d),
            ) ==> ((d.handle.protocol == IPPROTO_TCP ==> (final(self).fdtable@[fd as int]
                matches Some(FileDescriptor::Socket(d2)) && recv_tcp_post(
                d.handle,
                d2.handle,
                old(self).pipes@,
                final(self).pipes@,
                final(buf)@,
                buflen,
                flags,
                *k,
                r,
            ))) && (d.handle.protocol == IPPROTO_UDP ==> (final(self).fdtable@[fd as int]
                matches Some(FileDescriptor::Socket(d3)) && recv_udp_post(
                d.handle,
                d3.handle,
                final(buf)@,
                oav(*final(addr)),
                buflen,
                flags,
                *k,
                r,
            )))))),
    {
        match self.take_fd(fd) {
            None => {
                proof {
                    if 0 <= fd < old(self).fdtable@.len() {
                        assert(self.fdtable@ =~= old(self).fdtable@);
                    }
                }
                syscall_error(EBADF)
            },
            Some(FileDescriptor::Socket(mut desc)) => {
                let r: i32 = if desc.handle.protocol == IPPROTO_TCP {
                    self.recv_common_inner_tcp(&mut desc.handle, buf, buflen, flags, k)
                } else if desc.handle.protocol == IPPROTO_UDP {
                    self.recv_common_inner_udp(&mut desc.handle, buf, buflen, flags, addr, k)
                } else {
                    syscall_error(EOPNOTSUPP)
                };
                self.put_fd(fd, FileDescriptor::Socket(desc));
                proof {
                    assert(cage_wf(*self)) by {
                        assert forall|j: int|
                            0 <= j < self.fdtable@.len() implies ((#[trigger] self.fdtable@[j])
                            matches Some(f) ==> crate::cage::fd_wf(f, self.pipes@.len())) by {
                            if j != fd {
                                assert(self.fdtable@[j] == old(self).fdtable@[j]);
                            } else {
                                assert(crate::cage::fd_wf(
                                    old(self).fdtable@[fd as int]->Some_0,
                                    old(self).pipes@.len(),
                                ));
                            }
                        }
                    }
                }
                r
            },
            Some(other) => {
                self.put_fd(fd, other);
                proof {
                    assert(self.fdtable@ =~= old(self).fdtable@);
                }
                syscall_error(ENOTSOCK)
            },
        }
    }

    /// The recvfrom system call: receive and report the sender's address.
    pub fn recvfrom_syscall(
        &mut self,
        fd: i32,
        buf: &mut Vec<u8>,
        buflen: usize,
        flags: i32,
        addr: &mut Option<GenSockaddr>,
        k: &KernelRecv,
    ) -> (r: i32)
        requires
            cage_wf(*old(self)),
            k.kernel_fd >= 0,
            0 <= k.bind_errno <= 0x10000,
            k.recv matches Ok(bytes) ==> bytes@.len() <= buflen,
            k.recv matches Err(e) ==> 0 < e <= 0x10000,
        ensures
            cage_wf(*final(self)),
            (0 <= fd < old(self).fdtable@.len() ==> (old(self).fdtable@[fd as int] matches Some(
                FileDescriptor::Socket(d),
            ) ==> ((d.handle.protocol == IPPROTO_TCP ==> (final(self).fdtable@[fd as int]
                matches Some(FileDescriptor::Socket(d2)) && recv_tcp_post(
                d.handle,
                d2.handle,
                old(self).pipes@,
                final(self).pipes@,
                final(buf)@,
                buflen,
                flags,
                *k,
                r,
            ))) && (d.handle.protocol == IPPROTO_UDP ==> (final(self).fdtable@[fd as int]
                matches Some(FileDescriptor::Socket(d3)) && recv_udp_post(
                d.handle,
                d3.handle,
                final(buf)@,
                oav(*final(addr)),
                buflen,
                flags,
                *k,
                r,
            )))))),
    {
        self.recv_common(fd, buf, buflen, flags, addr, k)
    }

    /// The recv system call: as recvfrom, with no interest in the sender.
    pub fn recv_syscall(
        &mut self,
        fd: i32,
        buf: &mut Vec<u8>,
        buflen: usize,
        flags: i32,
        k: &KernelRecv,
    ) -> (r: i32)
        requires
            cage_wf(*old(self)),
            k.kernel_fd >= 0,
            0 <= k.bind_errno <= 0x10000,
            k.recv matches Ok(bytes) ==> bytes@.len() <= buflen,
            k.recv matches Err(e) ==> 0 < e <= 0x10000,
        ensures
            cage_wf(*final(self)),
            (0 <= fd < old(self).fdtable@.len() ==> (old(self).fdtable@[fd as int] matches Some(
                FileDescriptor::Socket(d),
            ) ==> ((d.handle.protocol == IPPROTO_TCP ==> (final(self).fdtable@[fd as int]
                matches Some(FileDescriptor::Socket(d2)) && recv_tcp_post(
                d.handle,
                d2.handle,
                old(self).pipes@,
                final(self).pipes@,
                final(buf)@,
                buflen,
                flags,
                *k,
                r,
            ))) && (d.handle.protocol == IPPROTO_UDP ==> (final(self).fdtable@[fd as int]
                matches Some(FileDescriptor::Socket(d3)) && (exists|a1: Option<GenSockaddrV>|
                recv_udp_post(
                    d.handle,
                    d3.handle,
                    final(buf)@,
                    a1,
                    buflen,
                    flags,
                    *k,
                    r,
                ))))))),
    {
        let mut addr: Option<GenSockaddr> = None;
        let r = self.recv_common(fd, buf, buflen, flags, &mut addr, k);
        r
    }
}

} // verus!

verus! {

/// The shutdown transition table: how each connection state moves under
/// `SHUT_RD`, `SHUT_WR` and `SHUT_RDWR`; states outside the table stay.
pub open spec fn shutdown_state(st: ConnState, how: i32) -> ConnState {
    if how == SHUT_RDWR {
        ConnState::NOTCONNECTED
    } else if how == SHUT_RD {
        if st == ConnState::CONNECTED {
            ConnState::CONNWRONLY
        } else if st == ConnState::CONNWRONLY {
            ConnState::NOTCONNECTED
        } else {
            st
        }
    } else if how == SHUT_WR {
        if st == ConnState::CONNECTED {
            ConnState::CONNRDONLY
        } else if st == ConnState::CONNRDONLY {
            ConnState::NOTCONNECTED
        } else {
            st
        }
    } else {
        st
    }
}

impl Cage {
    /// Apply a shutdown (or a close) to one handle: run the kernel's
    /// verdict for inet sockets, release the bound port once the socket is
    /// done with it, and step the connection state by the fixed table.
    pub fn _cleanup_socket_inner_helper(
        &mut self,
        sockhandle: &mut SocketHandle,
        how: i32,
        shutdown: bool,
        kernel_shutdown_errno: i32,
    ) -> (r: i32)
        requires
            0 <= kernel_shutdown_errno <= 0x10000,
            how == SHUT_RD || how == SHUT_WR || how == SHUT_RDWR,
        ensures
            final(self).fs == old(self).fs,
            final(self).fdtable == old(self).fdtable,
            final(self).pipes == old(self).pipes,
            final(self).net.domsock_accept_table == old(self).net.domsock_accept_table,
            final(self).net.domsock_paths == old(self).net.domsock_paths,
            (old(sockhandle).domain != AF_UNIX && old(sockhandle).innersocket is Some && shutdown
                && kernel_shutdown_errno != 0) ==> r == -kernel_shutdown_errno && *final(sockhandle) == *old(sockhandle),
            (old(sockhandle).domain == AF_UNIX || old(sockhandle).innersocket is None
                || kernel_shutdown_errno == 0) ==> r == 0,
            r == 0 ==> final(sockhandle).state == shutdown_state(old(sockhandle).state, how),
            unix_pipes_valid(*old(sockhandle), old(self).pipes@.len()) ==> unix_pipes_valid(
                *final(sockhandle),
                final(self).pipes@.len(),
            ),
    {
        if sockhandle.domain != AF_UNIX {
            let mut releaseflag = false;
            if sockhandle.innersocket.is_some() {
                if shutdown {
                    if kernel_shutdown_errno != 0 {
                        return -kernel_shutdown_errno;
                    }
                    if how == SHUT_RD {
                        if sockhandle.state == ConnState::CONNRDONLY {
                            releaseflag = true;
                        }
                    } else if how == SHUT_WR {
                        if sockhandle.state == ConnState::CONNWRONLY {
                            releaseflag = true;
                        }
                    } else {
                        releaseflag = true;
                    }
                } else {
                    // a close: the kernel socket is dropped with the handle
                    releaseflag = true;
                    sockhandle.innersocket = None;
                }
            }
            if releaseflag {
                match &sockhandle.localaddr {
                    Some(la) => {
                        let addr = la.addr();
                        let port = la.port();
                        let protocol = sockhandle.protocol;
                        let domain = sockhandle.domain;
                        let _ = self.net._release_localport(addr, port, protocol, domain);
                        sockhandle.localaddr = None;
                    },
                    None => {},
                }
            }
        }
        if how == SHUT_RD {
            if sockhandle.state == ConnState::CONNECTED {
                sockhandle.state = ConnState::CONNWRONLY;
            } else if sockhandle.state == ConnState::CONNWRONLY {
                sockhandle.state = ConnState::NOTCONNECTED;
            }
        } else if how == SHUT_WR {
            if sockhandle.state == ConnState::CONNECTED {
                sockhandle.state = ConnState::CONNRDONLY;
            } else if sockhandle.state == ConnState::CONNRDONLY {
                sockhandle.state = ConnState::NOTCONNECTED;
            }
        } else {
            sockhandle.state = ConnState::NOTCONNECTED;
        }
        0
    }

    /// Shut down or close the socket behind a descriptor; a full shutdown
    /// also retires the descriptor.
    pub fn _cleanup_socket(&mut self, fd: i32, how: i32, kernel_shutdown_errno: i32) -> (r: i32)
        requires
            cage_wf(*old(self)),
            0 <= kernel_shutdown_errno <= 0x10000,
            how == SHUT_RD || how == SHUT_WR || how == SHUT_RDWR,
        ensures
            cage_wf(*final(self)),
            !(0 <= fd < old(self).fdtable@.len() && old(self).fdtable@[fd as int] is Some) ==> r
                == -(EBADF as i32) && final(self).fdtable@ == old(self).fdtable@,
            (0 <= fd < old(self).fdtable@.len() && (old(self).fdtable@[fd as int] matches Some(e)
                && !(e is Socket))) ==> r == -(ENOTSOCK as i32),
            (0 <= fd < old(self).fdtable@.len() ==> (old(self).fdtable@[fd as int] matches Some(
                FileDescriptor::Socket(d),
            ) ==> ((d.handle.domain == AF_UNIX || d.handle.innersocket is None
                || kernel_shutdown_errno == 0) ==> r == 0))),
            (r == 0 && how == SHUT_RDWR && 0 <= fd < old(self).fdtable@.len()) ==> final(self).fdtable@[fd as int] is None,
            ((r == 0 && how != SHUT_RDWR && 0 <= fd < old(self).fdtable@.len()) ==> (old(self).fdtable@[fd as int] matches Some(FileDescriptor::Socket(d)) ==> (final(self).fdtable@[fd as int] matches Some(FileDescriptor::Socket(d2)) && d2.handle.state
                == shutdown_state(d.handle.state, how)))),
    {
        match self.take_fd(fd) {
            None => {
                proof {
                    if 0 <= fd < old(self).fdtable@.len() {
                        assert(self.fdtable@ =~= old(self).fdtable@);
                    }
                }
                syscall_error(EBADF)
            },
            Some(FileDescriptor::Socket(mut desc)) => {
                let r = self._cleanup_socket_inner_helper(
                    &mut desc.handle,
                    how,
                    true,
                    kernel_shutdown_errno,
                );
                if r < 0 || how != SHUT_RDWR {
                    self.put_fd(fd, FileDescriptor::Socket(desc));
                }
                proof {
                    assert(cage_wf(*self)) by {
                        assert forall|j: int|
                            0 <= j < self.fdtable@.len() implies ((#[trigger] self.fdtable@[j])
                            matches Some(f) ==> crate::cage::fd_wf(f, self.pipes@.len())) by {
                            if j != fd {
                                assert(self.fdtable@[j] == old(self).fdtable@[j]);
                            } else {
                                assert(crate::cage::fd_wf(
                                    old(self).fdtable@[fd as int]->Some_0,
                                    old(self).pipes@.len(),
                                ));
                            }
                        }
                    }
                }
                r
            },
            Some(other) => {
                self.put_fd(fd, other);
                proof {
                    assert(self.fdtable@ =~= old(self).fdtable@);
                }
                syscall_error(ENOTSOCK)
            },
        }
    }

    /// The shutdown system call: only the three standard modes are
    /// understood.
    pub fn netshutdown_syscall(&mut self, fd: i32, how: i32, kernel_shutdown_errno: i32) -> (r:
        i32)
        requires
            cage_wf(*old(self)),
            0 <= kernel_shutdown_errno <= 0x10000,
        ensures
            cage_wf(*final(self)),
            !(how == SHUT_RD || how == SHUT_WR || how == SHUT_RDWR) ==> r == -(EINVAL as i32)
                && *final(self) == *old(self),
            ((how == SHUT_RD || how == SHUT_WR || how == SHUT_RDWR) && !(0 <= fd < old(self).fdtable@.len() && old(self).fdtable@[fd as int] is Some)) ==> r == -(EBADF as i32),
            ((how == SHUT_RD || how == SHUT_WR || how == SHUT_RDWR) && 0 <= fd < old(self).fdtable@.len() ==> (old(self).fdtable@[fd as int] matches Some(
                FileDescriptor::Socket(d),
            ) ==> ((d.handle.domain == AF_UNIX || d.handle.innersocket is None
                || kernel_shutdown_errno == 0) ==> r == 0 && (how != SHUT_RDWR ==> (final(self).fdtable@[fd as int] matches Some(FileDescriptor::Socket(d2)) && d2.handle.state
                == shutdown_state(d.handle.state, how))) && (how == SHUT_RDWR ==> final(self).fdtable@[fd as int] is None)))),
    {
        if how == SHUT_RD || how == SHUT_WR || how == SHUT_RDWR {
            self._cleanup_socket(fd, how, kernel_shutdown_errno)
        } else {
            syscall_error(EINVAL)
        }
    }

    /// Read one socket option from the stored state: levels and option
    /// names outside the supported set are refused, `SO_ACCEPTCONN`
    /// reflects the listening state, and `SO_ERROR` reads the pending
    /// error once.
    pub fn getsockopt_syscall(&mut self, fd: i32, level: i32, optname: i32, optval: &mut i32) -> (
        r: i32)
        requires
            cage_wf(*old(self)),
        ensures
            cage_wf(*final(self)),
            !(0 <= fd < old(self).fdtable@.len() && old(self).fdtable@[fd as int] is Some) ==> r
                == -(EBADF as i32),
            (0 <= fd < old(self).fdtable@.len() && (old(self).fdtable@[fd as int] matches Some(e)
                && !(e is Socket))) ==> r == -(ENOTSOCK as i32),
            (0 <= fd < old(self).fdtable@.len() ==> (old(self).fdtable@[fd as int] matches Some(
                FileDescriptor::Socket(d),
            ) ==> getsockopt_post(d, level, optname, *old(optval), *final(optval), r))),
            final(self).fs == old(self).fs,
            final(self).net == old(self).net,
            final(self).pipes == old(self).pipes,
            (0 <= fd < old(self).fdtable@.len() ==> (old(self).fdtable@[fd as int] matches Some(
                FileDescriptor::Socket(d),
            ) ==> (final(self).fdtable@[fd as int] matches Some(FileDescriptor::Socket(d2))
                && d2.handle == (if level == SOL_SOCKET && optname == SO_ERROR {
                SocketHandle { errno: 0, ..d.handle }
            } else {
                d.handle
            })))),
    {
        match self.take_fd(fd) {
            None => {
                proof {
                    if 0 <= fd < old(self).fdtable@.len() {
                        assert(self.fdtable@ =~= old(self).fdtable@);
                    }
                }
                syscall_error(EBADF)
            },
            Some(FileDescriptor::Socket(mut desc)) => {
                let r: i32 = if level == SOL_UDP {
                    syscall_error(EOPNOTSUPP)
                } else if level == SOL_TCP {
                    if optname == TCP_NODELAY {
                        let optbit = 1i32 << TCP_NODELAY;
                        if desc.handle.tcp_options & optbit == optbit {
                            *optval = 1;
                        } else {
                            *optval = 0;
                        }
                        0
                    } else {
                        syscall_error(EOPNOTSUPP)
                    }
                } else if level == SOL_SOCKET {
                    if optname == SO_ACCEPTCONN {
                        if desc.handle.state == ConnState::LISTEN {
                            *optval = 1;
                        } else {
                            *optval = 0;
                        }
                        0
                    } else if optname == SO_LINGER || optname == SO_KEEPALIVE || optname
                        == SO_SNDLOWAT || optname == SO_RCVLOWAT || optname == SO_REUSEPORT
                        || optname == SO_REUSEADDR {
                        let optbit = 1i32 << optname;
                        if desc.handle.socket_options & optbit == optbit {
                            *optval = 1;
                        } else {
                            *optval = 0;
                        }
                        0
                    } else if optname == SO_SNDBUF {
                        *optval = desc.handle.sndbuf;
                        0
                    } else if optname == SO_RCVBUF {
                        *optval = desc.handle.rcvbuf;
                        0
                    } else if optname == SO_TYPE {
                        *optval = desc.handle.socktype;
                        0
                    } else if optname == SO_OOBINLINE {
                        *optval = 1;
                        0
                    } else if optname == SO_ERROR {
                        *optval = desc.handle.errno;
                        desc.handle.errno = 0;
                        0
                    } else {
                        syscall_error(EOPNOTSUPP)
                    }
                } else {
                    syscall_error(EOPNOTSUPP)
                };
                self.put_fd(fd, FileDescriptor::Socket(desc));
                proof {
                    assert(cage_wf(*self)) by {
                        assert forall|j: int|
                            0 <= j < self.fdtable@.len() implies ((#[trigger] self.fdtable@[j])
                            matches Some(f) ==> crate::cage::fd_wf(f, self.pipes@.len())) by {
                            if j != fd {
                                assert(self.fdtable@[j] == old(self).fdtable@[j]);
                            } else {
                                assert(crate::cage::fd_wf(
                                    old(self).fdtable@[fd as int]->Some_0,
                                    old(self).pipes@.len(),
                                ));
                            }
                        }
                    }
                }
                r
            },
            Some(other) => {
                self.put_fd(fd, other);
                proof {
                    assert(self.fdtable@ =~= old(self).fdtable@);
                }
                syscall_error(ENOTSOCK)
            },
        }
    }

    /// Write one socket option: read-only names refuse with `ENOPROTOOPT`,
    /// stored binary options flip their bit, buffer sizes are recorded,
    /// and a change to a kernel-visible option surfaces the kernel's
    /// verdict when a kernel socket exists.
    pub fn setsockopt_syscall(
        &mut self,
        fd: i32,
        level: i32,
        optname: i32,
        optval: i32,
        kernel_set_errno: i32,
    ) -> (r: i32)
        requires
            cage_wf(*old(self)),
            0 <= kernel_set_errno <= 0x10000,
        ensures
            cage_wf(*final(self)),
            !(0 <= fd < old(self).fdtable@.len() && old(self).fdtable@[fd as int] is Some) ==> r
                == -(EBADF as i32),
            (0 <= fd < old(self).fdtable@.len() && (old(self).fdtable@[fd as int] matches Some(e)
                && !(e is Socket))) ==> r == -(ENOTSOCK as i32),
            (0 <= fd < old(self).fdtable@.len() ==> (old(self).fdtable@[fd as int] matches Some(
                FileDescriptor::Socket(d),
            ) ==> (final(self).fdtable@[fd as int] matches Some(FileDescriptor::Socket(d2))
                && setsockopt_post(d, d2, level, optname, optval, kernel_set_errno, r)))),
    {
        match self.take_fd(fd) {
            None => {
                proof {
                    if 0 <= fd < old(self).fdtable@.len() {
                        assert(self.fdtable@ =~= old(self).fdtable@);
                    }
                }
                syscall_error(EBADF)
            },
            Some(FileDescriptor::Socket(mut desc)) => {
                let r: i32 = if level == SOL_UDP {
                    syscall_error(EOPNOTSUPP)
                } else if level == SOL_TCP {
                    if optname == TCP_NODELAY {
                        let optbit = 1i32 << TCP_NODELAY;
                        let mut newoptions = desc.handle.tcp_options;
                        if optval != 0 {
                            newoptions = newoptions | optbit;
                        } else {
                            newoptions = newoptions & !optbit;
                        }
                        if newoptions != desc.handle.tcp_options
                            && desc.handle.innersocket.is_some() && kernel_set_errno != 0 {
                            -kernel_set_errno
                        } else {
                            desc.handle.tcp_options = newoptions;
                            0
                        }
                    } else {
                        syscall_error(EOPNOTSUPP)
                    }
                } else if level == SOL_SOCKET {
                    if optname == SO_ACCEPTCONN || optname == SO_TYPE || optname == SO_SNDLOWAT
                        || optname == SO_RCVLOWAT {
                        syscall_error(ENOPROTOOPT)
                    } else if optname == SO_LINGER || optname == SO_KEEPALIVE {
                        let optbit = 1i32 << optname;
                        if optval == 0 {
                            desc.handle.socket_options = desc.handle.socket_options & !optbit;
                        } else {
                            desc.handle.socket_options = desc.handle.socket_options | optbit;
                        }
                        0
                    } else if optname == SO_REUSEPORT || optname == SO_REUSEADDR {
                        let optbit = 1i32 << optname;
                        let mut newoptions = desc.handle.socket_options;
                        if optval != 0 {
                            newoptions = newoptions | optbit;
                        } else {
                            newoptions = newoptions & !optbit;
                        }
                        if newoptions != desc.handle.socket_options
                            && desc.handle.innersocket.is_some() && kernel_set_errno != 0 {
                            -kernel_set_errno
                        } else {
                            desc.handle.socket_options = newoptions;
                            0
                        }
                    } else if optname == SO_SNDBUF {
                        desc.handle.sndbuf = optval;
                        0
                    } else if optname == SO_RCVBUF {
                        desc.handle.rcvbuf = optval;
                        0
                    } else if optname == SO_OOBINLINE {
                        if optval != 1 {
                            syscall_error(EOPNOTSUPP)
                        } else {
                            0
                        }
                    } else {
                        syscall_error(EOPNOTSUPP)
                    }
                } else {
                    syscall_error(EOPNOTSUPP)
                };
                self.put_fd(fd, FileDescriptor::Socket(desc));
                proof {
                    assert(cage_wf(*self)) by {
                        assert forall|j: int|
                            0 <= j < self.fdtable@.len() implies ((#[trigger] self.fdtable@[j])
                            matches Some(f) ==> crate::cage::fd_wf(f, self.pipes@.len())) by {
                            if j != fd {
                                assert(self.fdtable@[j] == old(self).fdtable@[j]);
                            } else {
                                assert(crate::cage::fd_wf(
                                    old(self).fdtable@[fd as int]->Some_0,
                                    old(self).pipes@.len(),
                                ));
                            }
                        }
                    }
                }
                r
            },
            Some(other) => {
                self.put_fd(fd, other);
                proof {
                    assert(self.fdtable@ =~= old(self).fdtable@);
                }
                syscall_error(ENOTSOCK)
            },
        }
    }

    /// The peer's address, for a connected socket.
    pub fn getpeername_syscall(&mut self, fd: i32, ret_addr: &mut GenSockaddr) -> (r: i32)
        requires
            cage_wf(*old(self)),
        ensures
            cage_wf(*final(self)),
            *final(self) == *old(self) || final(self).fdtable@ == old(self).fdtable@,
            !(0 <= fd < old(self).fdtable@.len() && old(self).fdtable@[fd as int] is Some) ==> r
                == -(EBADF as i32) && *final(ret_addr) == *old(ret_addr),
            (0 <= fd < old(self).fdtable@.len() && (old(self).fdtable@[fd as int] matches Some(e)
                && !(e is Socket))) ==> r == -(ENOTSOCK as i32),
            (0 <= fd < old(self).fdtable@.len() ==> (old(self).fdtable@[fd as int] matches Some(
                FileDescriptor::Socket(d),
            ) ==> {
                &&& (d.handle.remoteaddr is None ==> r == -(ENOTCONN as i32)
                    && *final(ret_addr) == *old(ret_addr))
                &&& (d.handle.remoteaddr matches Some(ra) ==> r == 0 && final(ret_addr)@ == ra@)
            })),
    {
        match self.take_fd(fd) {
            None => {
                proof {
                    if 0 <= fd < old(self).fdtable@.len() {
                        assert(self.fdtable@ =~= old(self).fdtable@);
                    }
                }
                syscall_error(EBADF)
            },
            Some(FileDescriptor::Socket(desc)) => {
                let r: i32 = match &desc.handle.remoteaddr {
                    None => syscall_error(ENOTCONN),
                    Some(ra) => {
                        *ret_addr = clone_gensockaddr(ra);
                        0
                    },
                };
                self.put_fd(fd, FileDescriptor::Socket(desc));
                proof {
                    assert(self.fdtable@ =~= old(self).fdtable@);
                    assert(cage_wf(*self)) by {
                        assert forall|j: int|
                            0 <= j < self.fdtable@.len() implies ((#[trigger] self.fdtable@[j])
                            matches Some(f) ==> crate::cage::fd_wf(f, self.pipes@.len())) by {
                            assert(self.fdtable@[j] == old(self).fdtable@[j]);
                        }
                    }
                }
                r
            },
            Some(other) => {
                self.put_fd(fd, other);
                proof {
                    assert(self.fdtable@ =~= old(self).fdtable@);
                }
                syscall_error(ENOTSOCK)
            },
        }
    }

    /// The socket's own address: the bound one, or the domain's wildcard
    /// when nothing is bound yet.
    pub fn getsockname_syscall(&mut self, fd: i32, ret_addr: &mut GenSockaddr) -> (r: i32)
        requires
            cage_wf(*old(self)),
        ensures
            cage_wf(*final(self)),
            final(self).fdtable@ == old(self).fdtable@,
            !(0 <= fd < old(self).fdtable@.len() && old(self).fdtable@[fd as int] is Some) ==> r
                == -(EBADF as i32) && *final(ret_addr) == *old(ret_addr),
            (0 <= fd < old(self).fdtable@.len() && (old(self).fdtable@[fd as int] matches Some(e)
                && !(e is Socket))) ==> r == -(ENOTSOCK as i32),
            (0 <= fd < old(self).fdtable@.len() ==> (old(self).fdtable@[fd as int] matches Some(
                FileDescriptor::Socket(d),
            ) ==> (d.handle.localaddr matches Some(la) ==> r == 0 && final(ret_addr)@ == la@))),
            (0 <= fd < old(self).fdtable@.len() ==> (old(self).fdtable@[fd as int] matches Some(
                FileDescriptor::Socket(d),
            ) ==> (d.handle.localaddr is None ==> r == 0 && final(ret_addr)@ == (if
            d.handle.domain == AF_UNIX {
                GenSockaddrV::Unix(SockaddrUnixV { family: d.handle.domain as u16, path: Seq::<
                    u8,
                >::empty() })
            } else if d.handle.domain == AF_INET {
                GenSockaddrV::V4(SockaddrV4 { family: AF_INET as u16, port: 0, addr: 0 })
            } else {
                GenSockaddrV::V6(SockaddrV6 { family: AF_INET6 as u16, port: 0, addr: 0 })
            })))),
    {
        match self.take_fd(fd) {
            None => {
                proof {
                    if 0 <= fd < old(self).fdtable@.len() {
                        assert(self.fdtable@ =~= old(self).fdtable@);
                    }
                }
                syscall_error(EBADF)
            },
            Some(FileDescriptor::Socket(desc)) => {
                let r: i32 = match &desc.handle.localaddr {
                    Some(la) => {
                        *ret_addr = clone_gensockaddr(la);
                        0
                    },
                    None => {
                        if desc.handle.domain == AF_UNIX {
                            let empty: Vec<u8> = Vec::new();
                            *ret_addr = new_sockaddr_unix(desc.handle.domain as u16, &empty);
                            0
                        } else if desc.handle.domain == AF_INET {
                            *ret_addr = GenSockaddr::V4(
                                SockaddrV4 { family: AF_INET as u16, port: 0, addr: 0 },
                            );
                            0
                        } else {
                            *ret_addr = GenSockaddr::V6(
                                SockaddrV6 { family: AF_INET6 as u16, port: 0, addr: 0 },
                            );
                            0
                        }
                    },
                };
                self.put_fd(fd, FileDescriptor::Socket(desc));
                proof {
                    assert(self.fdtable@ =~= old(self).fdtable@);
                    assert(cage_wf(*self)) by {
                        assert forall|j: int|
                            0 <= j < self.fdtable@.len() implies ((#[trigger] self.fdtable@[j])
                            matches Some(f) ==> crate::cage::fd_wf(f, self.pipes@.len())) by {
                            assert(self.fdtable@[j] == old(self).fdtable@[j]);
                        }
                    }
                }
                r
            },
            Some(other) => {
                self.put_fd(fd, other);
                proof {
                    assert(self.fdtable@ =~= old(self).fdtable@);
                }
                syscall_error(ENOTSOCK)
            },
        }
    }
}

/// What getsockopt promises for one socket: which levels and names
/// succeed, and the value each one reads.
pub open spec fn getsockopt_post(
    d: SocketDesc,
    level: i32,
    optname: i32,
    optval0: i32,
    optval1: i32,
    r: i32,
) -> bool {
    &&& (level == SOL_UDP ==> r == -(EOPNOTSUPP as i32))
    &&& (level == SOL_TCP && optname == TCP_NODELAY ==> r == 0 && optval1 == (if d
        .handle.tcp_options & (1i32 << TCP_NODELAY) == (1i32 << TCP_NODELAY) {
        1i32
    } else {
        0i32
    }))
    &&& (level == SOL_TCP && optname != TCP_NODELAY ==> r == -(EOPNOTSUPP as i32))
    &&& (level == SOL_SOCKET && optname == SO_ACCEPTCONN ==> r == 0 && optval1 == (if d
        .handle.state == ConnState::LISTEN {
        1i32
    } else {
        0i32
    }))
    &&& (level == SOL_SOCKET && (optname == SO_LINGER || optname == SO_KEEPALIVE || optname
        == SO_SNDLOWAT || optname == SO_RCVLOWAT || optname == SO_REUSEPORT || optname
        == SO_REUSEADDR) ==> r == 0 && optval1 == (if d.handle.socket_options & (1i32 << optname)
        == (1i32 << optname) {
        1i32
    } else {
        0i32
    }))
    &&& (level == SOL_SOCKET && optname == SO_SNDBUF ==> r == 0 && optval1 == d.handle.sndbuf)
    &&& (level == SOL_SOCKET && optname == SO_RCVBUF ==> r == 0 && optval1 == d.handle.rcvbuf)
    &&& (level == SOL_SOCKET && optname == SO_TYPE ==> r == 0 && optval1 == d.handle.socktype)
    &&& (level == SOL_SOCKET && optname == SO_OOBINLINE ==> r == 0 && optval1 == 1)
    &&& (level == SOL_SOCKET && optname == SO_ERROR ==> r == 0 && optval1 == d.handle.errno)
    &&& (level != SOL_UDP && level != SOL_TCP && level != SOL_SOCKET ==> r == -(
    EOPNOTSUPP as i32))
}

/// What setsockopt promises for one socket: which names are read-only,
/// which bits change, and when the kernel's verdict is surfaced.
pub open spec fn setsockopt_post(
    d: SocketDesc,
    d2: SocketDesc,
    level: i32,
    optname: i32,
    optval: i32,
    kernel_set_errno: i32,
    r: i32,
) -> bool {
    &&& (level == SOL_UDP ==> r == -(EOPNOTSUPP as i32) && d2.handle == d.handle)
    &&& (level == SOL_SOCKET && (optname == SO_ACCEPTCONN || optname == SO_TYPE || optname
        == SO_SNDLOWAT || optname == SO_RCVLOWAT) ==> r == -(ENOPROTOOPT as i32) && d2.handle
        == d.handle)
    &&& (level == SOL_SOCKET && (optname == SO_LINGER || optname == SO_KEEPALIVE) ==> r == 0
        && d2.handle.socket_options == (if optval == 0 {
        d.handle.socket_options & !(1i32 << optname)
    } else {
        d.handle.socket_options | (1i32 << optname)
    }))
    &&& (level == SOL_SOCKET && (optname == SO_REUSEPORT || optname == SO_REUSEADDR) ==> {
        let newoptions = if optval == 0 {
            d.handle.socket_options & !(1i32 << optname)
        } else {
            d.handle.socket_options | (1i32 << optname)
        };
        &&& ((r == 0) <==> (newoptions == d.handle.socket_options || d.handle.innersocket
            is None || kernel_set_errno == 0))
        &&& (r == 0 ==> d2.handle.socket_options == newoptions)
        &&& (r != 0 ==> r == -kernel_set_errno && d2.handle == d.handle)
    })
    &&& (level == SOL_SOCKET && optname == SO_SNDBUF ==> r == 0 && d2.handle.sndbuf == optval)
    &&& (level == SOL_SOCKET && optname == SO_RCVBUF ==> r == 0 && d2.handle.rcvbuf == optval)
    &&& (level == SOL_SOCKET && optname == SO_OOBINLINE && optval != 1 ==> r == -(
    EOPNOTSUPP as i32))
    &&& (level == SOL_TCP && optname == TCP_NODELAY ==> {
        let newoptions = if optval == 0 {
            d.handle.tcp_options & !(1i32 << TCP_NODELAY)
        } else {
            d.handle.tcp_options | (1i32 << TCP_NODELAY)
        };
        &&& ((r == 0) <==> (newoptions == d.handle.tcp_options || d.handle.innersocket is None
            || kernel_set_errno == 0))
        &&& (r == 0 ==> d2.handle.tcp_options == newoptions)
        &&& (r != 0 ==> r == -kernel_set_errno && d2.handle == d.handle)
    })
    &&& (level == SOL_TCP && optname != TCP_NODELAY ==> r == -(EOPNOTSUPP as i32))
    &&& (level != SOL_UDP && level != SOL_TCP && level != SOL_SOCKET ==> r == -(
    EOPNOTSUPP as i32))
}

} // verus!

verus! {

/// Unbind a Unix-domain socket path: drop the name from its parent
/// directory, drop the socket inode, and retire the path from the
/// bound-path set.
pub fn remove_domain_sock(cage: &mut Cage, truepath: &Path)
    requires
        fs_wf(old(cage).fs@),
        truepath@.comps.len() > 0,
        ({
            let t = tbl_v(old(cage).fs.inodetable@);
            let w = walk(t, Some(ROOTDIRECTORYINODE), None, truepath@.comps);
            &&& w.0 is Some
            &&& w.1 is Some
            &&& w.0->Some_0 != w.1->Some_0
            &&& tbl_lookup(t, w.0->Some_0) is Some
            &&& (tbl_lookup(t, w.1->Some_0) matches Some(InodeV::Dir(d)) && dict_lookup(
                d.dict,
                truepath@.comps.last(),
            ) == Some(w.0->Some_0))
        }),
    ensures
        fs_wf(final(cage).fs@),
        final(cage).fdtable == old(cage).fdtable,
        final(cage).pipes == old(cage).pipes,
        final(cage).net.domsock_accept_table == old(cage).net.domsock_accept_table,
        ({
            let t = tbl_v(old(cage).fs.inodetable@);
            let w = walk(t, Some(ROOTDIRECTORYINODE), None, truepath@.comps);
            let n = w.0->Some_0;
            let par = w.1->Some_0;
            &&& tbl_lookup(tbl_v(final(cage).fs.inodetable@), n) is None
            &&& (tbl_lookup(tbl_v(final(cage).fs.inodetable@), par) matches Some(InodeV::Dir(d2))
                && dict_lookup(d2.dict, truepath@.comps.last()) is None)
            &&& (tbl_lookup(t, par) matches Some(InodeV::Dir(dpre)) && exists|k: int|
                0 <= k < dpre.dict.len() && #[trigger] dpre.dict[k].name == truepath@.comps.last()
                    && tbl_lookup(tbl_v(final(cage).fs.inodetable@), par) == Some(
                    InodeV::Dir(
                        DirectoryInodeV {
                            dict: dpre.dict.remove(k),
                            linkcount: (dpre.linkcount - 1) as u32,
                            ..dpre
                        },
                    ),
                ))
            &&& (forall|m: usize|
                m != n && m != par ==> #[trigger] tbl_lookup(tbl_v(final(cage).fs.inodetable@), m)
                    == tbl_lookup(t, m))
        }),
        ({
            let dp0 = old(cage).net.domsock_paths@;
            let dp1 = final(cage).net.domsock_paths@;
            if dom_paths_has(dp0, truepath@) {
                exists|i: int|
                    0 <= i < dp0.len() && #[trigger] dp0[i]@ == truepath@ && dp1 == dp0.remove(i)
            } else {
                dp1 == dp0
            }
        }),
{
    let (found, parent) = metawalkandparent(truepath, &cage.fs);
    let inodenum = match found {
        Some(n) => n,
        None => {
            proof {
                assert(false);
            }
            vstd::pervasive::unreached()
        },
    };
    let parentinodenum = match parent {
        Some(p) => p,
        None => {
            proof {
                assert(false);
            }
            vstd::pervasive::unreached()
        },
    };
    let ghost t0 = tbl_v(cage.fs.inodetable@);
    // remove the name from the parent directory
    let paridx = match tbl_find(&cage.fs.inodetable, parentinodenum) {
        Some(i) => i,
        None => {
            proof {
                assert(false);
            }
            vstd::pervasive::unreached()
        },
    };
    let ghost oldrow = t0[paridx as int];
    let mut parpair = cage.fs.inodetable.remove(paridx);
    proof {
        assert(parpair@ == oldrow);
    }
    let filename = crate::fs::clone_bytes(&truepath.comps[truepath.comps.len() - 1]);
    let ghost mut gk: int = 0;
    match &mut parpair.inode {
        Inode::Dir(dir) => {
            let ghost d0 = dict_v(dir.filename_to_inode_dict@);
            proof {
                assert(inode_wf(InodeV::Dir(dir@)));
            }
            match crate::fs::dict_find(&dir.filename_to_inode_dict, &filename) {
                Some(k) => {
                    dir.filename_to_inode_dict.remove(k);
                    dir.linkcount = dir.linkcount - 1;
                    proof {
                        gk = k as int;
                        let d1 = dict_v(dir.filename_to_inode_dict@);
                        assert(d1 =~= d0.remove(k as int));
                        crate::fs::lemma_dict_lookup_remove(
                            d0,
                            truepath@.comps.last(),
                            k as int,
                            truepath@.comps.last(),
                        );
                        assert forall|a: int, b: int|
                            0 <= a < b < d1.len() implies d1[a].name != d1[b].name by {
                            if a < k && b < k {
                                assert(d1[a] == d0[a] && d1[b] == d0[b]);
                            } else if a < k {
                                assert(d1[a] == d0[a] && d1[b] == d0[b + 1]);
                            } else {
                                assert(d1[a] == d0[a + 1] && d1[b] == d0[b + 1]);
                            }
                        }
                        assert forall|e: int|
                            0 <= e < d1.len() implies (#[trigger] d1[e]).name.len()
                            <= crate::fs::NAME_CAP as nat by {
                            if e < k {
                                assert(d1[e] == d0[e]);
                            } else {
                                assert(d1[e] == d0[e + 1]);
                            }
                        }
                        assert(inode_wf(InodeV::Dir(dir@)));
                    }
                },
                None => {
                    proof {
                        assert(false);
                    }
                },
            }
        },
        _ => {
            proof {
                assert(false);
            }
        },
    }
    cage.fs.inodetable.insert(paridx, parpair);
    proof {
        let p = cage.fs.inodetable@[paridx as int]@;
        assert(tbl_v(cage.fs.inodetable@) =~= t0.update(paridx as int, p));
        assert forall|m: usize| #[trigger]
            tbl_lookup(tbl_v(cage.fs.inodetable@), m) == (if m == parentinodenum {
                Some(p.inode)
            } else {
                tbl_lookup(t0, m)
            }) by {
            crate::fs::lemma_tbl_lookup_update(t0, parentinodenum, paridx as int, p, m);
        }
        let dpre = oldrow.inode->Dir_0;
        assert(tbl_lookup(t0, parentinodenum) == Some(oldrow.inode));
        assert(0 <= gk < dpre.dict.len() && dpre.dict[gk].name == truepath@.comps.last());
        assert(p.inode == InodeV::Dir(
            DirectoryInodeV {
                dict: dpre.dict.remove(gk),
                linkcount: (dpre.linkcount - 1) as u32,
                ..dpre
            },
        ));
    }
    let ghost t1 = tbl_v(cage.fs.inodetable@);
    // drop the socket inode itself
    match tbl_find(&cage.fs.inodetable, inodenum) {
        Some(i) => {
            cage.fs.inodetable.remove(i);
            proof {
                assert(tbl_v(cage.fs.inodetable@) =~= t1.remove(i as int));
                assert(crate::fs::tbl_unique(t1)) by {
                    assert(forall|j: int| 0 <= j < t1.len() ==> t1[j].num == t0[j].num);
                }
                assert forall|m: usize| #[trigger]
                    tbl_lookup(tbl_v(cage.fs.inodetable@), m) == (if m == inodenum {
                        None::<InodeV>
                    } else {
                        tbl_lookup(t1, m)
                    }) by {
                    crate::fs::lemma_tbl_lookup_remove(t1, inodenum, i as int, m);
                }
                assert(fs_wf(cage.fs@)) by {
                    assert forall|kk: int|
                        0 <= kk < tbl_v(cage.fs.inodetable@).len() implies (#[trigger] tbl_v(
                        cage.fs.inodetable@,
                    )[kk]).num < cage.fs.nextinode && inode_wf(
                        tbl_v(cage.fs.inodetable@)[kk].inode,
                    ) by {
                        if kk < i {
                            assert(tbl_v(cage.fs.inodetable@)[kk] == t1[kk]);
                            if kk != paridx {
                                assert(t1[kk] == t0[kk]);
                            }
                        } else {
                            assert(tbl_v(cage.fs.inodetable@)[kk] == t1[kk + 1]);
                            if kk + 1 != paridx {
                                assert(t1[kk + 1] == t0[kk + 1]);
                            }
                        }
                    }
                    assert(crate::fs::tbl_unique(tbl_v(cage.fs.inodetable@))) by {
                        assert(forall|j: int|
                            0 <= j < tbl_v(cage.fs.inodetable@).len() ==> tbl_v(
                                cage.fs.inodetable@,
                            )[j] == (if j < i {
                                t1[j]
                            } else {
                                t1[j + 1]
                            }));
                    }
                }
            }
        },
        None => {
            proof {
                assert(false);
            }
        },
    }
    // retire the bound path
    let mut pi: usize = 0;
    let mut found_at: Option<usize> = None;
    while pi < cage.net.domsock_paths.len()
        invariant
            pi <= cage.net.domsock_paths@.len(),
            match found_at {
                Some(k2) => k2 < cage.net.domsock_paths@.len() && cage.net.domsock_paths@[
                    k2 as int]@ == truepath@,
                None => forall|j: int| 0 <= j < pi ==> cage.net.domsock_paths@[j]@ != truepath@,
            },
        decreases cage.net.domsock_paths@.len() - pi,
    {
        if found_at.is_none() && crate::paths::path_eq(&cage.net.domsock_paths[pi], truepath) {
            found_at = Some(pi);
        }
        pi = pi + 1;
    }
    match found_at {
        Some(k) => {
            cage.net.domsock_paths.remove(k);
        },
        None => {
            proof {
                assert(!dom_paths_has(old(cage).net.domsock_paths@, truepath@));
            }
        },
    }
}

} // verus!

//! Socket addresses, socket state, and the process-wide socket registry:
//! port reservations, listening set, pending inet connections, and the
//! Unix-domain rendezvous tables.

use crate::errnos::EADDRINUSE;
use crate::paths::{path_eq, Path, PathV};
use crate::types::EpollEvent;
use vstd::prelude::*;

verus! {

// Address families and socket kinds.
pub const AF_UNIX: i32 = 1;
pub const AF_INET: i32 = 2;
pub const AF_INET6: i32 = 30;
pub const PF_UNIX: i32 = 1;
pub const PF_INET: i32 = 2;
pub const PF_INET6: i32 = 30;

pub const SOCK_STREAM: i32 = 1;
pub const SOCK_DGRAM: i32 = 2;
pub const SOCK_NONBLOCK: i32 = 0o4000;
pub const SOCK_CLOEXEC: i32 = 0o2000000;

pub const O_NONBLOCK: i32 = 0o4000;
pub const O_CLOEXEC: i32 = 0o2000000;

pub const IPPROTO_TCP: i32 = 6;
pub const IPPROTO_UDP: i32 = 17;

pub const MSG_NOSIGNAL: i32 = 0x4000;
pub const MSG_PEEK: i32 = 2;

pub const SHUT_RD: i32 = 0;
pub const SHUT_WR: i32 = 1;
pub const SHUT_RDWR: i32 = 2;

pub const SOL_SOCKET: i32 = 1;
pub const SOL_TCP: i32 = 6;
pub const SOL_UDP: i32 = 17;

pub const SO_REUSEADDR: i32 = 2;
pub const SO_TYPE: i32 = 3;
pub const SO_ERROR: i32 = 4;
pub const SO_SNDBUF: i32 = 7;
pub const SO_RCVBUF: i32 = 8;
pub const SO_KEEPALIVE: i32 = 9;
pub const SO_OOBINLINE: i32 = 10;
pub const SO_LINGER: i32 = 13;
pub const SO_REUSEPORT: i32 = 15;
pub const SO_RCVLOWAT: i32 = 18;
pub const SO_SNDLOWAT: i32 = 19;
pub const SO_ACCEPTCONN: i32 = 30;
pub const TCP_NODELAY: i32 = 1;

pub const POLLIN: i16 = 1;
pub const POLLOUT: i16 = 4;
pub const POLLERR: i16 = 8;

pub const EPOLLIN: u32 = 1;
pub const EPOLLOUT: u32 = 4;
pub const EPOLLERR: u32 = 8;
pub const EPOLL_CTL_ADD: i32 = 1;
pub const EPOLL_CTL_DEL: i32 = 2;
pub const EPOLL_CTL_MOD: i32 = 3;

pub const STARTINGFD: i32 = 0;
pub const FD_SET_MAX_FD: i32 = 1024;

pub const EPHEMERAL_PORT_START: u16 = 32768;
pub const EPHEMERAL_PORT_END: u16 = 60999;

/// `mux_key` transport markers.
pub const TCPPORT: bool = true;
pub const UDPPORT: bool = false;

// ---------------------------------------------------------------------------
// Addresses.
// ---------------------------------------------------------------------------

#[derive(Copy, Clone, PartialEq, Eq, Structural, Debug)]
pub enum GenIpaddr {
    V4(u32),
    V6(u128),
}

impl GenIpaddr {
    pub open spec fn spec_is_unspecified(self) -> bool {
        match self {
            GenIpaddr::V4(a) => a == 0,
            GenIpaddr::V6(a) => a == 0,
        }
    }

    pub fn is_unspecified(&self) -> (r: bool)
        ensures
            r == self.spec_is_unspecified(),
    {
        match self {
            GenIpaddr::V4(a) => *a == 0,
            GenIpaddr::V6(a) => *a == 0,
        }
    }
}

#[derive(Debug)]
pub struct SockaddrUnix {
    pub family: u16,
    pub path: Vec<u8>,
}

#[derive(Copy, Clone, PartialEq, Eq, Structural, Debug)]
pub struct SockaddrV4 {
    pub family: u16,
    pub port: u16,
    pub addr: u32,
}

#[derive(Copy, Clone, PartialEq, Eq, Structural, Debug)]
pub struct SockaddrV6 {
    pub family: u16,
    pub port: u16,
    pub addr: u128,
}

#[derive(Debug)]
pub enum GenSockaddr {
    Unix(SockaddrUnix),
    V4(SockaddrV4),
    V6(SockaddrV6),
}

pub ghost struct SockaddrUnixV {
    pub family: u16,
    pub path: Seq<u8>,
}

pub ghost enum GenSockaddrV {
    Unix(SockaddrUnixV),
    V4(SockaddrV4),
    V6(SockaddrV6),
}

impl View for GenSockaddr {
    type V = GenSockaddrV;

    open spec fn view(&self) -> GenSockaddrV {
        match self {
            GenSockaddr::Unix(u) => GenSockaddrV::Unix(
                SockaddrUnixV { family: u.family, path: u.path@ },
            ),
            GenSockaddr::V4(v) => GenSockaddrV::V4(*v),
            GenSockaddr::V6(v) => GenSockaddrV::V6(*v),
        }
    }
}

/// The view of an optional address.
pub open spec fn oav(o: Option<GenSockaddr>) -> Option<GenSockaddrV> {
    match o {
        Some(a) => Some(a@),
        None => None,
    }
}

impl GenSockaddr {
    pub open spec fn spec_family(self) -> u16 {
        match self@ {
            GenSockaddrV::Unix(u) => u.family,
            GenSockaddrV::V4(v) => v.family,
            GenSockaddrV::V6(v) => v.family,
        }
    }

    pub fn get_family(&self) -> (r: u16)
        ensures
            r == self.spec_family(),
    {
        match self {
            GenSockaddr::Unix(u) => u.family,
            GenSockaddr::V4(v) => v.family,
            GenSockaddr::V6(v) => v.family,
        }
    }

    pub open spec fn spec_port(self) -> u16 {
        match self@ {
            GenSockaddrV::Unix(_) => 0,
            GenSockaddrV::V4(v) => v.port,
            GenSockaddrV::V6(v) => v.port,
        }
    }

    pub fn port(&self) -> (r: u16)
        ensures
            r == self.spec_port(),
    {
        match self {
            GenSockaddr::Unix(_) => 0,
            GenSockaddr::V4(v) => v.port,
            GenSockaddr::V6(v) => v.port,
        }
    }

    pub fn set_port(&mut self, port: u16)
        ensures
            final(self)@ == (match old(self)@ {
                GenSockaddrV::Unix(u) => GenSockaddrV::Unix(u),
                GenSockaddrV::V4(v) => GenSockaddrV::V4(SockaddrV4 { port, ..v }),
                GenSockaddrV::V6(v) => GenSockaddrV::V6(SockaddrV6 { port, ..v }),
            }),
    {
        match self {
            GenSockaddr::Unix(_) => {},
            GenSockaddr::V4(v) => {
                v.port = port;
            },
            GenSockaddr::V6(v) => {
                v.port = port;
            },
        }
    }

    pub open spec fn spec_addr(self) -> GenIpaddr {
        match self@ {
            GenSockaddrV::Unix(_) => GenIpaddr::V4(0),
            GenSockaddrV::V4(v) => GenIpaddr::V4(v.addr),
            GenSockaddrV::V6(v) => GenIpaddr::V6(v.addr),
        }
    }

    pub fn addr(&self) -> (r: GenIpaddr)
        ensures
            r == self.spec_addr(),
    {
        match self {
            GenSockaddr::Unix(_) => GenIpaddr::V4(0),
            GenSockaddr::V4(v) => GenIpaddr::V4(v.addr),
            GenSockaddr::V6(v) => GenIpaddr::V6(v.addr),
        }
    }

    /// The bound path of a Unix-domain address.
    pub fn path(&self) -> (r: &Vec<u8>)
        requires
            self@ is Unix,
        ensures
            r@ == self@->Unix_0.path,
    {
        match self {
            GenSockaddr::Unix(u) => &u.path,
            GenSockaddr::V4(_) => vstd::pervasive::unreached(),
            GenSockaddr::V6(_) => vstd::pervasive::unreached(),
        }
    }
}

pub fn clone_gensockaddr(a: &GenSockaddr) -> (r: GenSockaddr)
    ensures
        r@ == a@,
{
    match a {
        GenSockaddr::Unix(u) => GenSockaddr::Unix(
            SockaddrUnix { family: u.family, path: crate::fs::clone_bytes(&u.path) },
        ),
        GenSockaddr::V4(v) => GenSockaddr::V4(*v),
        GenSockaddr::V6(v) => GenSockaddr::V6(*v),
    }
}

pub fn new_sockaddr_unix(family: u16, path: &Vec<u8>) -> (r: GenSockaddr)
    ensures
        r@ == GenSockaddrV::Unix(SockaddrUnixV { family, path: path@ }),
{
    GenSockaddr::Unix(SockaddrUnix { family, path: crate::fs::clone_bytes(path) })
}

// ---------------------------------------------------------------------------
// Socket state.
// ---------------------------------------------------------------------------

#[derive(Copy, Clone, PartialEq, Eq, Structural, Debug)]
pub enum ConnState {
    NOTCONNECTED,
    CONNECTED,
    CONNRDONLY,
    CONNWRONLY,
    LISTEN,
    INPROGRESS,
}

/// Unix-domain bookkeeping for a handle: the backing socket inode and the
/// pipe pair once connected.
#[derive(Copy, Clone, Debug)]
pub struct UnixSocketInfo {
    pub mode: u32,
    pub sendpipe: Option<usize>,
    pub receivepipe: Option<usize>,
    pub inode: usize,
}

/// One socket, shared state across every file descriptor that refers to it.
#[derive(Debug)]
pub struct SocketHandle {
    pub innersocket: Option<i32>,
    pub socket_options: i32,
    pub tcp_options: i32,
    pub state: ConnState,
    pub protocol: i32,
    pub domain: i32,
    pub last_peek: Vec<u8>,
    pub localaddr: Option<GenSockaddr>,
    pub remoteaddr: Option<GenSockaddr>,
    pub unix_info: Option<UnixSocketInfo>,
    pub socktype: i32,
    pub sndbuf: i32,
    pub rcvbuf: i32,
    pub errno: i32,
}

/// The per-descriptor view of a socket: descriptor flags, the raw kernel
/// descriptor cached for readiness polling (-1 when there is none), and
/// the handle.
#[derive(Debug)]
pub struct SocketDesc {
    pub flags: i32,
    pub domain: i32,
    pub rawfd: i32,
    pub handle: SocketHandle,
}

/// One pending Unix-domain connection, published by `connect` under the
/// listener's bound path and consumed by `accept`; the pipes are already
/// swapped so the acceptor can use them directly.
#[derive(Debug)]
pub struct DomsockTableEntry {
    pub sockaddr: GenSockaddr,
    pub receive_pipe: usize,
    pub send_pipe: usize,
    pub cond_blocking: bool,
}

#[derive(Copy, Clone, PartialEq, Eq, Structural, Debug)]
pub struct MuxKey {
    pub addr: GenIpaddr,
    pub port: u16,
    pub domain: i32,
    pub tcp: bool,
}

pub fn mux_port(addr: GenIpaddr, port: u16, domain: i32, tcp: bool) -> (r: MuxKey)
    ensures
        r == (MuxKey { addr, port, domain, tcp }),
{
    MuxKey { addr, port, domain, tcp }
}

#[derive(Copy, Clone, PartialEq, Eq, Structural, Debug)]
pub struct PortRes {
    pub addr: GenIpaddr,
    pub port: u16,
    pub protocol: i32,
    pub domain: i32,
}

/// One accepted kernel connection waiting for `accept`: the kernel socket
/// and the remote address.
#[derive(Debug)]
pub struct PendingConn {
    pub kernel_fd: i32,
    pub remote: GenSockaddr,
}

#[derive(Debug)]
pub struct PendingEntry {
    pub key: MuxKey,
    pub queue: Vec<PendingConn>,
}

/// The process-wide socket registry.
#[derive(Debug)]
pub struct NetMetadata {
    pub porttable: Vec<PortRes>,
    pub listening_port_set: Vec<MuxKey>,
    pub pending_conn_table: Vec<PendingEntry>,
    pub domsock_paths: Vec<Path>,
    pub domsock_accept_table: Vec<(Path, DomsockTableEntry)>,
    pub next_ephemeral: u16,
    pub ud_id_counter: u64,
}

pub open spec fn port_reserved(
    s: Seq<PortRes>,
    addr: GenIpaddr,
    port: u16,
    protocol: i32,
    domain: i32,
) -> bool {
    exists|i: int|
        0 <= i < s.len() && #[trigger] s[i] == (PortRes { addr, port, protocol, domain })
}

/// Whether some bound Unix-domain path in the list equals `p`.
pub open spec fn dom_paths_has(s: Seq<Path>, p: PathV) -> bool {
    exists|i: int| 0 <= i < s.len() && #[trigger] s[i]@ == p
}

/// The first pending rendezvous under `p`, if any.
pub open spec fn accept_table_index(s: Seq<(Path, DomsockTableEntry)>, p: PathV) -> int
    decreases s.len(),
{
    if s.len() == 0 {
        -1
    } else if s[0].0@ == p {
        0
    } else {
        let r = accept_table_index(s.skip(1), p);
        if r == -1 {
            -1
        } else {
            1 + r
        }
    }
}

pub proof fn lemma_accept_table_index(s: Seq<(Path, DomsockTableEntry)>, p: PathV)
    ensures
        accept_table_index(s, p) == -1 ==> forall|j: int| 0 <= j < s.len() ==> s[j].0@ != p,
        accept_table_index(s, p) != -1 ==> {
            let i = accept_table_index(s, p);
            &&& 0 <= i < s.len()
            &&& s[i].0@ == p
            &&& forall|j: int| 0 <= j < i ==> s[j].0@ != p
        },
    decreases s.len(),
{
    if s.len() > 0 && s[0].0@ != p {
        lemma_accept_table_index(s.skip(1), p);
        let r = accept_table_index(s.skip(1), p);
        if r == -1 {
            assert forall|j: int| 0 <= j < s.len() implies s[j].0@ != p by {
                if j > 0 {
                    assert(s.skip(1)[j - 1].0@ != p);
                }
            }
        } else {
            assert(s[1 + r] == s.skip(1)[r]);
            assert forall|j: int| 0 <= j < 1 + r implies s[j].0@ != p by {
                if j > 0 {
                    assert(s.skip(1)[j - 1].0@ != p);
                }
            }
        }
    }
}

/// The first pending-connection entry for a mux key, or -1.
pub open spec fn pending_index_of(s: Seq<PendingEntry>, key: MuxKey) -> int
    decreases s.len(),
{
    if s.len() == 0 {
        -1
    } else if s[0].key == key {
        0
    } else {
        let r = pending_index_of(s.skip(1), key);
        if r == -1 {
            -1
        } else {
            1 + r
        }
    }
}

pub proof fn lemma_pending_index_of(s: Seq<PendingEntry>, key: MuxKey)
    ensures
        pending_index_of(s, key) == -1 ==> forall|j: int| 0 <= j < s.len() ==> s[j].key != key,
        pending_index_of(s, key) != -1 ==> {
            let i = pending_index_of(s, key);
            &&& 0 <= i < s.len()
            &&& s[i].key == key
            &&& forall|j: int| 0 <= j < i ==> s[j].key != key
        },
    decreases s.len(),
{
    if s.len() > 0 && s[0].key != key {
        lemma_pending_index_of(s.skip(1), key);
        let r = pending_index_of(s.skip(1), key);
        if r == -1 {
            assert forall|j: int| 0 <= j < s.len() implies s[j].key != key by {
                if j > 0 {
                    assert(s.skip(1)[j - 1].key != key);
                }
            }
        } else {
            assert(s[1 + r] == s.skip(1)[r]);
            assert forall|j: int| 0 <= j < 1 + r implies s[j].key != key by {
                if j > 0 {
                    assert(s.skip(1)[j - 1].key != key);
                }
            }
        }
    }
}

/// Whether the ephemeral range still has a free port for this address,
/// protocol and domain.
pub open spec fn ephemeral_available(
    s: Seq<PortRes>,
    addr: GenIpaddr,
    protocol: i32,
    domain: i32,
) -> bool {
    exists|p: u16|
        EPHEMERAL_PORT_START <= p <= EPHEMERAL_PORT_END && !#[trigger] port_reserved(
            s,
            addr,
            p,
            protocol,
            domain,
        )
}

/// Every pipe an accept-table entry refers to exists in the pipe table.
pub open spec fn accept_entries_valid(s: Seq<(Path, DomsockTableEntry)>, npipes: nat) -> bool {
    forall|j: int|
        0 <= j < s.len() ==> (#[trigger] s[j]).1.receive_pipe < npipes && s[j].1.send_pipe
            < npipes
}

impl NetMetadata {
    /// The index of a listening mux key, if registered.
    pub fn listening_find(&self, key: MuxKey) -> (r: Option<usize>)
        ensures
            match r {
                Some(i) => i < self.listening_port_set@.len() && self.listening_port_set@[i as int]
                    == key,
                None => forall|j: int|
                    0 <= j < self.listening_port_set@.len() ==> self.listening_port_set@[j] != key,
            },
    {
        let mut i: usize = 0;
        while i < self.listening_port_set.len()
            invariant
                i <= self.listening_port_set@.len(),
                forall|j: int| 0 <= j < i ==> self.listening_port_set@[j] != key,
            decreases self.listening_port_set@.len() - i,
        {
            if self.listening_port_set[i] == key {
                return Some(i);
            }
            i = i + 1;
        }
        None
    }

    /// The index of the pending-connection queue for a mux key.
    pub fn pending_find(&self, key: MuxKey) -> (r: Option<usize>)
        ensures
            match r {
                Some(i) => i < self.pending_conn_table@.len() && self.pending_conn_table@[
                    i as int].key == key && pending_index_of(self.pending_conn_table@, key)
                    == i,
                None => (forall|j: int|
                    0 <= j < self.pending_conn_table@.len() ==> self.pending_conn_table@[j].key
                        != key) && pending_index_of(self.pending_conn_table@, key) == -1,
            },
    {
        let mut i: usize = 0;
        while i < self.pending_conn_table.len()
            invariant
                i <= self.pending_conn_table@.len(),
                forall|j: int| 0 <= j < i ==> self.pending_conn_table@[j].key != key,
            decreases self.pending_conn_table@.len() - i,
        {
            if self.pending_conn_table[i].key == key {
                proof {
                    lemma_pending_index_of(self.pending_conn_table@, key);
                    let io = pending_index_of(self.pending_conn_table@, key);
                    if io == -1 {
                    } else if io < i {
                        assert(self.pending_conn_table@[io].key == key);
                    } else if io > i {
                        assert(self.pending_conn_table@[i as int].key == key);
                    }
                    assert(io == i);
                }
                return Some(i);
            }
            i = i + 1;
        }
        proof {
            lemma_pending_index_of(self.pending_conn_table@, key);
            let io = pending_index_of(self.pending_conn_table@, key);
            if io != -1 {
                assert(self.pending_conn_table@[io].key == key);
            }
        }
        None
    }

    pub fn new() -> (r: NetMetadata)
        ensures
            r.porttable@.len() == 0,
            r.listening_port_set@.len() == 0,
            r.pending_conn_table@.len() == 0,
            r.domsock_paths@.len() == 0,
            r.domsock_accept_table@.len() == 0,
    {
        NetMetadata {
            porttable: Vec::new(),
            listening_port_set: Vec::new(),
            pending_conn_table: Vec::new(),
            domsock_paths: Vec::new(),
            domsock_accept_table: Vec::new(),
            next_ephemeral: EPHEMERAL_PORT_START,
            ud_id_counter: 0,
        }
    }

    fn port_find(&self, res: PortRes) -> (r: Option<usize>)
        ensures
            match r {
                Some(i) => i < self.porttable@.len() && self.porttable@[i as int] == res,
                None => !port_reserved(self.porttable@, res.addr, res.port, res.protocol,
                res.domain),
            },
    {
        let mut i: usize = 0;
        while i < self.porttable.len()
            invariant
                i <= self.porttable@.len(),
                forall|j: int| 0 <= j < i ==> self.porttable@[j] != res,
            decreases self.porttable@.len() - i,
        {
            if self.porttable[i] == res {
                return Some(i);
            }
            i = i + 1;
        }
        None
    }

    /// Reserve a local port: a requested port is granted when free, or when
    /// already reserved and the caller intends to rebind; a request for
    /// port zero draws a free port from the ephemeral range.
    pub fn _reserve_localport(
        &mut self,
        addr: GenIpaddr,
        port: u16,
        protocol: i32,
        domain: i32,
        rebindability: bool,
    ) -> (r: Result<u16, i32>)
        ensures
            old(self).listening_port_set == final(self).listening_port_set,
            old(self).pending_conn_table == final(self).pending_conn_table,
            old(self).domsock_paths == final(self).domsock_paths,
            old(self).domsock_accept_table == final(self).domsock_accept_table,
            port != 0 ==> match r {
                Ok(p) => p == port && (if port_reserved(
                    old(self).porttable@,
                    addr,
                    port,
                    protocol,
                    domain,
                ) {
                    rebindability && final(self).porttable@ == old(self).porttable@
                } else {
                    final(self).porttable@ == old(self).porttable@.push(
                        PortRes { addr, port, protocol, domain },
                    )
                }),
                Err(e) => e == -(EADDRINUSE as i32) && port_reserved(
                    old(self).porttable@,
                    addr,
                    port,
                    protocol,
                    domain,
                ) && !rebindability && final(self).porttable@ == old(self).porttable@,
            },
            port == 0 ==> match r {
                Ok(p) => EPHEMERAL_PORT_START <= p <= EPHEMERAL_PORT_END && !port_reserved(
                    old(self).porttable@,
                    addr,
                    p,
                    protocol,
                    domain,
                ) && final(self).porttable@ == old(self).porttable@.push(
                    PortRes { addr, port: p, protocol, domain },
                ),
                Err(e) => e == -(EADDRINUSE as i32)
                    && final(self).porttable@ == old(self).porttable@ && !ephemeral_available(
                    old(self).porttable@,
                    addr,
                    protocol,
                    domain,
                ),
            },
    {
        if port != 0 {
            let res = PortRes { addr, port, protocol, domain };
            match self.port_find(res) {
                Some(_) => {
                    proof {
                        assert(port_reserved(self.porttable@, addr, port, protocol, domain));
                    }
                    if rebindability {
                        Ok(port)
                    } else {
                        Err(-EADDRINUSE)
                    }
                },
                None => {
                    self.porttable.push(res);
                    Ok(port)
                },
            }
        } else {
            let mut cand: u16 = EPHEMERAL_PORT_START;
            loop
                invariant
                    port == 0,
                    EPHEMERAL_PORT_START <= cand <= EPHEMERAL_PORT_END + 1,
                    *self == *old(self),
                    forall|p: u16|
                        EPHEMERAL_PORT_START <= p < cand ==> #[trigger] port_reserved(
                            self.porttable@,
                            addr,
                            p,
                            protocol,
                            domain,
                        ),
                decreases EPHEMERAL_PORT_END + 1 - cand,
            {
                if cand > EPHEMERAL_PORT_END {
                    return Err(-EADDRINUSE);
                }
                let res = PortRes { addr, port: cand, protocol, domain };
                match self.port_find(res) {
                    None => {
                        self.porttable.push(res);
                        return Ok(cand);
                    },
                    Some(_) => {
                        cand = cand + 1;
                    },
                }
            }
        }
    }

    /// Release one reservation of the given port, if it is held.
    pub fn _release_localport(&mut self, addr: GenIpaddr, port: u16, protocol: i32, domain: i32) -> (
        r: Result<i32, i32>)
        ensures
            r is Ok,
            old(self).listening_port_set == final(self).listening_port_set,
            old(self).pending_conn_table == final(self).pending_conn_table,
            old(self).domsock_paths == final(self).domsock_paths,
            old(self).domsock_accept_table == final(self).domsock_accept_table,
            !port_reserved(old(self).porttable@, addr, port, protocol, domain)
                ==> final(self).porttable@ == old(self).porttable@,
            port_reserved(old(self).porttable@, addr, port, protocol, domain) ==> exists|i: int|
                0 <= i < old(self).porttable@.len() && old(self).porttable@[i] == (PortRes {
                    addr,
                    port,
                    protocol,
                    domain,
                }) && final(self).porttable@ == old(self).porttable@.remove(i),
    {
        let res = PortRes { addr, port, protocol, domain };
        match self.port_find(res) {
            Some(i) => {
                self.porttable.remove(i);
                Ok(0)
            },
            None => Ok(0),
        }
    }

    /// Whether a Unix-domain path is bound.
    pub fn domsock_paths_contains(&self, p: &Path) -> (r: bool)
        ensures
            r == dom_paths_has(self.domsock_paths@, p@),
    {
        let mut i: usize = 0;
        while i < self.domsock_paths.len()
            invariant
                i <= self.domsock_paths@.len(),
                forall|j: int| 0 <= j < i ==> self.domsock_paths@[j]@ != p@,
            decreases self.domsock_paths@.len() - i,
        {
            if path_eq(&self.domsock_paths[i], p) {
                return true;
            }
            i = i + 1;
        }
        false
    }

    /// The index of the rendezvous entry under `p`, if one is pending.
    pub fn accept_table_find(&self, p: &Path) -> (r: Option<usize>)
        ensures
            match r {
                Some(i) => accept_table_index(self.domsock_accept_table@, p@) == i && i
                    < self.domsock_accept_table@.len(),
                None => accept_table_index(self.domsock_accept_table@, p@) == -1,
            },
    {
        let mut i: usize = 0;
        while i < self.domsock_accept_table.len()
            invariant
                i <= self.domsock_accept_table@.len(),
                forall|j: int| 0 <= j < i ==> self.domsock_accept_table@[j].0@ != p@,
            decreases self.domsock_accept_table@.len() - i,
        {
            if path_eq(&self.domsock_accept_table[i].0, p) {
                proof {
                    lemma_accept_table_index(self.domsock_accept_table@, p@);
                    let io = accept_table_index(self.domsock_accept_table@, p@);
                    if io == -1 {
                    } else if io < i {
                        assert(self.domsock_accept_table@[io].0@ == p@);
                    } else if io > i {
                        assert(self.domsock_accept_table@[i as int].0@ == p@);
                    }
                    assert(io == i);
                }
                return Some(i);
            }
            i = i + 1;
        }
        proof {
            lemma_accept_table_index(self.domsock_accept_table@, p@);
            let io = accept_table_index(self.domsock_accept_table@, p@);
            if io != -1 {
                assert(self.domsock_accept_table@[io].0@ == p@);
            }
        }
        None
    }
}

} // verus!

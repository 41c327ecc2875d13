use safeposix::cage::{Cage, FileDescriptor, RetryAction};
use safeposix::errnos::{EAGAIN, EINVAL, EISCONN, ENOTCONN, EOPNOTSUPP};
use safeposix::fs::format_fs;
use safeposix::net_calls::KernelRecv;
use safeposix::net_types::{
    new_sockaddr_unix, ConnState, GenSockaddr, SockaddrV4, AF_INET, AF_UNIX, MSG_PEEK,
    SHUT_WR, SOCK_DGRAM, SOCK_STREAM, SOL_SOCKET, SO_REUSEADDR, SO_TYPE,
};
use safeposix::errnos::{ENOENT, ENOTDIR};

fn fresh_cage() -> Cage {
    Cage::new(1, format_fs(0))
}

fn unix_addr(path: &str) -> GenSockaddr {
    new_sockaddr_unix(AF_UNIX as u16, &path.as_bytes().to_vec())
}

fn v4_addr(port: u16) -> GenSockaddr {
    GenSockaddr::V4(SockaddrV4 { family: AF_INET as u16, port, addr: 0x7f000001 })
}

fn no_kernel_recv() -> KernelRecv {
    KernelRecv {
        kernel_fd: 0,
        bind_errno: 0,
        recv: Err(EAGAIN),
        from: None,
        connected_probe: false,
    }
}

#[test]
fn socket_rejects_unknown_kinds() {
    let mut cage = fresh_cage();
    assert_eq!(cage.socket_syscall(12345, SOCK_STREAM, 0), -EOPNOTSUPP);
    assert_eq!(cage.socket_syscall(AF_INET, 7, 0), -EOPNOTSUPP);
    assert!(cage.socket_syscall(AF_INET, SOCK_STREAM, 0) >= 0);
}

// Binding the same descriptor twice is refused.
#[test]
fn bind_twice_is_invalid() {
    let mut cage = fresh_cage();
    let fd = cage.socket_syscall(AF_UNIX, SOCK_STREAM, 0);
    assert!(fd >= 0);
    assert_eq!(cage.bind_syscall(fd, &unix_addr("/tmp/s1"), 0, 0), 0);
    assert_eq!(cage.bind_syscall(fd, &unix_addr("/tmp/s2"), 0, 0), -EINVAL);
}

#[test]
fn bind_existing_path_is_in_use() {
    let mut cage = fresh_cage();
    let fd1 = cage.socket_syscall(AF_UNIX, SOCK_STREAM, 0);
    let fd2 = cage.socket_syscall(AF_UNIX, SOCK_STREAM, 0);
    assert_eq!(cage.bind_syscall(fd1, &unix_addr("/tmp/shared"), 0, 0), 0);
    assert_eq!(
        cage.bind_syscall(fd2, &unix_addr("/tmp/shared"), 0, 0),
        -safeposix::errnos::EADDRINUSE
    );
}

// Connecting on a listening socket is refused.
#[test]
fn connect_on_listener_is_isconn() {
    let mut cage = fresh_cage();
    let fd = cage.socket_syscall(AF_UNIX, SOCK_STREAM, 0);
    assert_eq!(cage.bind_syscall(fd, &unix_addr("/tmp/ls"), 0, 0), 0);
    assert_eq!(cage.listen_syscall(fd, 5, 0, 0, 0), 0);
    assert_eq!(cage.connect_syscall(fd, &unix_addr("/tmp/other"), 0, 0, 0), -EISCONN);
}

// Sending to an address on a stream socket is refused, and sending on an
// unconnected datagram socket reports not-connected.
#[test]
fn sendto_tcp_and_send_udp_errors() {
    let mut cage = fresh_cage();
    let tfd = cage.socket_syscall(AF_INET, SOCK_STREAM, 0);
    let data = b"abcd".to_vec();
    assert_eq!(
        cage.sendto_syscall(tfd, &data, 4, 0, &v4_addr(80), 3, 0, &Ok(4)),
        -EISCONN
    );
    let ufd = cage.socket_syscall(AF_INET, SOCK_DGRAM, 0);
    assert_eq!(cage.send_syscall(ufd, &data, 4, 0, 3, 0, &Ok(4)), -ENOTCONN);
}

// A socketpair echoes in both directions.
#[test]
fn socketpair_echo() {
    let mut cage = fresh_cage();
    let mut sv = safeposix::types::SockPair { sock1: -1, sock2: -1 };
    assert_eq!(cage.socketpair_syscall(AF_UNIX, SOCK_STREAM, 0, &mut sv), 0);
    assert!(sv.sock1 >= 0 && sv.sock2 >= 0 && sv.sock1 != sv.sock2);

    let ping = b"ping".to_vec();
    assert_eq!(cage.send_syscall(sv.sock1, &ping, 4, 0, 0, 0, &Ok(0)), 4);
    let mut buf: Vec<u8> = Vec::new();
    assert_eq!(cage.recv_syscall(sv.sock2, &mut buf, 4, 0, &no_kernel_recv()), 4);
    assert_eq!(buf, b"ping".to_vec());

    let pong = b"pong".to_vec();
    assert_eq!(cage.send_syscall(sv.sock2, &pong, 4, 0, 0, 0, &Ok(0)), 4);
    let mut buf2: Vec<u8> = Vec::new();
    assert_eq!(cage.recv_syscall(sv.sock1, &mut buf2, 4, 0, &no_kernel_recv()), 4);
    assert_eq!(buf2, b"pong".to_vec());
}

// Peeked bytes stay queued: a 4-byte peek of a datagram leaves the bytes
// for the next read, which returns the peeked prefix plus the rest.
#[test]
fn udp_peek_keeps_bytes_queued() {
    let mut cage = fresh_cage();
    let fd = cage.socket_syscall(AF_INET, SOCK_DGRAM, 0);
    assert!(fd >= 0);
    let mut buf: Vec<u8> = Vec::new();
    let sender = safeposix::net_types::GenSockaddr::V4(safeposix::net_types::SockaddrV4 {
        family: AF_INET as u16,
        port: 5353,
        addr: 0x7f000001,
    });
    let first = KernelRecv {
        kernel_fd: 3,
        bind_errno: 0,
        recv: Ok(b"ABCD".to_vec()),
        from: Some(sender),
        connected_probe: false,
    };
    let mut from1: Option<safeposix::net_types::GenSockaddr> = None;
    assert_eq!(cage.recvfrom_syscall(fd, &mut buf, 4, MSG_PEEK as i32, &mut from1, &first), 4);
    assert_eq!(buf, b"ABCD".to_vec());
    // the kernel's sender address is reported back
    match from1 {
        Some(safeposix::net_types::GenSockaddr::V4(v)) => {
            assert_eq!(v.port, 5353);
            assert_eq!(v.addr, 0x7f000001);
        }
        _ => panic!("sender address expected"),
    }
    // the next read first drains the peeked prefix, then the remainder
    let second = KernelRecv {
        kernel_fd: 3,
        bind_errno: 0,
        recv: Ok(b"EFGH".to_vec()),
        from: None,
        connected_probe: false,
    };
    let mut buf2: Vec<u8> = Vec::new();
    let mut from2: Option<safeposix::net_types::GenSockaddr> = None;
    assert_eq!(cage.recvfrom_syscall(fd, &mut buf2, 8, 0, &mut from2, &second), 8);
    assert_eq!(buf2, b"ABCDEFGH".to_vec());
}

// A cage whose cancel flag is raised parks at the next blocking wakeup; a
// pending signal interrupts instead.
#[test]
fn blocking_retry_honors_cancel_then_signal() {
    let mut cage = fresh_cage();
    assert_eq!(cage.blocking_retry_action(), RetryAction::Retry);
    cage.sigpending = true;
    assert_eq!(cage.blocking_retry_action(), RetryAction::Interrupt);
    cage.cancelstatus = true;
    assert_eq!(cage.blocking_retry_action(), RetryAction::Cancel);
}

// A blocking inet accept with no pending connection keeps coming back for
// its cancel check each time the kernel wait times out.
#[test]
fn blocking_accept_reaches_cancel_point() {
    let mut cage = fresh_cage();
    let fd = cage.socket_syscall(AF_INET, SOCK_STREAM, 0);
    assert_eq!(cage.bind_syscall(fd, &v4_addr(9000), 3, 0), 0);
    assert_eq!(cage.listen_syscall(fd, 5, 3, 0, 0), 0);
    let mut out = unix_addr("");
    // the kernel's one-second wait expired with nothing accepted
    assert_eq!(cage.accept_syscall(fd, &mut out, &Err(EAGAIN)), -EAGAIN);
    cage.cancelstatus = true;
    assert_eq!(cage.blocking_retry_action(), RetryAction::Cancel);
}

#[test]
fn shutdown_steps_the_state_table() {
    let mut cage = fresh_cage();
    let mut sv = safeposix::types::SockPair { sock1: -1, sock2: -1 };
    assert_eq!(cage.socketpair_syscall(AF_UNIX, SOCK_STREAM, 0, &mut sv), 0);
    assert_eq!(cage.netshutdown_syscall(sv.sock1, SHUT_WR, 0), 0);
    match &cage.fdtable[sv.sock1 as usize] {
        Some(FileDescriptor::Socket(d)) => assert_eq!(d.handle.state, ConnState::CONNRDONLY),
        _ => panic!("socket expected"),
    }
    assert_eq!(cage.netshutdown_syscall(sv.sock1, 9, 0), -EINVAL);
}

#[test]
fn sockopt_roundtrip() {
    let mut cage = fresh_cage();
    let fd = cage.socket_syscall(AF_INET, SOCK_STREAM, 0);
    let mut val: i32 = -1;
    assert_eq!(cage.getsockopt_syscall(fd, SOL_SOCKET, SO_TYPE, &mut val), 0);
    assert_eq!(val, SOCK_STREAM);
    assert_eq!(cage.setsockopt_syscall(fd, SOL_SOCKET, SO_REUSEADDR, 1, 0), 0);
    let mut val2: i32 = 0;
    assert_eq!(cage.getsockopt_syscall(fd, SOL_SOCKET, SO_REUSEADDR, &mut val2), 0);
    assert_eq!(val2, 1);
    assert_eq!(
        cage.setsockopt_syscall(fd, SOL_SOCKET, SO_TYPE, 1, 0),
        -safeposix::errnos::ENOPROTOOPT
    );
}

#[test]
fn gethostname_fills_name() {
    let cage = fresh_cage();
    let mut buf: Vec<u8> = Vec::new();
    assert_eq!(cage.gethostname_syscall(&mut buf, 64), 0);
    assert_eq!(buf, vec![108, 105, 110, 100, 0]);
    assert_eq!(cage.gethostname_syscall(&mut buf, -1), -EINVAL);
}

// A stream peek holds bytes aside; the next plain read returns the peeked
// prefix followed by what is still in the pipe.
#[test]
fn stream_peek_then_read_mixes_cache_and_pipe() {
    let mut cage = fresh_cage();
    let mut sv = safeposix::types::SockPair { sock1: -1, sock2: -1 };
    assert_eq!(cage.socketpair_syscall(AF_UNIX, SOCK_STREAM, 0, &mut sv), 0);
    let data = b"wxyz".to_vec();
    assert_eq!(cage.send_syscall(sv.sock1, &data, 4, 0, 0, 0, &Ok(0)), 4);

    let mut peeked: Vec<u8> = Vec::new();
    assert_eq!(
        cage.recv_syscall(sv.sock2, &mut peeked, 2, MSG_PEEK as i32, &no_kernel_recv()),
        2
    );
    assert_eq!(peeked, b"wx".to_vec());

    let mut buf: Vec<u8> = Vec::new();
    assert_eq!(cage.recv_syscall(sv.sock2, &mut buf, 4, 0, &no_kernel_recv()), 4);
    assert_eq!(buf, b"wxyz".to_vec());
}

// A path whose parent resolves to a plain file (here the character device
// /dev/null) refuses the bind with NotADirectory, while a merely missing
// parent reports NoEntry.
#[test]
fn bind_under_non_directory_reports_notdir() {
    let mut cage = fresh_cage();
    let fd = cage.socket_syscall(AF_UNIX, SOCK_STREAM, 0);
    assert!(fd >= 0);
    assert_eq!(cage.bind_syscall(fd, &unix_addr("/dev/null/sock"), 0, 0), -ENOTDIR);
    let fd2 = cage.socket_syscall(AF_UNIX, SOCK_STREAM, 0);
    assert!(fd2 >= 0);
    assert_eq!(cage.bind_syscall(fd2, &unix_addr("/nosuchdir/sock"), 0, 0), -ENOENT);
}

// Peeking past the cache drains the pipe into the peek cache: a second,
// longer peek returns the whole message and a plain read then consumes it.
#[test]
fn stream_peek_grows_cache_from_pipe() {
    let mut cage = fresh_cage();
    let mut sv = safeposix::types::SockPair { sock1: 0, sock2: 0 };
    assert_eq!(cage.socketpair_syscall(AF_UNIX, SOCK_STREAM, 0, &mut sv), 0);
    let data = b"abcd".to_vec();
    assert_eq!(cage.send_syscall(sv.sock1, &data, 4, 0, 0, 0, &Ok(0)), 4);
    let mut p1: Vec<u8> = Vec::new();
    assert_eq!(cage.recv_syscall(sv.sock2, &mut p1, 2, MSG_PEEK as i32, &no_kernel_recv()), 2);
    assert_eq!(p1, b"ab".to_vec());
    let mut p2: Vec<u8> = Vec::new();
    assert_eq!(cage.recv_syscall(sv.sock2, &mut p2, 4, MSG_PEEK as i32, &no_kernel_recv()), 4);
    assert_eq!(p2, b"abcd".to_vec());
    let mut out: Vec<u8> = Vec::new();
    assert_eq!(cage.recv_syscall(sv.sock2, &mut out, 4, 0, &no_kernel_recv()), 4);
    assert_eq!(out, b"abcd".to_vec());
    // nothing is left after the read
    let mut rest: Vec<u8> = Vec::new();
    assert_eq!(cage.recv_syscall(sv.sock2, &mut rest, 1, 0, &no_kernel_recv()), -EAGAIN);
}

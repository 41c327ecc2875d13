use safeposix::cage::{Cage, FileDescriptor};
use safeposix::errnos::{EAGAIN, EEXIST, EINVAL, ENOENT};
use safeposix::fs::format_fs;
use safeposix::net_types::{
    new_sockaddr_unix, ConnState, AF_UNIX, EPOLLIN, EPOLL_CTL_ADD, EPOLL_CTL_DEL, EPOLL_CTL_MOD,
    FD_SET_MAX_FD, SOCK_STREAM, STARTINGFD,
};
use safeposix::select_calls::FdSet;
use safeposix::types::EpollEvent;
use safeposix::net_types::{AF_INET, SockaddrV4, GenSockaddr};
use safeposix::cage::PollRetry;

fn fresh_cage() -> Cage {
    Cage::new(1, format_fs(0))
}

fn unix_addr(path: &str) -> safeposix::net_types::GenSockaddr {
    new_sockaddr_unix(AF_UNIX as u16, &path.as_bytes().to_vec())
}

// Out-of-range descriptor counts are invalid.
#[test]
fn select_rejects_bad_nfds() {
    let mut cage = fresh_cage();
    let empty_r = FdSet::new();
    let empty_w = FdSet::new();
    let mut none_r: Option<FdSet> = None;
    let mut none_w: Option<FdSet> = None;
    let mut none_e: Option<FdSet> = None;
    assert_eq!(
        cage.select_syscall(STARTINGFD - 1, &mut none_r, &mut none_w, &mut none_e, &empty_r, &empty_w),
        -EINVAL
    );
    let mut none_r2: Option<FdSet> = None;
    let mut none_w2: Option<FdSet> = None;
    let mut none_e2: Option<FdSet> = None;
    assert_eq!(
        cage.select_syscall(FD_SET_MAX_FD, &mut none_r2, &mut none_w2, &mut none_e2, &empty_r, &empty_w),
        -EINVAL
    );
}

// A pending Unix-domain connection makes the listener readable, and accept
// then yields a connected socket.
#[test]
fn accept_queue_via_select() {
    let mut cage = fresh_cage();
    let lfd = cage.socket_syscall(AF_UNIX, SOCK_STREAM, 0);
    assert_eq!(cage.bind_syscall(lfd, &unix_addr("/tmp/ls"), 0, 0), 0);
    assert_eq!(cage.listen_syscall(lfd, 5, 0, 0, 0), 0);

    // nothing pending: the listener is not readable yet
    let kernel = FdSet::new();
    let mut rfds = FdSet::new();
    rfds.set(lfd);
    let mut ropt = Some(rfds);
    let mut wopt: Option<FdSet> = None;
    let mut eopt: Option<FdSet> = None;
    assert_eq!(cage.select_syscall(lfd + 1, &mut ropt, &mut wopt, &mut eopt, &kernel, &kernel), 0);

    let cfd = cage.socket_syscall(AF_UNIX, SOCK_STREAM, 0);
    assert_eq!(cage.connect_syscall(cfd, &unix_addr("/tmp/ls"), 0, 0, 0), 0);

    let mut rfds2 = FdSet::new();
    rfds2.set(lfd);
    let mut ropt2 = Some(rfds2);
    let mut wopt2: Option<FdSet> = None;
    let mut eopt2: Option<FdSet> = None;
    let n = cage.select_syscall(lfd + 1, &mut ropt2, &mut wopt2, &mut eopt2, &kernel, &kernel);
    assert_eq!(n, 1);
    assert!(ropt2.as_ref().unwrap().is_set(lfd));

    let mut out = unix_addr("");
    let newfd = cage.accept_syscall(lfd, &mut out, &Err(EAGAIN));
    assert!(newfd >= 0);
    match &cage.fdtable[newfd as usize] {
        Some(FileDescriptor::Socket(d)) => assert_eq!(d.handle.state, ConnState::CONNECTED),
        _ => panic!("socket expected"),
    }

    // the accepted pair echoes
    let hello = b"hi".to_vec();
    assert_eq!(cage.send_syscall(cfd, &hello, 2, 0, 0, 0, &Ok(0)), 2);
    let mut buf: Vec<u8> = Vec::new();
    let k = safeposix::net_calls::KernelRecv {
        kernel_fd: 0,
        bind_errno: 0,
        recv: Err(EAGAIN),
        from: None,
        connected_probe: false,
    };
    assert_eq!(cage.recv_syscall(newfd, &mut buf, 2, 0, &k), 2);
    assert_eq!(buf, b"hi".to_vec());
}

#[test]
fn epoll_registration_rules() {
    let mut cage = fresh_cage();
    let sfd = cage.socket_syscall(AF_UNIX, SOCK_STREAM, 0);
    assert_eq!(cage.epoll_create_syscall(0), -EINVAL);
    let epfd = cage.epoll_create_syscall(4);
    assert!(epfd >= 0);
    let ev = EpollEvent { events: EPOLLIN, fd: sfd };
    assert_eq!(cage.epoll_ctl_syscall(epfd, EPOLL_CTL_MOD, sfd, &ev), -ENOENT);
    assert_eq!(cage.epoll_ctl_syscall(epfd, EPOLL_CTL_ADD, sfd, &ev), 0);
    assert_eq!(cage.epoll_ctl_syscall(epfd, EPOLL_CTL_ADD, sfd, &ev), -EEXIST);
    assert_eq!(cage.epoll_ctl_syscall(epfd, EPOLL_CTL_DEL, sfd, &ev), 0);
    // an epoll instance cannot watch itself
    assert_eq!(
        cage.epoll_ctl_syscall(epfd, EPOLL_CTL_ADD, epfd, &ev),
        -safeposix::errnos::EBADF
    );
}

#[test]
fn epoll_wait_reports_readable_socketpair() {
    let mut cage = fresh_cage();
    let mut sv = safeposix::types::SockPair { sock1: -1, sock2: -1 };
    assert_eq!(cage.socketpair_syscall(AF_UNIX, SOCK_STREAM, 0, &mut sv), 0);
    let epfd = cage.epoll_create_syscall(4);
    let ev = EpollEvent { events: EPOLLIN, fd: sv.sock2 };
    assert_eq!(cage.epoll_ctl_syscall(epfd, EPOLL_CTL_ADD, sv.sock2, &ev), 0);

    let kernel = FdSet::new();
    let mut events: Vec<EpollEvent> = Vec::new();
    assert_eq!(cage.epoll_wait_syscall(epfd, &mut events, 8, &kernel, &kernel), 0);

    let ping = b"x".to_vec();
    assert_eq!(cage.send_syscall(sv.sock1, &ping, 1, 0, 0, 0, &Ok(0)), 1);
    let mut events2: Vec<EpollEvent> = Vec::new();
    assert_eq!(cage.epoll_wait_syscall(epfd, &mut events2, 8, &kernel, &kernel), 1);
    assert_eq!(events2[0].fd, sv.sock2);
    assert!(events2[0].events & EPOLLIN != 0);
}

#[test]
fn poll_sees_readable_pipe_end() {
    let mut cage = fresh_cage();
    let mut sv = safeposix::types::SockPair { sock1: -1, sock2: -1 };
    assert_eq!(cage.socketpair_syscall(AF_UNIX, SOCK_STREAM, 0, &mut sv), 0);
    let data = b"z".to_vec();
    assert_eq!(cage.send_syscall(sv.sock1, &data, 1, 0, 0, 0, &Ok(0)), 1);
    let kernel = FdSet::new();
    let mut fds = vec![safeposix::types::PollStruct {
        fd: sv.sock2,
        events: safeposix::net_types::POLLIN,
        revents: 0,
    }];
    assert_eq!(cage.poll_syscall(&mut fds, &kernel, &kernel), 1);
    assert!(fds[0].revents & safeposix::net_types::POLLIN != 0);
}

// An inet listener becomes readable when the kernel reports its raw
// descriptor, and accept then installs the kernel's connection.
#[test]
fn inet_listener_ready_via_kernel_report() {
    let mut cage = fresh_cage();
    let lfd = cage.socket_syscall(safeposix::net_types::AF_INET, SOCK_STREAM, 0);
    let bindaddr = safeposix::net_types::GenSockaddr::V4(safeposix::net_types::SockaddrV4 {
        family: safeposix::net_types::AF_INET as u16,
        port: 0,
        addr: 0x7f000001,
    });
    assert_eq!(cage.bind_syscall(lfd, &bindaddr, 5, 0), 0);
    assert_eq!(cage.listen_syscall(lfd, 5, 5, 0, 0), 0);

    // nothing readable yet
    let quiet = FdSet::new();
    let mut rfds = FdSet::new();
    rfds.set(lfd);
    let mut ropt = Some(rfds);
    let mut wopt: Option<FdSet> = None;
    let mut eopt: Option<FdSet> = None;
    assert_eq!(cage.select_syscall(lfd + 1, &mut ropt, &mut wopt, &mut eopt, &quiet, &quiet), 0);

    // the kernel reports raw descriptor 5 readable
    let mut kernel_r = FdSet::new();
    kernel_r.set(5);
    let mut rfds2 = FdSet::new();
    rfds2.set(lfd);
    let mut ropt2 = Some(rfds2);
    let mut wopt2: Option<FdSet> = None;
    let mut eopt2: Option<FdSet> = None;
    let n = cage.select_syscall(lfd + 1, &mut ropt2, &mut wopt2, &mut eopt2, &kernel_r, &quiet);
    assert_eq!(n, 1);
    assert!(ropt2.as_ref().unwrap().is_set(lfd));

    let peer = safeposix::net_types::GenSockaddr::V4(safeposix::net_types::SockaddrV4 {
        family: safeposix::net_types::AF_INET as u16,
        port: 41000,
        addr: 0x7f000001,
    });
    let mut out = unix_addr("");
    let newfd = cage.accept_syscall(lfd, &mut out, &Ok((6, peer)));
    assert!(newfd >= 0);
    match &cage.fdtable[newfd as usize] {
        Some(FileDescriptor::Socket(d)) => {
            assert_eq!(d.handle.state, ConnState::CONNECTED);
            assert_eq!(d.rawfd, 6);
        }
        _ => panic!("socket expected"),
    }
}

// Removing a registration really unregisters it: a later modify finds
// nothing, and a fresh add succeeds again.
#[test]
fn epoll_del_unregisters() {
    let mut cage = fresh_cage();
    let sfd = cage.socket_syscall(AF_UNIX, SOCK_STREAM, 0);
    assert!(sfd >= 0);
    let epfd = cage.epoll_create_syscall(4);
    assert!(epfd >= 0);
    let ev = EpollEvent { events: EPOLLIN, fd: sfd };
    assert_eq!(cage.epoll_ctl_syscall(epfd, EPOLL_CTL_ADD, sfd, &ev), 0);
    assert_eq!(cage.epoll_ctl_syscall(epfd, EPOLL_CTL_DEL, sfd, &ev), 0);
    assert_eq!(cage.epoll_ctl_syscall(epfd, EPOLL_CTL_MOD, sfd, &ev), -ENOENT);
    assert_eq!(cage.epoll_ctl_syscall(epfd, EPOLL_CTL_ADD, sfd, &ev), 0);
}

// A kernel report of writability completes an in-progress connect, and
// only then.
#[test]
fn writable_probe_upgrades_inprogress() {
    let mut cage = fresh_cage();
    let fd = cage.socket_syscall(AF_INET, SOCK_STREAM, 0);
    assert!(fd >= 0);
    let remote = GenSockaddr::V4(SockaddrV4 { family: AF_INET as u16, port: 80, addr: 0x7f000001 });
    // the kernel answers EINPROGRESS to the nonblocking connect
    assert_eq!(
        cage.connect_syscall(fd, &remote, 3, 0, safeposix::errnos::EINPROGRESS),
        -safeposix::errnos::EINPROGRESS
    );
    // not writable yet: nothing changes
    assert!(!cage.upgrade_inprogress(fd, false));
    match &cage.fdtable[fd as usize] {
        Some(FileDescriptor::Socket(d)) => assert_eq!(d.handle.state, ConnState::INPROGRESS),
        _ => panic!("socket expected"),
    }
    // writable: the connect has completed
    assert!(cage.upgrade_inprogress(fd, true));
    match &cage.fdtable[fd as usize] {
        Some(FileDescriptor::Socket(d)) => assert_eq!(d.handle.state, ConnState::CONNECTED),
        _ => panic!("socket expected"),
    }
}

// The blocking multiplexers stop with zero only once the timeout elapses,
// and cancel outranks a pending signal.
#[test]
fn poll_retry_decision_orders_outcomes() {
    let mut cage = fresh_cage();
    assert_eq!(cage.poll_retry_decision(5, 10), PollRetry::Retry);
    assert_eq!(cage.poll_retry_decision(10, 10), PollRetry::TimedOut);
    assert_eq!(cage.poll_retry_decision(11, 10), PollRetry::TimedOut);
    // a negative timeout never expires
    assert_eq!(cage.poll_retry_decision(u64::MAX, -1), PollRetry::Retry);
    cage.sigpending = true;
    assert_eq!(cage.poll_retry_decision(0, -1), PollRetry::Interrupt);
    cage.cancelstatus = true;
    assert_eq!(cage.poll_retry_decision(0, -1), PollRetry::Cancel);
    // the elapsed timeout still wins over both
    assert_eq!(cage.poll_retry_decision(10, 10), PollRetry::TimedOut);
}

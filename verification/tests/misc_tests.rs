use safeposix::net_types::{GenIpaddr, NetMetadata, EPHEMERAL_PORT_START, IPPROTO_TCP, AF_INET};
use safeposix::persist::{create_log, EmulatedFileMap};

// A requested port is granted once and then refused without a rebind
// intent.
#[test]
fn port_reservation_conflicts() {
    let mut net = NetMetadata::new();
    let addr = GenIpaddr::V4(0);
    assert_eq!(net._reserve_localport(addr, 5000, IPPROTO_TCP, AF_INET, false), Ok(5000));
    assert_eq!(
        net._reserve_localport(addr, 5000, IPPROTO_TCP, AF_INET, false),
        Err(-safeposix::errnos::EADDRINUSE)
    );
    assert_eq!(net._reserve_localport(addr, 5000, IPPROTO_TCP, AF_INET, true), Ok(5000));
    assert_eq!(net._release_localport(addr, 5000, IPPROTO_TCP, AF_INET), Ok(0));
    assert_eq!(net._reserve_localport(addr, 5000, IPPROTO_TCP, AF_INET, false), Ok(5000));
}

// Port zero draws from the ephemeral range, skipping taken ports.
#[test]
fn ephemeral_ports_skip_taken() {
    let mut net = NetMetadata::new();
    let addr = GenIpaddr::V4(0);
    assert_eq!(
        net._reserve_localport(addr, EPHEMERAL_PORT_START, IPPROTO_TCP, AF_INET, false),
        Ok(EPHEMERAL_PORT_START)
    );
    assert_eq!(
        net._reserve_localport(addr, 0, IPPROTO_TCP, AF_INET, false),
        Ok(EPHEMERAL_PORT_START + 1)
    );
}

// The journal image starts with its byte count, big-endian, then the data.
#[test]
fn journal_header_counts_bytes_big_endian() {
    let mut log: EmulatedFileMap = create_log();
    let payload = b"abc".to_vec();
    assert_eq!(log.write_to_map(&payload), 0);
    let bytes = log.full_log_bytes();
    assert_eq!(&bytes[0..8], &[0, 0, 0, 0, 0, 0, 0, 3]);
    assert_eq!(&bytes[8..], b"abc");
    assert_eq!(log.count, 3);
}

#[test]
fn getifaddrs_respects_limit() {
    let mut cage = safeposix::cage::Cage::new(1, safeposix::fs::format_fs(0));
    cage.ifaddrs = b"lo 127.0.0.1".to_vec();
    let mut buf: Vec<u8> = Vec::new();
    assert_eq!(cage.getifaddrs_syscall(&mut buf, 64), 0);
    assert_eq!(buf, b"lo 127.0.0.1".to_vec());
    assert_eq!(
        cage.getifaddrs_syscall(&mut buf, 4),
        -safeposix::errnos::EOPNOTSUPP
    );
}

//! Plain data carriers of the syscall surface: the structs whose layouts
//! the dispatcher fills in before calling the library, and that the library
//! hands back.

use vstd::prelude::*;

verus! {

#[derive(PartialEq, Eq, Structural, Default)]
pub struct FSData {
    pub f_type: u64,
    pub f_bsize: u64,
    pub f_blocks: u64,
    pub f_bfree: u64,
    pub f_bavail: u64,
    pub f_files: u64,
    pub f_ffiles: u64,
    pub f_fsid: u64,
    pub f_namelen: u64,
    pub f_frsize: u64,
}

#[derive(Default)]
pub struct StatData {
    pub st_dev: u64,
    pub st_ino: usize,
    pub st_mode: u32,
    pub st_nlink: u32,
    pub st_uid: u32,
    pub st_gid: u32,
    pub st_rdev: u64,
    pub st_size: usize,
    pub st_blksize: i32,
    pub st_blocks: u32,
    pub st_atim: (u64, u64),
    pub st_mtim: (u64, u64),
    pub st_ctim: (u64, u64),
}

pub struct Rlimit {
    pub rlim_cur: u64,
    pub rlim_max: u64,
}

#[derive(PartialEq, Eq, Structural, Default, Copy, Clone)]
pub struct PipeArray {
    pub readfd: i32,
    pub writefd: i32,
}

#[derive(PartialEq, Eq, Structural, Default, Copy, Clone)]
pub struct SockPair {
    pub sock1: i32,
    pub sock2: i32,
}

#[derive(Copy, Clone, Debug, PartialEq, Eq, Structural)]
pub struct EpollEvent {
    pub events: u32,
    pub fd: i32,
}

#[derive(Debug, Default, Copy, Clone, PartialEq, Eq, Structural)]
pub struct PollStruct {
    pub fd: i32,
    pub events: i16,
    pub revents: i16,
}

/// The 16-byte common prefix the dispatcher peeks at to pick an address
/// decoder.
pub struct SockaddrDummy {
    pub sa_family: u16,
    pub _sa_data: [u16; 14],
}

pub struct TimeVal {
    pub tv_sec: i64,
    pub tv_usec: i64,
}

pub struct ITimerVal {
    pub it_interval: TimeVal,
    pub it_value: TimeVal,
}

pub struct TimeSpec {
    pub tv_sec: i64,
    pub tv_nsec: i64,
}

#[derive(Copy, Clone, Default)]
pub struct IpcPermStruct {
    pub __key: i32,
    pub uid: u32,
    pub gid: u32,
    pub cuid: u32,
    pub cgid: u32,
    pub mode: u16,
    pub __pad1: u16,
    pub __seq: u16,
    pub __pad2: u16,
    pub __unused1: u32,
    pub __unused2: u32,
}

#[derive(Copy, Clone, Default)]
pub struct ShmidsStruct {
    pub shm_perm: IpcPermStruct,
    pub shm_segsz: u32,
    pub shm_atime: isize,
    pub shm_dtime: isize,
    pub shm_ctime: isize,
    pub shm_cpid: u32,
    pub shm_lpid: u32,
    pub shm_nattch: u32,
}

pub type SigsetType = u64;

#[derive(Copy, Clone, Debug, Default)]
pub struct SigactionStruct {
    pub sa_handler: u32,
    pub sa_mask: SigsetType,
    pub sa_flags: i32,
}

/// A directory entry record without its trailing name, as the dirent
/// buffer packs them.
pub struct ClippedDirent {
    pub d_ino: u64,
    pub d_off: u64,
    pub d_reclen: u16,
}

/// The packed byte size of `ClippedDirent`'s three fields.
pub const CLIPPED_DIRENT_SIZE: u32 = 18;

} // verus!

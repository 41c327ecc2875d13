//! POSIX error numbers and the convention that every failing call returns
//! the negated errno.

use vstd::prelude::*;

verus! {

pub const EPERM: i32 = 1;
pub const ENOENT: i32 = 2;
pub const EINTR: i32 = 4;
pub const EBADF: i32 = 9;
pub const EAGAIN: i32 = 11;
pub const EFAULT: i32 = 14;
pub const EMFILE: i32 = 24;
pub const EEXIST: i32 = 17;
pub const ENOTDIR: i32 = 20;
pub const EINVAL: i32 = 22;
pub const EILSEQ: i32 = 84;
pub const ENOTSOCK: i32 = 88;
pub const ENOPROTOOPT: i32 = 92;
pub const EOPNOTSUPP: i32 = 95;
pub const EADDRINUSE: i32 = 98;
pub const ENOTCONN: i32 = 107;
pub const EISCONN: i32 = 106;
pub const EINPROGRESS: i32 = 115;

/// Every failure surfaces to the caller as the negative of its errno.
pub fn syscall_error(errno: i32) -> (r: i32)
    requires
        0 < errno <= 0x10000,
    ensures
        r == -errno,
{
    -errno
}

} // verus!

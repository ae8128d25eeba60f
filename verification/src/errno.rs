//! Error numbers of the Linux system call interface.
use vstd::prelude::*;

verus! {

/// A Linux error number.
#[derive(Clone, Copy, PartialEq, Eq, Structural, Debug)]
pub enum Errno {
    EPERM,
    ENOENT,
    ESRCH,
    EINTR,
    EIO,
    E2BIG,
    ENOEXEC,
    EBADF,
    EAGAIN,
    ENOMEM,
    EACCES,
    EFAULT,
    EBUSY,
    EEXIST,
    ENODEV,
    ENOTDIR,
    EINVAL,
    EMFILE,
    ENOTTY,
    ESPIPE,
    ERANGE,
    ENAMETOOLONG,
    ENOSYS,
    ELOOP,
    EOVERFLOW,
    ENOTSUP,
    ETIMEDOUT,
}

impl Errno {
    /// The number that Linux gives to this error.
    pub open spec fn number(self) -> int {
        match self {
            Errno::EPERM => 1,
            Errno::ENOENT => 2,
            Errno::ESRCH => 3,
            Errno::EINTR => 4,
            Errno::EIO => 5,
            Errno::E2BIG => 7,
            Errno::ENOEXEC => 8,
            Errno::EBADF => 9,
            Errno::EAGAIN => 11,
            Errno::ENOMEM => 12,
            Errno::EACCES => 13,
            Errno::EFAULT => 14,
            Errno::EBUSY => 16,
            Errno::EEXIST => 17,
            Errno::ENODEV => 19,
            Errno::ENOTDIR => 20,
            Errno::EINVAL => 22,
            Errno::EMFILE => 24,
            Errno::ENOTTY => 25,
            Errno::ESPIPE => 29,
            Errno::ERANGE => 34,
            Errno::ENAMETOOLONG => 36,
            Errno::ENOSYS => 38,
            Errno::ELOOP => 40,
            Errno::EOVERFLOW => 75,
            Errno::ENOTSUP => 95,
            Errno::ETIMEDOUT => 110,
        }
    }

    /// The value that a failing system call returns: the negated error number.
    pub fn as_neg(&self) -> (r: i32)
        ensures
            r == -self.number(),
    {
        match self {
            Errno::EPERM => -1,
            Errno::ENOENT => -2,
            Errno::ESRCH => -3,
            Errno::EINTR => -4,
            Errno::EIO => -5,
            Errno::E2BIG => -7,
            Errno::ENOEXEC => -8,
            Errno::EBADF => -9,
            Errno::EAGAIN => -11,
            Errno::ENOMEM => -12,
            Errno::EACCES => -13,
            Errno::EFAULT => -14,
            Errno::EBUSY => -16,
            Errno::EEXIST => -17,
            Errno::ENODEV => -19,
            Errno::ENOTDIR => -20,
            Errno::EINVAL => -22,
            Errno::EMFILE => -24,
            Errno::ENOTTY => -25,
            Errno::ESPIPE => -29,
            Errno::ERANGE => -34,
            Errno::ENAMETOOLONG => -36,
            Errno::ENOSYS => -38,
            Errno::ELOOP => -40,
            Errno::EOVERFLOW => -75,
            Errno::ENOTSUP => -95,
            Errno::ETIMEDOUT => -110,
        }
    }
}

} // verus!

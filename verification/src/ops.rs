//! Error taxonomy of the filesystem and the catch-all reply for the
//! write-side capabilities, which this filesystem never supports.

use vstd::prelude::*;

verus! {

/// POSIX error number for "no such file or directory".
pub const ENOENT: i32 = 2;

/// POSIX error number for "not a directory".
pub const ENOTDIR: i32 = 20;

/// POSIX error number for "function not implemented".
pub const ENOSYS: i32 = 38;

/// Everything that can go wrong while serving one filesystem request.
///
/// The first three map one-to-one onto the POSIX codes handed back to the
/// kernel transport; `StoreUnavailable` is process-fatal by design (a
/// filesystem that silently returns wrong results is worse than one that
/// stops loudly), so callers outside the library abort on it.
#[derive(Clone, Copy, Debug, PartialEq, Eq, Structural)]
pub enum FsError {
    /// A path segment failed prefix or existence validation.
    NotFound,
    /// A descent was attempted through a file segment.
    NotADirectory,
    /// A mutating operation was invoked.
    Unsupported,
    /// The store could not be opened or queried.
    StoreUnavailable,
}

impl FsError {
    /// The POSIX error code reported to the kernel transport.
    ///
    /// `StoreUnavailable` never reaches the kernel (the process aborts
    /// instead); it is mapped to `ENOENT` so that this function is total.
    pub fn errno(&self) -> (r: i32)
        ensures
            r == match *self {
                FsError::NotFound => ENOENT,
                FsError::NotADirectory => ENOTDIR,
                FsError::Unsupported => ENOSYS,
                FsError::StoreUnavailable => ENOENT,
            },
    {
        match *self {
            FsError::NotFound => ENOENT,
            FsError::NotADirectory => ENOTDIR,
            FsError::Unsupported => ENOSYS,
            FsError::StoreUnavailable => ENOENT,
        }
    }
}

/// The mutating (or otherwise unimplemented) capabilities of the kernel
/// transport. The filesystem is read-only: every one of them is answered
/// with the same "not supported" code, whatever its arguments were.
#[derive(Clone, Copy, Debug, PartialEq, Eq, Structural)]
pub enum MutatingOp {
    Chmod,
    Chown,
    Truncate,
    Utimens,
    Readlink,
    Mknod,
    Mkdir,
    Unlink,
    Rmdir,
    Symlink,
    Rename,
    Link,
    Open,
    Read,
    Write,
    Flush,
    Release,
    Fsync,
    Releasedir,
    Fsyncdir,
    Statfs,
    Setxattr,
    Getxattr,
    Listxattr,
    Removexattr,
    Access,
    Create,
}

/// The one reply every mutating capability receives: `ENOSYS`, regardless
/// of which operation was invoked and with what arguments.
pub fn unsupported_reply(op: &MutatingOp) -> (r: i32)
    ensures
        r == ENOSYS,
{
    let _ = op;
    ENOSYS
}

} // verus!

//! Error values returned by the library.
use vstd::prelude::*;

verus! {

/// `ENOMEM`: out of memory.
pub const ENOMEM: i32 = 12;

/// `EFAULT`: bad address.
pub const EFAULT: i32 = 14;

/// `EINVAL`: invalid argument.
pub const EINVAL: i32 = 22;

/// An error of the kernel, carrying a Linux error number.
#[derive(Clone, Copy, Debug, PartialEq, Eq, Structural)]
pub enum Error {
    /// A failed system operation, with its error number.
    SysError(i32),
    /// A failed kernel service, with its error number.
    SystemErr(i32),
}

} // verus!

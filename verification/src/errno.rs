//! Error numbers reported by the kernel.

use vstd::prelude::*;

verus! {

/// An operating system error number.
#[derive(Debug, Clone, Copy, PartialEq, Eq, Hash, Structural)]
pub struct Errno {
    pub code: i32,
}

impl Errno {
    /// The error that a negative kernel result stands for.
    pub fn from_result(res: i32) -> (e: Errno)
        requires
            res > i32::MIN,
        ensures
            e.code == -res,
    {
        Errno { code: -res }
    }

    /// The error number as the operating system gives it.
    pub fn raw_os_error(&self) -> (code: i32)
        ensures
            code == self.code,
    {
        self.code
    }
}

} // verus!

//! The operation that sends bytes over a socket.

use vstd::prelude::*;
use vstd::slice::slice_to_vec;

use crate::opcodes::SqeOp;
use crate::sqe::{Prep, Sqe};

verus! {

/// The operation that sends bytes of its own over a socket.
pub struct Send {
    fd: i32,
    buf: Vec<u8>,
    flags: i32,
}

impl Send {
    /// The descriptor of the socket.
    pub closed spec fn fd(&self) -> i32 {
        self.fd
    }

    /// The bytes that are sent.
    pub closed spec fn bytes(&self) -> Seq<u8> {
        self.buf@
    }

    /// The flags of the operation.
    pub closed spec fn flags(&self) -> i32 {
        self.flags
    }

    /// The operation that sends a copy of the given bytes.
    pub fn new(fd: i32, buf: &[u8], flags: i32) -> (op: Self)
        ensures
            op.fd() == fd,
            op.bytes() == buf@,
            op.flags() == flags,
    {
        Send { fd, buf: slice_to_vec(buf), flags }
    }
}

impl SqeOp for Send {
    open spec fn makes(&self, prep: Prep<'_>) -> bool {
        prep matches Prep::Send { fd, buf, flags } && fd == self.fd() && buf@ == self.bytes()
            && flags == self.flags()
    }

    fn apply<'a>(&'a self, sqe: &mut Sqe<'a>)
        ensures
            final(sqe).prep matches Some(Prep::Send { fd, buf, flags }) && fd == self.fd() && buf@
                == self.bytes() && flags == self.flags(),
    {
        sqe.prep = Some(Prep::Send { fd: self.fd, buf: self.buf.as_slice(), flags: self.flags });
    }
}

} // verus!

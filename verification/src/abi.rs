//! Numbers of the Linux io_uring and socket interfaces that the runtime goes by on every machine.

use vstd::prelude::*;

verus! {

/// The upper half of the completion flags carries a buffer identifier.
pub const IORING_CQE_F_BUFFER: u32 = 1;

/// The request will produce further completions.
pub const IORING_CQE_F_MORE: u32 = 2;

/// The socket had more data to read.
pub const IORING_CQE_F_SOCK_NONEMPTY: u32 = 4;

/// The completion is a zero-copy notification.
pub const IORING_CQE_F_NOTIF: u32 = 8;

/// The buffer named by the completion is only partly consumed.
pub const IORING_CQE_F_BUF_MORE: u32 = 16;

/// Data referred to by a request has been consumed once the request is submitted.
pub const IORING_FEAT_SUBMIT_STABLE: u32 = 4;

/// Keep submitting a batch after one of its requests failed.
pub const IORING_SETUP_SUBMIT_ALL: u32 = 0x80;

/// Run task work cooperatively, without interrupting the task.
pub const IORING_SETUP_COOP_TASKRUN: u32 = 0x100;

/// Only one task submits requests.
pub const IORING_SETUP_SINGLE_ISSUER: u32 = 0x1000;

/// Defer task work until completions are asked for.
pub const IORING_SETUP_DEFER_TASKRUN: u32 = 0x2000;

/// The socket command that sets a socket option.
pub const SOCKET_URING_OP_SETSOCKOPT: i32 = 3;

/// The address family number of IPv4.
pub const AF_INET: i32 = 2;

/// The protocol number of TCP.
pub const IPPROTO_TCP: i32 = 6;

/// The size in bytes of the socket address storage, which any socket address fits.
pub const SOCKADDR_STORAGE_SIZE: u32 = 128;

/// The error number that is taken to say that the time of a wait ran out.
pub const ETIME: i32 = 62;

} // verus!

//! Requests: what is asked of the kernel, and what its answer means.

use vstd::prelude::*;
use std::rc::Rc;

use crate::abi::{SOCKADDR_STORAGE_SIZE, SOCKET_URING_OP_SETSOCKOPT};
use crate::cqe::{IoUringCqe, StrippedCqe};
use crate::errno::Errno;
use crate::net::{storage_size, SockaddrStorage, SocketAddr};
use crate::ring::{
    after_steps, batch_takes_out_its_requests, cell_stays_registered, completions_of, concerns,
    left_after, Ring, RingStep,
};
use crate::task::Task;

verus! {

/// The value of a socket option.
#[derive(Debug, Clone, Copy)]
pub enum OptVal<'a> {
    /// A C integer.
    Int(i32),
    /// The bytes of another type.
    Bytes(&'a [u8]),
}

/// A request that is filled into a submission entry. Outgoing data is held; of memory that the
/// kernel writes to only the size is.
#[derive(Debug, Clone, Copy)]
#[allow(inconsistent_fields)]
pub enum Prep<'a> {
    Nop,
    Socket { domain: i32, sock_type: i32, protocol: i32, flags: u32 },
    Connect { fd: i32, addr: SocketAddr, addrlen: u32 },
    Bind { fd: i32, addr: SocketAddr, addrlen: u32 },
    Send { fd: i32, buf: &'a [u8], flags: i32 },
    Recv { fd: i32, len: usize, flags: i32 },
    Close { fd: i32 },
    Listen { fd: i32, backlog: i32 },
    Accept { fd: i32, addrlen: u32, flags: i32 },
    CmdSock {
        cmd_op: i32,
        fd: i32,
        level: i32,
        optname: i32,
        optval: OptVal<'a>,
        optlen: i32,
    },
}

/// The error that a completion with a nonzero result stands for.
pub open spec fn errno_of(cqe: StrippedCqe) -> Errno {
    Errno { code: -cqe.res as i32 }
}

/// Whether a completion can answer an operation that returns any number and sets no flags.
pub open spec fn answers_unflagged(cqe: StrippedCqe) -> bool {
    &&& cqe.res > i32::MIN
    &&& cqe.res >= 0 ==> cqe.flags@ == 0
}

/// Whether a completion can answer an operation that returns zero and sets no flags.
pub open spec fn answers_zero(cqe: StrippedCqe) -> bool {
    &&& cqe.res > i32::MIN
    &&& cqe.res >= 0 ==> cqe.res == 0 && cqe.flags@ == 0
}

/// Whether a completion can answer the operation that does nothing.
pub open spec fn answers_nop(cqe: StrippedCqe) -> bool {
    &&& cqe.res > i32::MIN
    &&& cqe.res == 0 ==> cqe.flags@ == 0
}

/// Whether a completion can answer an operation that returns any number and may set flags.
pub open spec fn answers_any(cqe: StrippedCqe) -> bool {
    cqe.res > i32::MIN
}

impl<'a> Prep<'a> {
    /// Whether a completion can answer this request.
    pub open spec fn can_answer(self, cqe: StrippedCqe) -> bool {
        match self {
            Prep::Nop => answers_nop(cqe),
            Prep::Socket { .. } => answers_unflagged(cqe),
            Prep::Connect { .. } => answers_zero(cqe),
            Prep::Bind { .. } => answers_zero(cqe),
            Prep::Send { .. } => answers_unflagged(cqe),
            Prep::Recv { .. } => answers_any(cqe),
            Prep::Close { .. } => answers_unflagged(cqe),
            Prep::Listen { .. } => answers_zero(cqe),
            Prep::Accept { .. } => answers_any(cqe),
            Prep::CmdSock { .. } => answers_zero(cqe),
        }
    }

    /// Whether a completion can answer this request. The operations provide for no other.
    pub fn accepts(&self, cqe: &StrippedCqe) -> (possible: bool)
        ensures
            possible == self.can_answer(*cqe),
            cqe.res == i32::MIN ==> !possible,
            i32::MIN < cqe.res < 0 ==> possible,
            cqe.res >= 0 ==> (possible <==> match self {
                Prep::Nop => cqe.res > 0 || cqe.flags@ == 0,
                Prep::Socket { .. } | Prep::Send { .. } | Prep::Close { .. } => cqe.flags@ == 0,
                Prep::Connect { .. } | Prep::Bind { .. } | Prep::Listen { .. }
                | Prep::CmdSock { .. } => cqe.res == 0 && cqe.flags@ == 0,
                Prep::Recv { .. } | Prep::Accept { .. } => true,
            }),
    {
        if cqe.res == i32::MIN {
            return false;
        }
        match self {
            Prep::Nop => cqe.res != 0 || cqe.flags.is_empty(),
            Prep::Socket { .. } | Prep::Send { .. } | Prep::Close { .. } => cqe.res < 0
                || cqe.flags.is_empty(),
            Prep::Connect { .. } | Prep::Bind { .. } | Prep::Listen { .. } | Prep::CmdSock { .. }
            => cqe.res < 0 || (cqe.res == 0 && cqe.flags.is_empty()),
            Prep::Recv { .. } | Prep::Accept { .. } => true,
        }
    }
}

/// A submission entry: the word that its completion will carry, and the request once one is
/// filled in.
#[derive(Debug, Clone, Copy)]
pub struct Sqe<'a> {
    pub user_data: u64,
    pub prep: Option<Prep<'a>>,
}

/// What a future and the ring share of a submitted request: whom to wake when it completes, with
/// `W` the type of wakers, and its completion.
#[derive(Debug)]
pub struct SqeFutureShared<W> {
    pub waker: Option<W>,
    pub cqe: Option<StrippedCqe>,
}

impl<W: Clone> Clone for SqeFutureShared<W> {
    fn clone(&self) -> (copy: Self)
        ensures
            copy.cqe == self.cqe,
            copy.waker is Some <==> self.waker is Some,
            self.waker matches Some(waker) ==> cloned(waker, copy.waker->0),
    {
        let waker = match &self.waker {
            Some(waker) => Some(waker.clone()),
            None => None,
        };
        SqeFutureShared { waker, cqe: self.cqe }
    }
}

impl<W> SqeFutureShared<W> {
    /// The state after a poll by the task with this waker.
    pub open spec fn polled(self, waker: W) -> Self {
        if self.cqe is None {
            SqeFutureShared { waker: Some(waker), ..self }
        } else {
            self
        }
    }

    /// The state after the request completed.
    pub open spec fn completed(self, cqe: StrippedCqe) -> Self {
        SqeFutureShared { cqe: Some(cqe), ..self }
    }

    /// The state of a request that has neither completed nor been polled.
    pub fn new() -> (shared: Self)
        ensures
            shared.waker is None,
            shared.cqe is None,
    {
        SqeFutureShared { waker: None, cqe: None }
    }

    /// The completion, if there is one. Otherwise the waker takes the place of the one from the
    /// last poll.
    pub fn poll(&mut self, waker: W) -> (ready: Option<StrippedCqe>)
        ensures
            ready == old(self).cqe,
            *final(self) == old(self).polled(waker),
            final(self).cqe == old(self).cqe,
            old(self).cqe is None ==> final(self).waker == Some(waker),
            old(self).cqe is Some ==> final(self).waker == old(self).waker,
    {
        if self.cqe.is_none() {
            self.waker = Some(waker);
            return None;
        }
        self.cqe
    }

    /// Stores the completion and gives the waker of the last poll, which is to be woken.
    pub fn complete(&mut self, cqe: StrippedCqe) -> (waker: &W)
        requires
            old(self).waker is Some,
        ensures
            *final(self) == old(self).completed(cqe),
            final(self).cqe == Some(cqe),
            final(self).waker == old(self).waker,
            Some(*waker) == old(self).waker,
    {
        self.cqe = Some(cqe);
        self.waker.as_ref().unwrap()
    }
}

/// A submitted request that has not been awaited. `T` is the cell through which the state is
/// shared with the ring.
#[derive(Debug)]
#[must_use]
pub struct SqeFuture<T> {
    pub shared: Rc<T>,
}

/// Another handle on what `rc` points to, by `Rc::clone`, which leaves the value where it is.
#[verifier::external_body]
fn share<T>(rc: &Rc<T>) -> (other: Rc<T>)
    ensures
        other == *rc,
{
    Rc::clone(rc)
}

impl<T> Clone for SqeFuture<T> {
    fn clone(&self) -> (other: Self)
        ensures
            other == *self,
    {
        SqeFuture { shared: share(&self.shared) }
    }
}

impl<T> SqeFuture<T> {
    /// A future over a fresh cell.
    pub fn new(cell: T) -> (fut: Self)
        ensures
            *fut.shared == cell,
    {
        SqeFuture { shared: Rc::new(cell) }
    }

    /// Fills a request into a submission entry, which has none yet, and registers a future for its
    /// completion.
    pub fn prep_and_register<'a>(
        ring: &mut Ring<T>,
        sqe: &mut Sqe<'a>,
        prep: Prep<'a>,
        cell: T,
    ) -> (fut: Self)
        requires
            old(sqe).prep is None,
        ensures
            *fut.shared == cell,
            *final(sqe) == (Sqe { user_data: old(sqe).user_data, prep: Some(prep) }),
            final(ring)@ == old(ring)@.insert(old(sqe).user_data, fut.shared),
    {
        let fut = SqeFuture::new(cell);
        sqe.prep = Some(prep);
        ring.register_task(Task::new(sqe.user_data), share(&fut.shared));
        fut
    }

    /// Asks for nothing to be done.
    pub fn nop<'a>() -> (prep: Prep<'a>)
        ensures
            prep == Prep::Nop,
    {
        Prep::Nop
    }

    /// What the answer to [`SqeFuture::nop`] means.
    pub fn nop_result(cqe: StrippedCqe) -> (r: Result<(), Errno>)
        requires
            answers_nop(cqe),
        ensures
            r is Ok <==> cqe.res == 0,
            r matches Err(e) ==> e == errno_of(cqe),
    {
        if cqe.res != 0 {
            return Err(Errno::from_result(cqe.res));
        }
        Ok(())
    }

    /// Asks for a socket.
    pub fn socket<'a>(domain: i32, sock_type: i32, protocol: i32, flags: u32) -> (prep: Prep<'a>)
        ensures
            prep == (Prep::Socket { domain, sock_type, protocol, flags }),
    {
        Prep::Socket { domain, sock_type, protocol, flags }
    }

    /// What the answer to [`SqeFuture::socket`] means: the descriptor of the new socket.
    pub fn socket_result(cqe: StrippedCqe) -> (r: Result<i32, Errno>)
        requires
            answers_unflagged(cqe),
        ensures
            r is Ok <==> cqe.res >= 0,
            r matches Ok(fd) ==> fd == cqe.res,
            r matches Err(e) ==> e == errno_of(cqe),
    {
        if cqe.res < 0 {
            return Err(Errno::from_result(cqe.res));
        }
        Ok(cqe.res)
    }

    /// Asks for a socket to be connected to an address.
    pub fn connect<'a>(sockfd: i32, addr: SocketAddr) -> (prep: Prep<'a>)
        ensures
            prep == (Prep::Connect { fd: sockfd, addr, addrlen: SOCKADDR_STORAGE_SIZE }),
    {
        Prep::Connect { fd: sockfd, addr, addrlen: storage_size() }
    }

    /// What the answer to [`SqeFuture::connect`] means.
    pub fn connect_result(cqe: StrippedCqe) -> (r: Result<(), Errno>)
        requires
            answers_zero(cqe),
        ensures
            r is Ok <==> cqe.res >= 0,
            r matches Err(e) ==> e == errno_of(cqe),
    {
        if cqe.res < 0 {
            return Err(Errno::from_result(cqe.res));
        }
        Ok(())
    }

    /// Asks for a socket to be bound to a local address.
    pub fn bind<'a>(sockfd: i32, addr: SocketAddr) -> (prep: Prep<'a>)
        ensures
            prep == (Prep::Bind { fd: sockfd, addr, addrlen: SOCKADDR_STORAGE_SIZE }),
    {
        Prep::Bind { fd: sockfd, addr, addrlen: storage_size() }
    }

    /// What the answer to [`SqeFuture::bind`] means.
    pub fn bind_result(cqe: StrippedCqe) -> (r: Result<(), Errno>)
        requires
            answers_zero(cqe),
        ensures
            r is Ok <==> cqe.res >= 0,
            r matches Err(e) ==> e == errno_of(cqe),
    {
        if cqe.res < 0 {
            return Err(Errno::from_result(cqe.res));
        }
        Ok(())
    }

    /// Asks for bytes to be sent.
    pub fn send<'a>(sockfd: i32, buf: &'a [u8], flags: i32) -> (prep: Prep<'a>)
        ensures
            prep == (Prep::Send { fd: sockfd, buf, flags }),
    {
        Prep::Send { fd: sockfd, buf, flags }
    }

    /// What the answer to [`SqeFuture::send`] means: how many bytes were sent.
    pub fn send_result(cqe: StrippedCqe) -> (r: Result<usize, Errno>)
        requires
            answers_unflagged(cqe),
        ensures
            r is Ok <==> cqe.res >= 0,
            r matches Ok(n) ==> n == cqe.res,
            r matches Err(e) ==> e == errno_of(cqe),
    {
        if cqe.res < 0 {
            return Err(Errno::from_result(cqe.res));
        }
        Ok(cqe.res as usize)
    }

    /// Asks for bytes to be received into room for `len` bytes.
    pub fn recv<'a>(sockfd: i32, len: usize, flags: i32) -> (prep: Prep<'a>)
        ensures
            prep == (Prep::Recv { fd: sockfd, len, flags }),
    {
        Prep::Recv { fd: sockfd, len, flags }
    }

    /// What the answer to [`SqeFuture::recv`] means: how many bytes were received. The completion
    /// may say that the socket holds more.
    pub fn recv_result(cqe: StrippedCqe) -> (r: Result<usize, Errno>)
        requires
            answers_any(cqe),
        ensures
            r is Ok <==> cqe.res >= 0,
            r matches Ok(n) ==> n == cqe.res,
            r matches Err(e) ==> e == errno_of(cqe),
    {
        if cqe.res < 0 {
            return Err(Errno::from_result(cqe.res));
        }
        Ok(cqe.res as usize)
    }

    /// Asks for a descriptor to be closed.
    pub fn close<'a>(sockfd: i32) -> (prep: Prep<'a>)
        ensures
            prep == (Prep::Close { fd: sockfd }),
    {
        Prep::Close { fd: sockfd }
    }

    /// What the answer to [`SqeFuture::close`] means.
    pub fn close_result(cqe: StrippedCqe) -> (r: Result<(), Errno>)
        requires
            answers_unflagged(cqe),
        ensures
            r is Ok <==> cqe.res >= 0,
            r matches Err(e) ==> e == errno_of(cqe),
    {
        if cqe.res < 0 {
            return Err(Errno::from_result(cqe.res));
        }
        Ok(())
    }

    /// Asks for a socket to accept connections.
    pub fn listen<'a>(sockfd: i32, backlog: i32) -> (prep: Prep<'a>)
        ensures
            prep == (Prep::Listen { fd: sockfd, backlog }),
    {
        Prep::Listen { fd: sockfd, backlog }
    }

    /// What the answer to [`SqeFuture::listen`] means.
    pub fn listen_result(cqe: StrippedCqe) -> (r: Result<(), Errno>)
        requires
            answers_zero(cqe),
        ensures
            r is Ok <==> cqe.res >= 0,
            r matches Err(e) ==> e == errno_of(cqe),
    {
        if cqe.res < 0 {
            return Err(Errno::from_result(cqe.res));
        }
        Ok(())
    }

    /// Asks for a connection to be accepted, with room for any address of the peer.
    pub fn accept<'a>(sockfd: i32, flags: i32) -> (prep: Prep<'a>)
        ensures
            prep == (Prep::Accept { fd: sockfd, addrlen: SOCKADDR_STORAGE_SIZE, flags }),
    {
        Prep::Accept { fd: sockfd, addrlen: SOCKADDR_STORAGE_SIZE, flags }
    }

    /// What the answer to [`SqeFuture::accept`] means, with what the kernel wrote as the address
    /// of the peer: the descriptor of the connection, and that address. The address is there
    /// unless no connection was accepted.
    pub fn accept_result(cqe: StrippedCqe, addr: Option<SockaddrStorage>) -> (r: Result<
        (i32, SockaddrStorage),
        Errno,
    >)
        requires
            answers_any(cqe),
            cqe.res >= 0 ==> addr is Some,
        ensures
            r is Ok <==> cqe.res >= 0,
            r matches Ok(accepted) ==> accepted.0 == cqe.res && Some(accepted.1) == addr,
            r matches Err(e) ==> e == errno_of(cqe),
    {
        if cqe.res < 0 {
            return Err(Errno::from_result(cqe.res));
        }
        Ok((cqe.res, addr.unwrap()))
    }

    /// Asks for a socket option to be set.
    pub fn setsockopt<'a>(
        sockfd: i32,
        level: i32,
        optname: i32,
        optval: OptVal<'a>,
        optlen: i32,
    ) -> (prep: Prep<'a>)
        ensures
            prep == (Prep::CmdSock {
                cmd_op: SOCKET_URING_OP_SETSOCKOPT,
                fd: sockfd,
                level,
                optname,
                optval,
                optlen,
            }),
    {
        Prep::CmdSock {
            cmd_op: SOCKET_URING_OP_SETSOCKOPT,
            fd: sockfd,
            level,
            optname,
            optval,
            optlen,
        }
    }

    /// What the answer to [`SqeFuture::setsockopt`] means.
    pub fn setsockopt_result(cqe: StrippedCqe) -> (r: Result<(), Errno>)
        requires
            answers_zero(cqe),
        ensures
            r is Ok <==> cqe.res >= 0,
            r matches Err(e) ==> e == errno_of(cqe),
    {
        if cqe.res < 0 {
            return Err(Errno::from_result(cqe.res));
        }
        Ok(())
    }
}

/// Which completions the operations provide for: every error, and of the successes those without
/// flags, which for connecting, binding, listening and setting an option return zero. Receiving and
/// accepting provide for every success, and the operation that does nothing takes a positive result
/// for an error.
pub proof fn operations_provide_for_their_answers(prep: Prep<'_>, cqe: StrippedCqe)
    ensures
        cqe.res == i32::MIN ==> !prep.can_answer(cqe),
        i32::MIN < cqe.res < 0 ==> prep.can_answer(cqe),
        cqe.res >= 0 && (prep is Recv || prep is Accept) ==> prep.can_answer(cqe),
        cqe.res >= 0 && (prep is Socket || prep is Send || prep is Close) ==> (prep.can_answer(cqe)
            <==> cqe.flags@ == 0),
        cqe.res >= 0 && (prep is Connect || prep is Bind || prep is Listen || prep is CmdSock) ==> (
        prep.can_answer(cqe) <==> cqe.res == 0 && cqe.flags@ == 0),
        cqe.res > 0 && prep is Nop ==> prep.can_answer(cqe),
        cqe.res == 0 && prep is Nop ==> (prep.can_answer(cqe) <==> cqe.flags@ == 0),
        prep is Nop ==> (prep.can_answer(cqe) <==> answers_nop(cqe)),
        prep is Socket || prep is Send || prep is Close ==> (prep.can_answer(cqe)
            <==> answers_unflagged(cqe)),
        prep is Connect || prep is Bind || prep is Listen || prep is CmdSock ==> (prep.can_answer(
            cqe,
        ) <==> answers_zero(cqe)),
        prep is Recv || prep is Accept ==> (prep.can_answer(cqe) <==> answers_any(cqe)),
{
}

/// A request fails with the negated result as its error number.
pub proof fn errno_is_the_negated_result(cqe: StrippedCqe)
    requires
        cqe.res > i32::MIN,
    ensures
        errno_of(cqe).code == -cqe.res,
        cqe.res < 0 ==> errno_of(cqe).code > 0,
{
}

/// What a completed request answers is not lost: once the completion is stored, every later poll
/// gives it, and the task that polled last is the one that is woken.
pub proof fn completion_is_given_to_every_later_poll<W>(
    shared: SqeFutureShared<W>,
    last: W,
    cqe: StrippedCqe,
    later: W,
)
    requires
        shared.cqe is None,
    ensures
        shared.polled(last).completed(cqe).waker == Some(last),
        shared.polled(last).completed(cqe).cqe == Some(cqe),
        shared.polled(last).completed(cqe).polled(later) == shared.polled(last).completed(cqe),
{
}

/// Until its request completes, a future is pending, and only the waker of the last poll is kept.
pub proof fn last_poll_before_completion_counts<W>(
    shared: SqeFutureShared<W>,
    first: W,
    last: W,
)
    requires
        shared.cqe is None,
    ensures
        shared.polled(last).cqe is None,
        shared.polled(first).polled(last) == shared.polled(last),
{
}

/// From a request to its answer: a cell that is registered under the identifier of a request is
/// handed the completion that carries this identifier, whatever other requests are registered and
/// completed in between; it is then no longer registered, and a future over the cell's state is
/// ready with that completion.
pub proof fn completion_reaches_its_future<T, W>(
    map: Map<u64, Rc<T>>,
    id: u64,
    shared: Rc<T>,
    steps: Seq<RingStep<T>>,
    batch: Seq<IoUringCqe>,
    i: int,
    state: SqeFutureShared<W>,
    last: W,
    later: W,
)
    requires
        forall|k: int| 0 <= k < steps.len() ==> !concerns(#[trigger] steps[k], id),
        0 <= i < batch.len(),
        batch[i].user_data == id,
        state.cqe is None,
    ensures
        ({
            let now = after_steps(map.insert(id, shared), steps);
            let delivered = completions_of(now, batch)[i];
            &&& now.contains_key(id)
            &&& delivered.shared == shared
            &&& delivered.cqe == StrippedCqe::of(batch[i])
            &&& !left_after(now, batch).contains_key(id)
            &&& state.polled(last).completed(delivered.cqe).waker == Some(last)
            &&& state.polled(last).completed(delivered.cqe).polled(later).cqe == Some(
                StrippedCqe::of(batch[i]),
            )
        }),
{
    let registered = map.insert(id, shared);
    cell_stays_registered(registered, steps, id);
    batch_takes_out_its_requests(after_steps(registered, steps), batch, id);
}

} // verus!

//! TCP streams and listeners over submitted requests.

use vstd::pervasive::unreached;
use vstd::prelude::*;

use crate::abi::{AF_INET, IPPROTO_TCP, SOCKADDR_STORAGE_SIZE, SOCKET_URING_OP_SETSOCKOPT};
use crate::cqe::StrippedCqe;
use crate::errno::Errno;
use crate::net::{inet_family, tcp_protocol, SockaddrStorage, SocketAddr, SocketNumbers};
use crate::sqe::{answers_any, answers_unflagged, answers_zero, errno_of, OptVal, Prep, SqeFuture};

verus! {

/// The number of connections that may wait to be accepted.
pub const LISTEN_BACKLOG: i32 = 32;

/// The size in bytes of an integer socket option.
pub const INT_OPTION_SIZE: i32 = 4;

/// The request for a TCP socket over IPv4.
pub open spec fn tcp_socket_request(numbers: SocketNumbers) -> Prep<'static> {
    Prep::Socket {
        domain: AF_INET,
        sock_type: numbers.sock_stream,
        protocol: IPPROTO_TCP,
        flags: 0,
    }
}

/// Asks for a TCP socket over IPv4, on a machine with these numbers.
pub fn tcp_socket(numbers: SocketNumbers) -> (prep: Prep<'static>)
    ensures
        prep == tcp_socket_request(numbers),
        prep == (Prep::Socket {
            domain: AF_INET,
            sock_type: numbers.sock_stream,
            protocol: IPPROTO_TCP,
            flags: 0,
        }),
{
    SqeFuture::<()>::socket(inet_family(), numbers.sock_stream, tcp_protocol(), 0)
}

/// A TCP stream, known by the descriptor of its socket.
#[derive(Debug)]
pub struct TcpStream {
    sock: i32,
}

impl TcpStream {
    /// The descriptor of the stream's socket.
    pub closed spec fn sock(&self) -> i32 {
        self.sock
    }

    /// The stream over a socket.
    pub fn from_raw(sock: i32) -> (stream: Self)
        ensures
            stream.sock() == sock,
    {
        TcpStream { sock }
    }

    /// The descriptor of the stream's socket.
    pub fn as_raw_fd(&self) -> (sock: i32)
        ensures
            sock == self.sock(),
    {
        self.sock
    }

    /// Asks for the socket of a new stream. [`tcp_socket`] says what is asked for on a machine with
    /// given numbers; which machine this is is left open.
    pub fn new() -> (prep: Prep<'static>)
        ensures
            exists|numbers: SocketNumbers|
                numbers.possible() && prep == #[trigger] tcp_socket_request(numbers),
    {
        tcp_socket(SocketNumbers::of_this_machine())
    }

    /// The new stream, once its socket is there.
    pub fn new_result(cqe: StrippedCqe) -> (stream: Self)
        requires
            answers_unflagged(cqe),
            cqe.res >= 0,
        ensures
            stream.sock() == cqe.res,
    {
        TcpStream::from_raw(SqeFuture::<()>::socket_result(cqe).unwrap())
    }

    /// Asks for the stream to be connected to an address. [`SqeFuture::connect_result`] says what
    /// the answer means.
    pub fn connect(&self, addr: SocketAddr) -> (prep: Prep<'static>)
        ensures
            prep == (Prep::Connect { fd: self.sock(), addr, addrlen: SOCKADDR_STORAGE_SIZE }),
    {
        SqeFuture::<()>::connect(self.sock, addr)
    }

    /// Asks for bytes to be written. [`SqeFuture::send_result`] says what the answer means.
    pub fn write<'a>(&self, buf: &'a [u8]) -> (prep: Prep<'a>)
        ensures
            prep == (Prep::Send { fd: self.sock(), buf, flags: 0 }),
    {
        SqeFuture::<()>::send(self.sock, buf, 0)
    }

    /// Asks for bytes to be read into room for `len` bytes. [`SqeFuture::recv_result`] says what
    /// the answer means.
    pub fn read(&self, len: usize) -> (prep: Prep<'static>)
        ensures
            prep == (Prep::Recv { fd: self.sock(), len, flags: 0 }),
    {
        SqeFuture::<()>::recv(self.sock, len, 0)
    }
}

/// A TCP listener, known by the descriptor of its socket.
#[derive(Debug)]
pub struct TcpListener {
    sock: i32,
}

/// What happened since the binding of a listener last said what to do. Once there is a socket its
/// descriptor comes along.
#[derive(Debug, Clone, Copy)]
pub enum BindEvent {
    /// Nothing: the binding begins.
    Begin,
    /// The request for a socket completed.
    Opened(StrippedCqe),
    /// The request to set the option of the socket completed.
    OptionSet(i32, StrippedCqe),
    /// The request to bind the socket completed.
    Bound(i32, StrippedCqe),
    /// The request to listen on the socket completed.
    Listening(i32, StrippedCqe),
}

/// What is to be done next to bind a listener.
#[derive(Debug)]
pub enum BindAction {
    /// Submit this request.
    Submit(Prep<'static>),
    /// The listener is bound.
    Done(TcpListener),
    /// The binding failed. If there is a socket, it is to be closed.
    Fail { errno: Errno, close: Option<i32> },
}

impl BindEvent {
    /// The completion that the event brings.
    pub open spec fn cqe(self) -> Option<StrippedCqe> {
        match self {
            BindEvent::Begin => None,
            BindEvent::Opened(cqe) => Some(cqe),
            BindEvent::OptionSet(_, cqe) => Some(cqe),
            BindEvent::Bound(_, cqe) => Some(cqe),
            BindEvent::Listening(_, cqe) => Some(cqe),
        }
    }

    /// The descriptor of the socket, if there is one before the event.
    pub open spec fn sock(self) -> Option<i32> {
        match self {
            BindEvent::Begin => None,
            BindEvent::Opened(_) => None,
            BindEvent::OptionSet(sock, _) => Some(sock),
            BindEvent::Bound(sock, _) => Some(sock),
            BindEvent::Listening(sock, _) => Some(sock),
        }
    }

    /// Whether the completion can answer the request that was submitted.
    pub open spec fn is_answer(self) -> bool {
        match self {
            BindEvent::Begin => true,
            BindEvent::Opened(cqe) => answers_unflagged(cqe),
            BindEvent::OptionSet(_, cqe) => answers_zero(cqe),
            BindEvent::Bound(_, cqe) => answers_zero(cqe),
            BindEvent::Listening(_, cqe) => answers_zero(cqe),
        }
    }

    /// Whether the event brings a failure.
    pub open spec fn failed(self) -> bool {
        self.cqe() matches Some(cqe) && cqe.res < 0
    }

    /// Whether a request was submitted upon the event.
    pub open spec fn goes_on(self) -> bool {
        !self.failed() && self !is Listening
    }

    /// The event that follows when the request submitted upon this one completes.
    pub open spec fn next(self, cqe: StrippedCqe) -> BindEvent {
        match self {
            BindEvent::Begin => BindEvent::Opened(cqe),
            BindEvent::Opened(opened) => BindEvent::OptionSet(opened.res, cqe),
            BindEvent::OptionSet(sock, _) => BindEvent::Bound(sock, cqe),
            BindEvent::Bound(sock, _) => BindEvent::Listening(sock, cqe),
            BindEvent::Listening(_, _) => self,
        }
    }

    /// The event that follows when the request submitted upon this one completes.
    pub fn answered(self, cqe: StrippedCqe) -> (event: BindEvent)
        requires
            self.goes_on(),
        ensures
            event == self.next(cqe),
            self is Begin ==> event == BindEvent::Opened(cqe),
            self matches BindEvent::Opened(opened) ==> event == BindEvent::OptionSet(
                opened.res,
                cqe,
            ),
            self matches BindEvent::OptionSet(sock, _) ==> event == BindEvent::Bound(sock, cqe),
            self matches BindEvent::Bound(sock, _) ==> event == BindEvent::Listening(sock, cqe),
    {
        match self {
            BindEvent::Begin => BindEvent::Opened(cqe),
            BindEvent::Opened(opened) => BindEvent::OptionSet(opened.res, cqe),
            BindEvent::OptionSet(sock, _) => BindEvent::Bound(sock, cqe),
            BindEvent::Bound(sock, _) => BindEvent::Listening(sock, cqe),
            BindEvent::Listening(_, _) => self,
        }
    }
}

/// The request to let the address of a socket be bound again at once.
pub open spec fn reuse_address(numbers: SocketNumbers, sock: i32) -> Prep<'static> {
    Prep::CmdSock {
        cmd_op: SOCKET_URING_OP_SETSOCKOPT,
        fd: sock,
        level: numbers.sol_socket,
        optname: numbers.so_reuseaddr,
        optval: OptVal::Int(1),
        optlen: INT_OPTION_SIZE,
    }
}

impl TcpListener {
    /// The descriptor of the listener's socket.
    pub closed spec fn sock(&self) -> i32 {
        self.sock
    }

    /// The descriptor of the listener's socket.
    pub fn as_raw_fd(&self) -> (sock: i32)
        ensures
            sock == self.sock(),
    {
        self.sock
    }

    /// Whether this is what follows on an event when a listener is bound to an address, on a
    /// machine with these numbers.
    pub open spec fn follows(
        numbers: SocketNumbers,
        addr: SocketAddr,
        event: BindEvent,
        action: BindAction,
    ) -> bool {
        if event.failed() {
            action == (BindAction::Fail {
                errno: errno_of(event.cqe()->0),
                close: event.sock(),
            })
        } else {
            match event {
                BindEvent::Begin => action == BindAction::Submit(tcp_socket_request(numbers)),
                BindEvent::Opened(cqe) => action == BindAction::Submit(
                    reuse_address(numbers, cqe.res),
                ),
                BindEvent::OptionSet(sock, _) => action == BindAction::Submit(
                    (Prep::Bind { fd: sock, addr, addrlen: SOCKADDR_STORAGE_SIZE }),
                ),
                BindEvent::Bound(sock, _) => action == BindAction::Submit(
                    (Prep::Listen { fd: sock, backlog: LISTEN_BACKLOG }),
                ),
                BindEvent::Listening(sock, _) => action matches BindAction::Done(listener)
                    && listener.sock() == sock,
            }
        }
    }

    /// One step of binding a listener to an address. [`TcpListener::bind_with`] says what follows on
    /// a machine with given numbers; which machine this is is left open.
    pub fn bind(addr: SocketAddr, event: BindEvent) -> (action: BindAction)
        requires
            event.is_answer(),
        ensures
            exists|numbers: SocketNumbers|
                numbers.possible() && #[trigger] TcpListener::follows(
                    numbers,
                    addr,
                    event,
                    action,
                ),
            event matches BindEvent::Opened(opened) ==> (if opened.res < 0 {
                action == (BindAction::Fail { errno: Errno { code: -opened.res as i32 }, close: None })
            } else {
                &&& action matches BindAction::Submit(
                    Prep::CmdSock { cmd_op, fd, level, optname, optval, optlen },
                )
                &&& cmd_op == SOCKET_URING_OP_SETSOCKOPT
                &&& fd == opened.res
                &&& (level == 1 || level == 0xffff) && (optname == 2 || optname == 4)
                &&& optval == OptVal::Int(1)
                &&& optlen == 4
            }),
            event matches BindEvent::OptionSet(sock, cqe) ==> action == if cqe.res < 0 {
                BindAction::Fail { errno: Errno { code: -cqe.res as i32 }, close: Some(sock) }
            } else {
                BindAction::Submit((Prep::Bind { fd: sock, addr, addrlen: 128 }))
            },
            event matches BindEvent::Bound(sock, cqe) ==> action == if cqe.res < 0 {
                BindAction::Fail { errno: Errno { code: -cqe.res as i32 }, close: Some(sock) }
            } else {
                BindAction::Submit((Prep::Listen { fd: sock, backlog: 32 }))
            },
            event matches BindEvent::Listening(sock, cqe) ==> (if cqe.res < 0 {
                action == (BindAction::Fail {
                    errno: Errno { code: -cqe.res as i32 },
                    close: Some(sock),
                })
            } else {
                action matches BindAction::Done(listener) && listener.sock() == sock
            }),
    {
        TcpListener::bind_with(SocketNumbers::of_this_machine(), addr, event)
    }

    /// One step of binding a listener to an address, on a machine with these numbers. A socket is
    /// opened, its address is made reusable, it is bound and set to listen; the first failure ends
    /// the binding.
    pub fn bind_with(
        numbers: SocketNumbers,
        addr: SocketAddr,
        event: BindEvent,
    ) -> (action: BindAction)
        requires
            event.is_answer(),
        ensures
            TcpListener::follows(numbers, addr, event, action),
            event is Begin ==> action == BindAction::Submit(
                (Prep::Socket {
                    domain: AF_INET,
                    sock_type: numbers.sock_stream,
                    protocol: IPPROTO_TCP,
                    flags: 0,
                }),
            ),
            event matches BindEvent::Opened(opened) ==> (if opened.res < 0 {
                action == (BindAction::Fail { errno: Errno { code: -opened.res as i32 }, close: None })
            } else {
                &&& action matches BindAction::Submit(
                    Prep::CmdSock { cmd_op, fd, level, optname, optval, optlen },
                )
                &&& cmd_op == SOCKET_URING_OP_SETSOCKOPT
                &&& fd == opened.res
                &&& level == numbers.sol_socket && optname == numbers.so_reuseaddr
                &&& optval == OptVal::Int(1)
                &&& optlen == 4
            }),
            event matches BindEvent::OptionSet(sock, cqe) ==> action == if cqe.res < 0 {
                BindAction::Fail { errno: Errno { code: -cqe.res as i32 }, close: Some(sock) }
            } else {
                BindAction::Submit((Prep::Bind { fd: sock, addr, addrlen: 128 }))
            },
            event matches BindEvent::Bound(sock, cqe) ==> action == if cqe.res < 0 {
                BindAction::Fail { errno: Errno { code: -cqe.res as i32 }, close: Some(sock) }
            } else {
                BindAction::Submit((Prep::Listen { fd: sock, backlog: 32 }))
            },
            event matches BindEvent::Listening(sock, cqe) ==> (if cqe.res < 0 {
                action == (BindAction::Fail {
                    errno: Errno { code: -cqe.res as i32 },
                    close: Some(sock),
                })
            } else {
                action matches BindAction::Done(listener) && listener.sock() == sock
            }),
    {
        match event {
            BindEvent::Begin => BindAction::Submit(tcp_socket(numbers)),
            BindEvent::Opened(cqe) => match SqeFuture::<()>::socket_result(cqe) {
                Ok(sock) => BindAction::Submit(
                    SqeFuture::<()>::setsockopt(
                        sock,
                        numbers.sol_socket,
                        numbers.so_reuseaddr,
                        OptVal::Int(1),
                        INT_OPTION_SIZE,
                    ),
                ),
                Err(errno) => BindAction::Fail { errno, close: None },
            },
            BindEvent::OptionSet(sock, cqe) => match SqeFuture::<()>::setsockopt_result(cqe) {
                Ok(()) => BindAction::Submit(SqeFuture::<()>::bind(sock, addr)),
                Err(errno) => BindAction::Fail { errno, close: Some(sock) },
            },
            BindEvent::Bound(sock, cqe) => match SqeFuture::<()>::bind_result(cqe) {
                Ok(()) => BindAction::Submit(SqeFuture::<()>::listen(sock, LISTEN_BACKLOG)),
                Err(errno) => BindAction::Fail { errno, close: Some(sock) },
            },
            BindEvent::Listening(sock, cqe) => match SqeFuture::<()>::listen_result(cqe) {
                Ok(()) => BindAction::Done(TcpListener { sock }),
                Err(errno) => BindAction::Fail { errno, close: Some(sock) },
            },
        }
    }

    /// Asks for a connection to be accepted.
    pub fn accept(&self) -> (prep: Prep<'static>)
        ensures
            prep == (Prep::Accept { fd: self.sock(), addrlen: SOCKADDR_STORAGE_SIZE, flags: 0 }),
    {
        SqeFuture::<()>::accept(self.sock, 0)
    }

    /// What the answer to [`TcpListener::accept`] means, with what the kernel wrote as the
    /// address of the peer: the stream to the peer, and its address. The address of an accepted
    /// connection is an IPv4 address.
    pub fn accept_result(cqe: StrippedCqe, addr: Option<SockaddrStorage>) -> (r: Result<
        (TcpStream, SocketAddr),
        Errno,
    >)
        requires
            answers_any(cqe),
            cqe.res >= 0 ==> addr matches Some(SockaddrStorage::Inet { .. }),
        ensures
            r is Ok <==> cqe.res >= 0,
            r matches Ok(accepted) ==> {
                &&& accepted.0.sock() == cqe.res
                &&& accepted.1 matches SocketAddr::V4 { ip, port }
                &&& addr == Some(SockaddrStorage::Inet { ip, port })
            },
            r matches Err(e) ==> e == errno_of(cqe),
    {
        let (fd, storage) = match SqeFuture::<()>::accept_result(cqe, addr) {
            Ok(accepted) => accepted,
            Err(errno) => {
                return Err(errno);
            },
        };
        match storage {
            SockaddrStorage::Inet { ip, port } => Ok(
                (TcpStream::from_raw(fd), SocketAddr::V4 { ip, port }),
            ),
            _ => unreached(),
        }
    }
}

/// A listener is bound if all four requests succeed, on the socket that the first one opened.
pub proof fn listener_is_bound_when_all_succeed(
    numbers: SocketNumbers,
    addr: SocketAddr,
    opened: StrippedCqe,
    option_set: StrippedCqe,
    bound: StrippedCqe,
    listening: StrippedCqe,
    actions: Seq<BindAction>,
)
    requires
        actions.len() == 5,
        TcpListener::follows(numbers, addr, BindEvent::Begin, actions[0]),
        TcpListener::follows(numbers, addr, BindEvent::Begin.next(opened), actions[1]),
        TcpListener::follows(numbers, addr, BindEvent::Begin.next(opened).next(option_set), actions[2]),
        TcpListener::follows(
            numbers,
            addr,
            BindEvent::Begin.next(opened).next(option_set).next(bound),
            actions[3],
        ),
        TcpListener::follows(
            numbers,
            addr,
            BindEvent::Begin.next(opened).next(option_set).next(bound).next(listening),
            actions[4],
        ),
        opened.res >= 0,
        option_set.res >= 0,
        bound.res >= 0,
        listening.res >= 0,
    ensures
        actions[0] == BindAction::Submit(
            (Prep::Socket {
                domain: 2,
                sock_type: numbers.sock_stream,
                protocol: 6,
                flags: 0,
            }),
        ),
        actions[1] == BindAction::Submit(
            (Prep::CmdSock {
                cmd_op: SOCKET_URING_OP_SETSOCKOPT,
                fd: opened.res,
                level: numbers.sol_socket,
                optname: numbers.so_reuseaddr,
                optval: OptVal::Int(1),
                optlen: 4,
            }),
        ),
        actions[2] == BindAction::Submit((Prep::Bind { fd: opened.res, addr, addrlen: 128 })),
        actions[3] == BindAction::Submit((Prep::Listen { fd: opened.res, backlog: 32 })),
        SOCKET_URING_OP_SETSOCKOPT == 3,
        actions[4] matches BindAction::Done(listener) && listener.sock() == opened.res,
{
}

/// Every request of a binding after the first is made on the socket that the first one opened, and
/// so are the listener and the closing after a failure: whatever descriptor comes along with an
/// event is the one that the action speaks of, and the descriptor that comes along with the events
/// is the one that was opened.
pub proof fn binding_stays_on_its_socket(
    numbers: SocketNumbers,
    addr: SocketAddr,
    opened: StrippedCqe,
    sock: i32,
    answer: StrippedCqe,
    next_answer: StrippedCqe,
    action: BindAction,
)
    ensures
        BindEvent::Begin.next(opened) == BindEvent::Opened(opened),
        BindEvent::Opened(opened).next(answer) == BindEvent::OptionSet(opened.res, answer),
        BindEvent::OptionSet(sock, answer).next(next_answer) == BindEvent::Bound(
            sock,
            next_answer,
        ),
        BindEvent::Bound(sock, answer).next(next_answer) == BindEvent::Listening(
            sock,
            next_answer,
        ),
        opened.res >= 0 && TcpListener::follows(numbers, addr, BindEvent::Opened(opened), action)
            ==> action == BindAction::Submit(
            (Prep::CmdSock {
                cmd_op: SOCKET_URING_OP_SETSOCKOPT,
                fd: opened.res,
                level: numbers.sol_socket,
                optname: numbers.so_reuseaddr,
                optval: OptVal::Int(1),
                optlen: 4,
            }),
        ),
        answer.res >= 0 && TcpListener::follows(
            numbers,
            addr,
            BindEvent::OptionSet(sock, answer),
            action,
        ) ==> action == BindAction::Submit((Prep::Bind { fd: sock, addr, addrlen: 128 })),
        answer.res >= 0 && TcpListener::follows(
            numbers,
            addr,
            BindEvent::Bound(sock, answer),
            action,
        ) ==> action == BindAction::Submit((Prep::Listen { fd: sock, backlog: 32 })),
        answer.res >= 0 && TcpListener::follows(
            numbers,
            addr,
            BindEvent::Listening(sock, answer),
            action,
        ) ==> (action matches BindAction::Done(listener) && listener.sock() == sock),
{
}

/// A negative result of any request ends the binding with its error, the negated result; a socket
/// that was opened before is closed, and only then is there one to close.
pub proof fn negative_result_ends_the_binding(
    numbers: SocketNumbers,
    addr: SocketAddr,
    sock: i32,
    answer: StrippedCqe,
    action: BindAction,
)
    requires
        i32::MIN < answer.res < 0,
    ensures
        TcpListener::follows(numbers, addr, BindEvent::Opened(answer), action) ==> (
        action matches BindAction::Fail { errno, close } && errno.code == -answer.res
            && close is None),
        TcpListener::follows(numbers, addr, BindEvent::OptionSet(sock, answer), action) ==> (
        action matches BindAction::Fail { errno, close } && errno.code == -answer.res && close
            == Some(sock)),
        TcpListener::follows(numbers, addr, BindEvent::Bound(sock, answer), action) ==> (
        action matches BindAction::Fail { errno, close } && errno.code == -answer.res && close
            == Some(sock)),
        TcpListener::follows(numbers, addr, BindEvent::Listening(sock, answer), action) ==> (
        action matches BindAction::Fail { errno, close } && errno.code == -answer.res && close
            == Some(sock)),
{
}

/// A step of a binding can be taken with any answer that the kernel gives: with every error, and
/// with every success that sets no flags and, but for the request for a socket, returns zero.
pub proof fn binding_takes_every_answer(sock: i32, answer: StrippedCqe)
    ensures
        BindEvent::Begin.is_answer(),
        BindEvent::Opened(answer).is_answer() <==> answer.res > i32::MIN && (answer.res < 0
            || answer.flags@ == 0),
        BindEvent::OptionSet(sock, answer).is_answer() <==> answer.res > i32::MIN && (answer.res < 0
            || answer.res == 0 && answer.flags@ == 0),
        BindEvent::Bound(sock, answer).is_answer() <==> answer.res > i32::MIN && (answer.res < 0
            || answer.res == 0 && answer.flags@ == 0),
        BindEvent::Listening(sock, answer).is_answer() <==> answer.res > i32::MIN && (answer.res < 0
            || answer.res == 0 && answer.flags@ == 0),
        BindEvent::Begin.goes_on(),
        BindEvent::Opened(answer).goes_on() <==> answer.res >= 0,
        BindEvent::OptionSet(sock, answer).goes_on() <==> answer.res >= 0,
        BindEvent::Bound(sock, answer).goes_on() <==> answer.res >= 0,
        !BindEvent::Listening(sock, answer).goes_on(),
{
}

/// A request is submitted upon an event exactly if the binding goes on, and what completes it can
/// answer the request if it can answer what the next event expects.
pub proof fn binding_goes_on_with_a_request(
    numbers: SocketNumbers,
    addr: SocketAddr,
    event: BindEvent,
    action: BindAction,
    cqe: StrippedCqe,
)
    requires
        TcpListener::follows(numbers, addr, event, action),
    ensures
        action is Submit <==> event.goes_on(),
        action matches BindAction::Submit(prep) ==> (prep.can_answer(cqe) <==> event.next(
            cqe,
        ).is_answer()),
{
}

/// The first request that fails ends the binding with its error, and only a failed request does.
/// A socket that was opened is closed then.
pub proof fn failed_binding_closes_its_socket(
    numbers: SocketNumbers,
    addr: SocketAddr,
    event: BindEvent,
    action: BindAction,
)
    requires
        TcpListener::follows(numbers, addr, event, action),
    ensures
        action is Fail <==> event.failed(),
        action matches BindAction::Fail { errno, close } ==> {
            &&& errno == errno_of(event.cqe()->0)
            &&& close == event.sock()
            &&& close is None <==> event is Opened
        },
{
}

} // verus!

use nix::sys::socket::{AddressFamily, SockProtocol, SockType};
use uring_runtime::cqe::{CqeFlags, StrippedCqe};
use uring_runtime::errno::Errno;
use uring_runtime::net::{SockaddrStorage, SocketAddr, SocketNumbers};
use uring_runtime::sqe::{OptVal, Prep};
use uring_runtime::tcp::{tcp_socket, BindAction, BindEvent, TcpListener, TcpStream};

const LISTEN_ADDR: SocketAddr = SocketAddr::V4 { ip: [0, 0, 0, 0], port: 8081 };

fn cqe(res: i32) -> StrippedCqe {
    StrippedCqe { res, flags: CqeFlags::from(0) }
}

fn submitted(action: BindAction) -> Prep<'static> {
    match action {
        BindAction::Submit(prep) => prep,
        _ => panic!("a request was expected"),
    }
}

fn is_tcp_socket(prep: Prep<'_>) -> bool {
    match prep {
        Prep::Socket { domain, sock_type, protocol, flags } => {
            domain == AddressFamily::Inet as i32
                && sock_type == SockType::Stream as i32
                && protocol == SockProtocol::Tcp as i32
                && flags == 0
        }
        _ => false,
    }
}

fn bound_listener(sock: i32) -> TcpListener {
    match TcpListener::bind(LISTEN_ADDR, BindEvent::Listening(sock, cqe(0))) {
        BindAction::Done(listener) => listener,
        _ => panic!("a listener was expected"),
    }
}

#[test]
fn stream_opens_a_tcp_socket() {
    assert!(is_tcp_socket(TcpStream::new()));
    assert_eq!(TcpStream::new_result(cqe(11)).as_raw_fd(), 11);
}

#[test]
fn stream_requests_use_its_socket() {
    let stream = TcpStream::from_raw(12);
    match stream.connect(LISTEN_ADDR) {
        Prep::Connect { fd, addr, addrlen } => {
            assert_eq!((fd, addr, addrlen), (12, LISTEN_ADDR, 128));
        }
        _ => panic!("a connect was expected"),
    }
    match stream.write(b"hi") {
        Prep::Send { fd, buf, flags } => assert_eq!((fd, buf, flags), (12, &b"hi"[..], 0)),
        _ => panic!("a send was expected"),
    }
    assert!(matches!(stream.read(4096), Prep::Recv { fd: 12, len: 4096, flags: 0 }));
}

#[test]
fn listener_is_bound_in_four_requests() {
    assert!(is_tcp_socket(submitted(TcpListener::bind(LISTEN_ADDR, BindEvent::Begin))));
    match submitted(TcpListener::bind(LISTEN_ADDR, BindEvent::Opened(cqe(7)))) {
        Prep::CmdSock { cmd_op, fd, level, optname, optval, optlen } => {
            let option = (nix::libc::SOL_SOCKET, nix::libc::SO_REUSEADDR);
            assert_eq!((level, optname), option);
            assert_eq!((cmd_op, fd, optlen), (3, 7, 4));
            assert!(matches!(optval, OptVal::Int(1)));
        }
        _ => panic!("a socket command was expected"),
    }
    match submitted(TcpListener::bind(LISTEN_ADDR, BindEvent::OptionSet(7, cqe(0)))) {
        Prep::Bind { fd, addr, addrlen } => {
            assert_eq!((fd, addr, addrlen), (7, LISTEN_ADDR, 128));
        }
        _ => panic!("a bind was expected"),
    }
    let prep = submitted(TcpListener::bind(LISTEN_ADDR, BindEvent::Bound(7, cqe(0))));
    assert!(matches!(prep, Prep::Listen { fd: 7, backlog: 32 }));
    assert_eq!(bound_listener(7).as_raw_fd(), 7);
}

#[test]
fn failed_binding_gives_error_and_socket_to_close() {
    let events = [
        (BindEvent::Opened(cqe(-24)), 24, None),
        (BindEvent::OptionSet(7, cqe(-92)), 92, Some(7)),
        (BindEvent::Bound(7, cqe(-98)), 98, Some(7)),
        (BindEvent::Listening(7, cqe(-95)), 95, Some(7)),
    ];
    for (event, code, sock) in events {
        match TcpListener::bind(LISTEN_ADDR, event) {
            BindAction::Fail { errno, close } => {
                assert_eq!(errno, Errno { code });
                assert_eq!(close, sock);
            }
            _ => panic!("a failure was expected"),
        }
    }
}

#[test]
fn accepted_connection_has_its_peer_address() {
    let listener = bound_listener(3);
    assert!(matches!(listener.accept(), Prep::Accept { fd: 3, addrlen: 128, flags: 0 }));
    let peer = SockaddrStorage::Inet { ip: [10, 1, 2, 3], port: 999 };
    let (stream, addr) = TcpListener::accept_result(cqe(21), Some(peer)).unwrap();
    assert!(matches!(stream.read(1), Prep::Recv { fd: 21, .. }));
    assert_eq!(addr, SocketAddr::V4 { ip: [10, 1, 2, 3], port: 999 });
    let refused = TcpListener::accept_result(cqe(-103), None);
    assert_eq!(refused.err(), Some(Errno { code: 103 }));
}

#[test]
fn completions_lead_from_event_to_event() {
    let opened = BindEvent::Begin.answered(cqe(7));
    assert!(matches!(opened, BindEvent::Opened(c) if c == cqe(7)));
    let option_set = opened.answered(cqe(0));
    assert!(matches!(option_set, BindEvent::OptionSet(7, c) if c == cqe(0)));
    let bound = option_set.answered(cqe(0));
    assert!(matches!(bound, BindEvent::Bound(7, c) if c == cqe(0)));
    let listening = bound.answered(cqe(-95));
    assert!(matches!(listening, BindEvent::Listening(7, c) if c == cqe(-95)));
}

#[test]
fn numbers_of_the_machine_go_into_the_requests() {
    let numbers = SocketNumbers { sock_stream: 2, sol_socket: 0xffff, so_reuseaddr: 4 };
    let prep = tcp_socket(numbers);
    assert!(matches!(
        prep,
        Prep::Socket { domain: 2, sock_type: 2, protocol: 6, flags: 0 }
    ));
    let action = TcpListener::bind_with(numbers, LISTEN_ADDR, BindEvent::Opened(cqe(7)));
    assert!(matches!(
        submitted(action),
        Prep::CmdSock { fd: 7, level: 0xffff, optname: 4, .. }
    ));
    let here = SocketNumbers::of_this_machine();
    assert_eq!(here.sock_stream, SockType::Stream as i32);
    assert_eq!(here.sol_socket, nix::libc::SOL_SOCKET);
    assert_eq!(here.so_reuseaddr, nix::libc::SO_REUSEADDR);
}

use std::rc::Rc;

use nix::sys::socket::SockaddrLike;
use uring_runtime::cqe::{CqeFlags, StrippedCqe};
use uring_runtime::errno::Errno;
use uring_runtime::net::{SockaddrStorage, SocketAddr};
use uring_runtime::opcodes::{Nop, Send, SqeOp};
use uring_runtime::sqe::{OptVal, Prep, Sqe, SqeFuture, SqeFutureShared};

type Fut = SqeFuture<u8>;

const ADDR: SocketAddr = SocketAddr::V4 { ip: [127, 0, 0, 1], port: 8080 };

fn cqe(res: i32, flags: u32) -> StrippedCqe {
    StrippedCqe { res, flags: CqeFlags::from(flags) }
}

#[test]
fn last_waker_is_kept_and_woken() {
    let mut shared = SqeFutureShared::new();
    assert_eq!(shared.poll('a'), None);
    assert_eq!(shared.poll('b'), None);
    assert_eq!(*shared.complete(cqe(7, 0)), 'b');
    assert_eq!(shared.poll('c'), Some(cqe(7, 0)));
    assert_eq!(shared.poll('d'), Some(cqe(7, 0)));
    assert_eq!(shared.waker, Some('b'));
    let copy = shared.clone();
    assert_eq!((copy.waker, copy.cqe), (Some('b'), Some(cqe(7, 0))));
}

#[test]
fn cloned_future_shares_its_cell() {
    let fut = SqeFuture::new(3u8);
    assert!(Rc::ptr_eq(&fut.shared, &fut.clone().shared));
    assert_eq!(*fut.shared, 3);
}

#[test]
fn nop_fails_on_any_nonzero_result() {
    assert!(matches!(Fut::nop(), Prep::Nop));
    assert_eq!(Fut::nop_result(cqe(0, 0)), Ok(()));
    assert_eq!(Fut::nop_result(cqe(-22, 0)), Err(Errno { code: 22 }));
    assert_eq!(Fut::nop_result(cqe(3, 0)), Err(Errno { code: -3 }));
    assert!(Prep::Nop.accepts(&cqe(3, 1)));
    assert!(!Prep::Nop.accepts(&cqe(0, 1)));
    assert!(!Prep::Nop.accepts(&cqe(i32::MIN, 0)));
}

#[test]
fn socket_gives_a_descriptor() {
    let prep = Fut::socket(2, 1, 6, 9);
    assert!(matches!(prep, Prep::Socket { domain: 2, sock_type: 1, protocol: 6, flags: 9 }));
    assert_eq!(Fut::socket_result(cqe(5, 0)), Ok(5));
    assert_eq!(Fut::socket_result(cqe(0, 0)), Ok(0));
    assert_eq!(Fut::socket_result(cqe(-97, 0)), Err(Errno { code: 97 }));
    assert!(!prep.accepts(&cqe(5, 2)));
    assert!(prep.accepts(&cqe(-97, 2)));
}

#[test]
fn connect_and_bind_pass_the_whole_storage() {
    let size = nix::sys::socket::SockaddrStorage::size();
    assert_eq!(size, 128);
    match Fut::connect(4, ADDR) {
        Prep::Connect { fd, addr, addrlen } => assert_eq!((fd, addr, addrlen), (4, ADDR, size)),
        _ => panic!("a connect was expected"),
    }
    match Fut::bind(4, ADDR) {
        Prep::Bind { fd, addr, addrlen } => assert_eq!((fd, addr, addrlen), (4, ADDR, size)),
        _ => panic!("a bind was expected"),
    }
    assert_eq!(Fut::connect_result(cqe(0, 0)), Ok(()));
    assert_eq!(Fut::connect_result(cqe(-111, 0)), Err(Errno { code: 111 }));
    assert_eq!(Fut::bind_result(cqe(0, 0)), Ok(()));
    assert_eq!(Fut::bind_result(cqe(-98, 0)), Err(Errno { code: 98 }));
    assert!(!Fut::connect(4, ADDR).accepts(&cqe(1, 0)));
    assert!(!Fut::bind(4, ADDR).accepts(&cqe(0, 1)));
}

#[test]
fn send_and_recv_count_bytes() {
    match Fut::send(4, b"abc", 5) {
        Prep::Send { fd, buf, flags } => assert_eq!((fd, buf, flags), (4, &b"abc"[..], 5)),
        _ => panic!("a send was expected"),
    }
    assert!(matches!(Fut::recv(4, 100, 6), Prep::Recv { fd: 4, len: 100, flags: 6 }));
    assert_eq!(Fut::send_result(cqe(3, 0)), Ok(3));
    assert_eq!(Fut::send_result(cqe(-32, 0)), Err(Errno { code: 32 }));
    assert_eq!(Fut::recv_result(cqe(100, 4)), Ok(100));
    assert_eq!(Fut::recv_result(cqe(0, 0)), Ok(0));
    assert_eq!(Fut::recv_result(cqe(-104, 0)), Err(Errno { code: 104 }));
    assert!(!Fut::send(4, b"abc", 0).accepts(&cqe(3, 4)));
    assert!(Fut::recv(4, 100, 0).accepts(&cqe(3, 4)));
}

#[test]
fn close_and_listen_succeed_or_fail() {
    assert!(matches!(Fut::close(9), Prep::Close { fd: 9 }));
    assert!(matches!(Fut::listen(9, 32), Prep::Listen { fd: 9, backlog: 32 }));
    assert_eq!(Fut::close_result(cqe(0, 0)), Ok(()));
    assert_eq!(Fut::close_result(cqe(-9, 0)), Err(Errno { code: 9 }));
    assert_eq!(Fut::listen_result(cqe(0, 0)), Ok(()));
    assert_eq!(Fut::listen_result(cqe(-95, 0)), Err(Errno { code: 95 }));
    assert!(Fut::close(9).accepts(&cqe(1, 0)));
    assert!(!Fut::listen(9, 32).accepts(&cqe(1, 0)));
}

#[test]
fn accept_gives_descriptor_and_peer() {
    let peer = SockaddrStorage::Inet { ip: [10, 0, 0, 1], port: 5 };
    assert!(matches!(Fut::accept(3, 1), Prep::Accept { fd: 3, addrlen: 128, flags: 1 }));
    assert_eq!(Fut::accept_result(cqe(8, 0), Some(peer)), Ok((8, peer)));
    let peer = SockaddrStorage::Inet6 { ip: [1; 16], port: 6, flowinfo: 7, scope_id: 8 };
    assert_eq!(Fut::accept_result(cqe(9, 0), Some(peer)), Ok((9, peer)));
    let peer = SockaddrStorage::Other { bytes: [3; 128], len: 20 };
    assert_eq!(Fut::accept_result(cqe(10, 0), Some(peer)), Ok((10, peer)));
    assert_eq!(Fut::accept_result(cqe(-24, 0), None), Err(Errno { code: 24 }));
    assert!(Fut::accept(3, 1).accepts(&cqe(8, 4)));
}

#[test]
fn setsockopt_is_a_socket_command() {
    match Fut::setsockopt(3, 1, 2, OptVal::Int(1), 4) {
        Prep::CmdSock { cmd_op, fd, level, optname, optval, optlen } => {
            assert_eq!((cmd_op, fd, level, optname, optlen), (3, 3, 1, 2, 4));
            assert!(matches!(optval, OptVal::Int(1)));
        }
        _ => panic!("a socket command was expected"),
    }
    assert_eq!(Fut::setsockopt_result(cqe(0, 0)), Ok(()));
    assert_eq!(Fut::setsockopt_result(cqe(-92, 0)), Err(Errno { code: 92 }));
    assert!(!Fut::setsockopt(3, 1, 2, OptVal::Bytes(b"x"), 1).accepts(&cqe(1, 0)));
}

#[test]
fn operations_fill_entries() {
    let mut sqe = Sqe { user_data: 44, prep: None };
    let op = Nop::new();
    op.apply(&mut sqe);
    assert_eq!(sqe.user_data, 44);
    assert!(matches!(sqe.prep, Some(Prep::Nop)));

    let mut sqe = Sqe { user_data: 45, prep: None };
    let op = Send::new(6, b"hello", 7);
    op.apply(&mut sqe);
    assert_eq!(sqe.user_data, 45);
    match sqe.prep {
        Some(Prep::Send { fd, buf, flags }) => assert_eq!((fd, buf, flags), (6, &b"hello"[..], 7)),
        _ => panic!("a send was expected"),
    }
}

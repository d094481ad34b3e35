//! Socket addresses as plain values, and the numbers by which sockets are asked for.

use vstd::prelude::*;
use nix::sys::socket::{AddressFamily, SockProtocol, SockType, SockaddrLike};

use crate::abi::{AF_INET, IPPROTO_TCP, SOCKADDR_STORAGE_SIZE};

verus! {

/// The address of a socket.
#[derive(Debug, Clone, Copy, PartialEq, Eq, Hash)]
#[allow(inconsistent_fields)]
pub enum SocketAddr {
    V4 { ip: [u8; 4], port: u16 },
    V6 { ip: [u8; 16], port: u16, flowinfo: u32, scope_id: u32 },
}

/// An address of any family, as the kernel has filled it in.
#[derive(Debug, Clone, Copy, PartialEq, Eq, Hash)]
#[allow(inconsistent_fields)]
pub enum SockaddrStorage {
    /// An IPv4 address.
    Inet { ip: [u8; 4], port: u16 },
    /// An IPv6 address.
    Inet6 { ip: [u8; 16], port: u16, flowinfo: u32, scope_id: u32 },
    /// An address of another family: the storage, and how many bytes of it the address takes.
    Other { bytes: [u8; 128], len: u32 },
}

/// The numbers by which TCP sockets are opened and set up and which differ between machines.
#[derive(Debug, Clone, Copy, PartialEq, Eq, Hash, Structural)]
pub struct SocketNumbers {
    /// The type of stream sockets.
    pub sock_stream: i32,
    /// The level of options that belong to the socket itself.
    pub sol_socket: i32,
    /// The option that allows a local address to be bound again at once.
    pub so_reuseaddr: i32,
}

impl SocketNumbers {
    /// Whether each number, on its own, is the one that some Linux machine uses.
    pub open spec fn possible(self) -> bool {
        &&& self.sock_stream == 1 || self.sock_stream == 2
        &&& self.sol_socket == 1 || self.sol_socket == 0xffff
        &&& self.so_reuseaddr == 2 || self.so_reuseaddr == 4
    }

    /// The numbers of this machine.
    pub fn of_this_machine() -> (numbers: SocketNumbers)
        ensures
            numbers.possible(),
    {
        SocketNumbers {
            sock_stream: stream_type(),
            sol_socket: socket_level(),
            so_reuseaddr: reuse_address_option(),
        }
    }
}

/// The number of `nix::sys::socket::AddressFamily::Inet`. On Linux it is `AF_INET`.
#[verifier::external_body]
pub(crate) fn inet_family() -> (n: i32)
    ensures
        n == AF_INET,
{
    AddressFamily::Inet as i32
}

/// The number of `nix::sys::socket::SockType::Stream`. On Linux it is 2 on MIPS machines and 1 on
/// all others; which machine this is is left open.
#[verifier::external_body]
fn stream_type() -> (n: i32)
    ensures
        n == 1 || n == 2,
{
    SockType::Stream as i32
}

/// The number `SOL_SOCKET` of `nix::libc`. On Linux it is 0xffff on MIPS and SPARC machines and 1 on
/// all others; which machine this is is left open.
#[verifier::external_body]
fn socket_level() -> (n: i32)
    ensures
        n == 1 || n == 0xffff,
{
    nix::libc::SOL_SOCKET
}

/// The number `SO_REUSEADDR` of `nix::libc`. On Linux it is 4 on MIPS and SPARC machines and 2 on
/// all others; which machine this is is left open.
#[verifier::external_body]
fn reuse_address_option() -> (n: i32)
    ensures
        n == 2 || n == 4,
{
    nix::libc::SO_REUSEADDR
}

/// The number of `nix::sys::socket::SockProtocol::Tcp`. It is `IPPROTO_TCP`.
#[verifier::external_body]
pub(crate) fn tcp_protocol() -> (n: i32)
    ensures
        n == IPPROTO_TCP,
{
    SockProtocol::Tcp as i32
}

/// The size that `nix::sys::socket::SockaddrStorage::size` gives for the storage of any socket
/// address. On Linux the storage takes 128 bytes.
#[verifier::external_body]
pub(crate) fn storage_size() -> (n: u32)
    ensures
        n == SOCKADDR_STORAGE_SIZE,
{
    nix::sys::socket::SockaddrStorage::size()
}

} // verus!

//! The verified core of a single-threaded io_uring runtime: task identifiers, completion
//! decoding, the executor, the ring's bookkeeping, socket requests and the TCP protocol steps.
//!
//! Nothing here performs I/O. Each operation says what is to be handed to the kernel and what
//! follows from the kernel's reply; a driver performs the calls in between.

pub mod abi;
pub mod cqe;
pub mod errno;
pub mod executor;
pub mod handle;
pub mod net;
pub mod opcodes;
pub mod ring;
pub mod session;
pub mod sqe;
pub mod task;
pub mod tcp;

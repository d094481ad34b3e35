//! Operations as values, each of which can be filled into a submission entry.

use vstd::prelude::*;

use crate::sqe::{Prep, Sqe};

pub mod nop;
pub use nop::Nop;

pub mod send;
pub use send::Send;

verus! {

/// An operation that can be filled into a submission entry.
pub trait SqeOp {
    /// Whether this is the request that the operation makes.
    spec fn makes(&self, prep: Prep<'_>) -> bool;

    /// Fills the operation's request into a submission entry. The entry refers to the operation's
    /// data.
    fn apply<'a>(&'a self, sqe: &mut Sqe<'a>)
        ensures
            final(sqe).user_data == old(sqe).user_data,
            final(sqe).prep matches Some(prep) && self.makes(prep),
    ;
}

} // verus!

//! The operation that does nothing.

use vstd::prelude::*;

use crate::opcodes::SqeOp;
use crate::sqe::{Prep, Sqe};

verus! {

/// The operation that does nothing.
pub struct Nop;

impl Nop {
    /// The operation that does nothing.
    pub fn new() -> (op: Self)
        ensures
            op == Nop,
    {
        Nop
    }
}

impl SqeOp for Nop {
    open spec fn makes(&self, prep: Prep<'_>) -> bool {
        prep == Prep::Nop
    }

    fn apply<'a>(&'a self, sqe: &mut Sqe<'a>)
        ensures
            final(sqe).prep == Some(Prep::Nop),
    {
        sqe.prep = Some(Prep::Nop);
    }
}

} // verus!

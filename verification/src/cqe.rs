//! Completions: what the kernel reports of a finished request.

use vstd::prelude::*;
use vstd::std_specs::convert::FromSpecImpl;

use crate::abi::{
    IORING_CQE_F_BUFFER, IORING_CQE_F_BUF_MORE, IORING_CQE_F_MORE, IORING_CQE_F_NOTIF,
    IORING_CQE_F_SOCK_NONEMPTY,
};

verus! {

/// One piece of information that completion flags may carry.
#[derive(Debug, Clone, Copy, PartialEq, Eq, Hash, Structural)]
pub enum CqeFlag {
    BufferId(u16),
    More,
    SockNonEmpty,
    Notification,
    BufMore,
}

impl CqeFlag {
    /// The bit of the flags word that announces this piece of information.
    pub open spec fn mask(self) -> u32 {
        match self {
            CqeFlag::BufferId(_) => IORING_CQE_F_BUFFER,
            CqeFlag::More => IORING_CQE_F_MORE,
            CqeFlag::SockNonEmpty => IORING_CQE_F_SOCK_NONEMPTY,
            CqeFlag::Notification => IORING_CQE_F_NOTIF,
            CqeFlag::BufMore => IORING_CQE_F_BUF_MORE,
        }
    }
}

/// The flags word of a completion.
#[derive(Debug, Clone, Copy, PartialEq, Eq, Hash, Structural)]
pub struct CqeFlags(u32);

impl View for CqeFlags {
    type V = u32;

    closed spec fn view(&self) -> u32 {
        self.0
    }
}

impl CqeFlags {
    /// The flags with the given flags word.
    pub closed spec fn of_bits(bits: u32) -> CqeFlags {
        CqeFlags(bits)
    }

    /// Whether a bit of `mask` is set in the flags word.
    pub open spec fn has(self, mask: u32) -> bool {
        self@ & mask != 0
    }

    /// If the buffer bit is set, the upper sixteen bits are the identifier of the buffer that was
    /// chosen for the request.
    pub fn buffer_id(&self) -> (id: Option<u16>)
        ensures
            id is Some <==> self.has(IORING_CQE_F_BUFFER),
            id is Some <==> self@ % 2 == 1,
            id matches Some(n) ==> n == self@ / 0x1_0000,
    {
        proof {
            flags_are_binary_digits(*self);
        }
        if (self.0 & IORING_CQE_F_BUFFER) == 0 {
            return None;
        }
        let bits: u32 = self.0;
        assert(bits >> 16 == bits / 0x1_0000) by (bit_vector);
        assert(bits >> 16 <= 0xffff) by (bit_vector);
        Some((bits >> 16) as u16)
    }

    /// Whether the request will produce further completions.
    pub fn more(&self) -> (set: Option<()>)
        ensures
            set is Some <==> self.has(IORING_CQE_F_MORE),
            set is Some <==> (self@ / 2) % 2 == 1,
    {
        proof {
            flags_are_binary_digits(*self);
        }
        if (self.0 & IORING_CQE_F_MORE) == 0 {
            return None;
        }
        Some(())
    }

    /// Whether the socket had more data to read.
    pub fn sock_nonempty(&self) -> (set: Option<()>)
        ensures
            set is Some <==> self.has(IORING_CQE_F_SOCK_NONEMPTY),
            set is Some <==> (self@ / 4) % 2 == 1,
    {
        proof {
            flags_are_binary_digits(*self);
        }
        if (self.0 & IORING_CQE_F_SOCK_NONEMPTY) == 0 {
            return None;
        }
        Some(())
    }

    /// Whether the completion is a notification.
    pub fn notification(&self) -> (set: Option<()>)
        ensures
            set is Some <==> self.has(IORING_CQE_F_NOTIF),
            set is Some <==> (self@ / 8) % 2 == 1,
    {
        proof {
            flags_are_binary_digits(*self);
        }
        if (self.0 & IORING_CQE_F_NOTIF) == 0 {
            return None;
        }
        Some(())
    }

    /// Whether the buffer is only partly consumed.
    pub fn buf_more(&self) -> (set: Option<()>)
        ensures
            set is Some <==> self.has(IORING_CQE_F_BUF_MORE),
            set is Some <==> (self@ / 16) % 2 == 1,
    {
        proof {
            flags_are_binary_digits(*self);
        }
        if (self.0 & IORING_CQE_F_BUF_MORE) == 0 {
            return None;
        }
        Some(())
    }

    /// Whether the flags carry this piece of information. A buffer identifier counts as carried
    /// whichever buffer it names.
    pub fn contains(&self, flag: CqeFlag) -> (found: bool)
        ensures
            found == self.has(flag.mask()),
            found <==> match flag {
                CqeFlag::BufferId(_) => self@ % 2 == 1,
                CqeFlag::More => (self@ / 2) % 2 == 1,
                CqeFlag::SockNonEmpty => (self@ / 4) % 2 == 1,
                CqeFlag::Notification => (self@ / 8) % 2 == 1,
                CqeFlag::BufMore => (self@ / 16) % 2 == 1,
            },
    {
        match flag {
            CqeFlag::BufferId(_) => self.buffer_id().is_some(),
            CqeFlag::More => self.more().is_some(),
            CqeFlag::SockNonEmpty => self.sock_nonempty().is_some(),
            CqeFlag::Notification => self.notification().is_some(),
            CqeFlag::BufMore => self.buf_more().is_some(),
        }
    }

    /// Whether no bit is set.
    pub fn is_empty(&self) -> (empty: bool)
        ensures
            empty == (self@ == 0),
    {
        self.0 == 0
    }
}

impl FromSpecImpl<u32> for CqeFlags {
    open spec fn obeys_from_spec() -> bool {
        true
    }

    open spec fn from_spec(flags: u32) -> Self {
        CqeFlags::of_bits(flags)
    }
}

impl From<u32> for CqeFlags {
    fn from(flags: u32) -> (r: Self)
        ensures
            r@ == flags,
    {
        Self(flags)
    }
}

/// A completion as the kernel writes it.
#[derive(Debug, Clone, Copy, PartialEq, Eq, Hash, Structural)]
pub struct IoUringCqe {
    /// The word that was set on the request.
    pub user_data: u64,
    /// The result of the request.
    pub res: i32,
    /// The flags word.
    pub flags: u32,
}

/// A completion without the word that tells which request it belongs to.
#[derive(Debug, Clone, Copy, PartialEq, Eq, Hash, Structural)]
pub struct StrippedCqe {
    pub res: i32,
    pub flags: CqeFlags,
}

impl StrippedCqe {
    /// What is left of a completion.
    pub open spec fn of(cqe: IoUringCqe) -> StrippedCqe {
        StrippedCqe { res: cqe.res, flags: CqeFlags::of_bits(cqe.flags) }
    }
}

impl<'a> FromSpecImpl<&'a IoUringCqe> for StrippedCqe {
    open spec fn obeys_from_spec() -> bool {
        true
    }

    open spec fn from_spec(cqe: &'a IoUringCqe) -> Self {
        StrippedCqe::of(*cqe)
    }
}

impl<'a> From<&'a IoUringCqe> for StrippedCqe {
    fn from(cqe: &'a IoUringCqe) -> (r: Self)
        ensures
            r.res == cqe.res,
            r.flags@ == cqe.flags,
    {
        Self { res: cqe.res, flags: CqeFlags::from(cqe.flags) }
    }
}

/// Flags are determined by their flags word: each word has flags that read back as that word, and
/// no two flags share one.
pub proof fn flags_are_their_bits(bits: u32, a: CqeFlags, b: CqeFlags)
    ensures
        CqeFlags::of_bits(bits)@ == bits,
        a@ == b@ ==> a == b,
{
}

/// The flags word is read digit by digit in binary: the lowest digit tells of a buffer identifier,
/// the next ones of more completions, of a socket that holds more, of a notification and of a
/// partly consumed buffer. Which buffer is named plays no part.
pub proof fn flags_are_binary_digits(flags: CqeFlags)
    ensures
        forall|id: u16|
            flags.has(#[trigger] CqeFlag::BufferId(id).mask()) <==> flags@ % 2 == 1,
        flags.has(IORING_CQE_F_BUFFER) <==> flags@ % 2 == 1,
        flags.has(CqeFlag::More.mask()) <==> (flags@ / 2) % 2 == 1,
        flags.has(CqeFlag::SockNonEmpty.mask()) <==> (flags@ / 4) % 2 == 1,
        flags.has(CqeFlag::Notification.mask()) <==> (flags@ / 8) % 2 == 1,
        flags.has(CqeFlag::BufMore.mask()) <==> (flags@ / 16) % 2 == 1,
{
    let bits = flags@;
    assert(bits & 1 != 0 <==> bits % 2 == 1) by (bit_vector);
    assert(bits & 2 != 0 <==> (bits / 2) % 2 == 1) by (bit_vector);
    assert(bits & 4 != 0 <==> (bits / 4) % 2 == 1) by (bit_vector);
    assert(bits & 8 != 0 <==> (bits / 8) % 2 == 1) by (bit_vector);
    assert(bits & 16 != 0 <==> (bits / 16) % 2 == 1) by (bit_vector);
}

/// Stripping a completion takes away the word that tells its request and nothing else: result and
/// flags word stay, and completions that agree in these two strip to the same.
pub proof fn stripping_keeps_result_and_flags_word(cqe: IoUringCqe, other: IoUringCqe)
    ensures
        StrippedCqe::of(cqe).res == cqe.res,
        StrippedCqe::of(cqe).flags@ == cqe.flags,
        StrippedCqe::of(cqe) == StrippedCqe::of(other) <==> cqe.res == other.res && cqe.flags
            == other.flags,
{
    flags_are_their_bits(cqe.flags, CqeFlags::of_bits(cqe.flags), CqeFlags::of_bits(other.flags));
    flags_are_their_bits(other.flags, CqeFlags::of_bits(cqe.flags), CqeFlags::of_bits(other.flags));
}

/// Empty flags carry nothing.
pub proof fn empty_flags_carry_nothing(flags: CqeFlags, flag: CqeFlag)
    requires
        flags@ == 0,
    ensures
        !flags.has(flag.mask()),
{
    let mask = flag.mask();
    assert(0u32 & mask == 0) by (bit_vector);
}

} // verus!

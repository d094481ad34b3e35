//! The two ends of a conversation: each writes a message, reads a reply and reports, for ever.

use vstd::prelude::*;

use crate::net::SocketAddr;

verus! {

/// The message that each end writes.
pub const MESSAGE: &'static str = "Hello io_uring world!\n";

/// The room in bytes for a reply.
pub const REPLY_ROOM: usize = 4096;

/// What was last done, and succeeded.
#[derive(Debug, Clone, Copy, PartialEq, Eq, Structural)]
pub enum Done {
    /// Nothing: the conversation begins.
    Nothing,
    /// The client's stream is open.
    Opened,
    /// The server's listener is bound.
    Bound,
    /// The stream to the other end stands.
    Linked,
    /// A message was written: this many bytes of it.
    Written(usize),
    /// A reply was read: this many bytes.
    Read(usize),
    /// A round was reported.
    Reported,
}

/// What is to be done next.
#[derive(Debug, Clone, Copy)]
pub enum Action {
    /// Open a stream.
    Open,
    /// Connect the stream to this address.
    Connect(SocketAddr),
    /// Bind a listener to this address.
    Bind(SocketAddr),
    /// Accept a connection as the stream.
    Accept,
    /// Start the clock and write this to the stream.
    Write(&'static str),
    /// Read from the stream into room for this many bytes.
    Read(usize),
    /// Report how long the round with this number took.
    Report(usize),
}

/// Whether a round begins after this.
pub open spec fn round_begins(done: Done) -> bool {
    done is Linked || done is Reported
}

/// The number of rounds begun after this, if `count` were begun before.
pub open spec fn rounds_after(count: int, done: Done) -> int {
    if round_begins(done) {
        count + 1
    } else {
        count
    }
}

/// The number of rounds begun in the course of a conversation.
pub open spec fn rounds_in(dones: Seq<Done>) -> int
    decreases dones.len(),
{
    if dones.len() == 0 {
        0
    } else {
        rounds_after(rounds_in(dones.drop_last()), dones.last())
    }
}

/// The number of reports made in the course of a conversation.
pub open spec fn reports_in(dones: Seq<Done>) -> int
    decreases dones.len(),
{
    if dones.len() == 0 {
        0
    } else {
        reports_in(dones.drop_last()) + if dones.last() is Reported {
            1int
        } else {
            0
        }
    }
}

/// What is done in a conversation once the stream stands, in the round with number `round`.
pub open spec fn exchange_action(round: int, done: Done) -> Action {
    match done {
        Done::Written(_) => Action::Read(REPLY_ROOM),
        Done::Read(_) => Action::Report(round as usize),
        _ => Action::Write(MESSAGE),
    }
}

/// What the client does after this, with `count` rounds begun before.
pub open spec fn client_action(addr: SocketAddr, count: int, done: Done) -> Action {
    match done {
        Done::Nothing => Action::Open,
        Done::Opened => Action::Connect(addr),
        _ => exchange_action(rounds_after(count, done), done),
    }
}

/// What the server does after this, with `count` rounds begun before.
pub open spec fn server_action(addr: SocketAddr, count: int, done: Done) -> Action {
    match done {
        Done::Nothing => Action::Bind(addr),
        Done::Bound => Action::Accept,
        _ => exchange_action(rounds_after(count, done), done),
    }
}

/// One step of a conversation over the stream. `count` is the number of rounds begun.
fn exchange(count: &mut usize, done: Done) -> (action: Action)
    requires
        round_begins(done) || done is Written || done is Read,
        round_begins(done) ==> *old(count) < usize::MAX,
    ensures
        *final(count) == rounds_after(*old(count) as int, done),
        action == exchange_action(*final(count) as int, done),
        done is Linked || done is Reported ==> {
            &&& action == Action::Write(MESSAGE)
            &&& *final(count) == *old(count) + 1
        },
        done is Written ==> action == Action::Read(REPLY_ROOM) && *final(count) == *old(count),
        done is Read ==> action == Action::Report(*old(count)) && *final(count) == *old(count),
{
    match done {
        Done::Written(_) => Action::Read(REPLY_ROOM),
        Done::Read(_) => Action::Report(*count),
        _ => {
            *count = *count + 1;
            Action::Write(MESSAGE)
        },
    }
}

/// One step of the client's end: it opens a stream, connects it and begins the rounds.
pub fn client(addr: SocketAddr, count: &mut usize, done: Done) -> (action: Action)
    requires
        done !is Bound,
        round_begins(done) ==> *old(count) < usize::MAX,
    ensures
        *final(count) == rounds_after(*old(count) as int, done),
        action == match done {
            Done::Nothing => Action::Open,
            Done::Opened => Action::Connect(addr),
            _ => exchange_action(*final(count) as int, done),
        },
        action == client_action(addr, *old(count) as int, done),
        done is Nothing ==> action == Action::Open && *final(count) == *old(count),
        done is Opened ==> action == Action::Connect(addr) && *final(count) == *old(count),
        done is Linked || done is Reported ==> {
            &&& action == Action::Write(MESSAGE)
            &&& *final(count) == *old(count) + 1
        },
        done is Written ==> action == Action::Read(REPLY_ROOM) && *final(count) == *old(count),
        done is Read ==> action == Action::Report(*old(count)) && *final(count) == *old(count),
{
    match done {
        Done::Nothing => Action::Open,
        Done::Opened => Action::Connect(addr),
        _ => exchange(count, done),
    }
}

/// One step of the server's end: it binds a listener, accepts one connection and begins the
/// rounds.
pub fn server(addr: SocketAddr, count: &mut usize, done: Done) -> (action: Action)
    requires
        done !is Opened,
        round_begins(done) ==> *old(count) < usize::MAX,
    ensures
        *final(count) == rounds_after(*old(count) as int, done),
        action == match done {
            Done::Nothing => Action::Bind(addr),
            Done::Bound => Action::Accept,
            _ => exchange_action(*final(count) as int, done),
        },
        action == server_action(addr, *old(count) as int, done),
        done is Nothing ==> action == Action::Bind(addr) && *final(count) == *old(count),
        done is Bound ==> action == Action::Accept && *final(count) == *old(count),
        done is Linked || done is Reported ==> {
            &&& action == Action::Write(MESSAGE)
            &&& *final(count) == *old(count) + 1
        },
        done is Written ==> action == Action::Read(REPLY_ROOM) && *final(count) == *old(count),
        done is Read ==> action == Action::Report(*old(count)) && *final(count) == *old(count),
{
    match done {
        Done::Nothing => Action::Bind(addr),
        Done::Bound => Action::Accept,
        _ => exchange(count, done),
    }
}

/// Every round is a write, a read and a report, whatever its number and at either end: a round
/// begins with the message when the stream stands and after every report, a reply is read after
/// every write, and after every read the round that was begun last is reported.
pub proof fn every_round_is_write_read_report(
    addr: SocketAddr,
    count: int,
    written: usize,
    read: usize,
)
    ensures
        client_action(addr, count, Done::Linked) == Action::Write(MESSAGE),
        client_action(addr, count, Done::Reported) == Action::Write(MESSAGE),
        client_action(addr, count, Done::Written(written)) == Action::Read(REPLY_ROOM),
        client_action(addr, count, Done::Read(read)) == Action::Report(count as usize),
        server_action(addr, count, Done::Linked) == Action::Write(MESSAGE),
        server_action(addr, count, Done::Reported) == Action::Write(MESSAGE),
        server_action(addr, count, Done::Written(written)) == Action::Read(REPLY_ROOM),
        server_action(addr, count, Done::Read(read)) == Action::Report(count as usize),
        rounds_after(count, Done::Linked) == count + 1,
        rounds_after(count, Done::Reported) == count + 1,
        rounds_after(count, Done::Written(written)) == count,
        rounds_after(count, Done::Read(read)) == count,
        REPLY_ROOM == 4096,
        MESSAGE@ == "Hello io_uring world!\n"@,
{
}

/// In a conversation over a stream that was linked once, what is done after a read is to report
/// with the number of reports made before plus one, at either end.
pub proof fn report_after_read_has_the_next_number(
    addr: SocketAddr,
    dones: Seq<Done>,
    linked: int,
    read: usize,
)
    requires
        0 <= linked < dones.len(),
        forall|i: int| 0 <= i < dones.len() ==> (#[trigger] dones[i] is Linked <==> i == linked),
    ensures
        client_action(addr, rounds_in(dones), Done::Read(read)) == Action::Report(
            (reports_in(dones) + 1) as usize,
        ),
        server_action(addr, rounds_in(dones), Done::Read(read)) == Action::Report(
            (reports_in(dones) + 1) as usize,
        ),
{
    reports_are_numbered_from_one(dones, linked);
}

/// Whether this is what has been done once an action succeeded.
pub open spec fn comes_of(action: Action, done: Done) -> bool {
    match action {
        Action::Open => done is Opened,
        Action::Connect(_) => done is Linked,
        Action::Bind(_) => done is Bound,
        Action::Accept => done is Linked,
        Action::Write(_) => done is Written,
        Action::Read(_) => done is Read,
        Action::Report(_) => done is Reported,
    }
}

/// Whether these are the actions of one end, the server's if `listen` holds, in a conversation in
/// which every action succeeds. `dones` holds what was done before each action.
pub open spec fn is_conversation(
    listen: bool,
    addr: SocketAddr,
    dones: Seq<Done>,
    actions: Seq<Action>,
) -> bool {
    &&& dones.len() == actions.len()
    &&& dones.len() > 0 ==> dones[0] is Nothing
    &&& forall|i: int|
        0 <= i < actions.len() ==> #[trigger] actions[i] == if listen {
            server_action(addr, rounds_in(dones.take(i)), dones[i])
        } else {
            client_action(addr, rounds_in(dones.take(i)), dones[i])
        }
    &&& forall|i: int| 0 < i < dones.len() ==> comes_of(actions[i - 1], #[trigger] dones[i])
}

/// A whole conversation, as long as it lasts: the client opens a stream and connects it to the
/// address, the server binds a listener to the address and accepts a connection; from then on each
/// end writes the message, reads a reply and reports the round, over and over, and the rounds are
/// numbered from one.
pub proof fn conversation_runs_in_rounds(
    listen: bool,
    addr: SocketAddr,
    dones: Seq<Done>,
    actions: Seq<Action>,
    i: int,
)
    requires
        is_conversation(listen, addr, dones, actions),
        0 <= i < actions.len(),
    ensures
        i == 0 && !listen ==> actions[i] == Action::Open,
        i == 1 && !listen ==> actions[i] == Action::Connect(addr),
        i == 0 && listen ==> actions[i] == Action::Bind(addr),
        i == 1 && listen ==> actions[i] == Action::Accept,
        i >= 2 && (i - 2) % 3 == 0 ==> actions[i] == Action::Write(MESSAGE),
        i >= 2 && (i - 2) % 3 == 1 ==> actions[i] == Action::Read(REPLY_ROOM),
        i >= 2 && (i - 2) % 3 == 2 ==> actions[i] == Action::Report(((i - 2) / 3 + 1) as usize),
{
    rounds_begun_so_far(listen, addr, dones, actions, i);
}

/// Where a conversation stands after its first steps.
proof fn rounds_begun_so_far(
    listen: bool,
    addr: SocketAddr,
    dones: Seq<Done>,
    actions: Seq<Action>,
    i: int,
)
    requires
        is_conversation(listen, addr, dones, actions),
        0 <= i < actions.len(),
    ensures
        rounds_in(dones.take(i + 1)) == if i < 2 {
            0
        } else {
            (i - 2) / 3 + 1
        },
        i == 0 && !listen ==> actions[i] == Action::Open,
        i == 1 && !listen ==> actions[i] == Action::Connect(addr),
        i == 0 && listen ==> actions[i] == Action::Bind(addr),
        i == 1 && listen ==> actions[i] == Action::Accept,
        i >= 2 && (i - 2) % 3 == 0 ==> actions[i] == Action::Write(MESSAGE),
        i >= 2 && (i - 2) % 3 == 1 ==> actions[i] == Action::Read(REPLY_ROOM),
        i >= 2 && (i - 2) % 3 == 2 ==> actions[i] == Action::Report(((i - 2) / 3 + 1) as usize),
    decreases i,
{
    let before = dones.take(i);
    let now = dones.take(i + 1);
    assert(now.drop_last() =~= before);
    assert(now.last() == dones[i]);
    assert(rounds_in(now) == rounds_after(rounds_in(before), dones[i]));
    assert(actions[i] == if listen {
        server_action(addr, rounds_in(before), dones[i])
    } else {
        client_action(addr, rounds_in(before), dones[i])
    });
    if i == 0 {
        assert(before =~= Seq::<Done>::empty());
    } else {
        rounds_begun_so_far(listen, addr, dones, actions, i - 1);
        assert(comes_of(actions[i - 1], dones[i]));
    }
}

/// Rounds are numbered from one: in a conversation over a stream that was linked once, the round
/// that is reported next has the number of reports made before it plus one.
pub proof fn reports_are_numbered_from_one(dones: Seq<Done>, linked: int)
    requires
        0 <= linked < dones.len(),
        forall|i: int| 0 <= i < dones.len() ==> (#[trigger] dones[i] is Linked <==> i == linked),
    ensures
        rounds_in(dones) == reports_in(dones) + 1,
{
    rounds_follow_reports(dones, linked);
}

/// Rounds and reports run together, apart from the round that the link begins.
proof fn rounds_follow_reports(dones: Seq<Done>, linked: int)
    requires
        forall|i: int| 0 <= i < dones.len() ==> (#[trigger] dones[i] is Linked <==> i == linked),
        0 <= linked,
    ensures
        rounds_in(dones) == reports_in(dones) + if linked < dones.len() {
            1int
        } else {
            0
        },
    decreases dones.len(),
{
    if dones.len() > 0 {
        let before = dones.drop_last();
        assert(forall|i: int| 0 <= i < before.len() ==> #[trigger] before[i] == dones[i]);
        rounds_follow_reports(before, linked);
        assert(dones.last() == dones[dones.len() - 1]);
    }
}

} // verus!

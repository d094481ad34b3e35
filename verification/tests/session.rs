use uring_runtime::net::SocketAddr;
use uring_runtime::session::{client, server, Action, Done};

const PEER: SocketAddr = SocketAddr::V4 { ip: [127, 0, 0, 1], port: 8080 };

#[test]
fn client_connects_and_exchanges() {
    let mut count = 0;
    assert!(matches!(client(PEER, &mut count, Done::Nothing), Action::Open));
    match client(PEER, &mut count, Done::Opened) {
        Action::Connect(addr) => assert_eq!(addr, PEER),
        _ => panic!("a connect was expected"),
    }
    for round in 1..4 {
        let done = if round == 1 { Done::Linked } else { Done::Reported };
        match client(PEER, &mut count, done) {
            Action::Write(message) => assert_eq!(message, "Hello io_uring world!\n"),
            _ => panic!("a write was expected"),
        }
        assert!(matches!(client(PEER, &mut count, Done::Written(22)), Action::Read(4096)));
        match client(PEER, &mut count, Done::Read(22)) {
            Action::Report(number) => assert_eq!(number, round),
            _ => panic!("a report was expected"),
        }
    }
}

#[test]
fn server_accepts_and_exchanges() {
    let mut count = 0;
    match server(PEER, &mut count, Done::Nothing) {
        Action::Bind(addr) => assert_eq!(addr, PEER),
        _ => panic!("a bind was expected"),
    }
    assert!(matches!(server(PEER, &mut count, Done::Bound), Action::Accept));
    assert_eq!(count, 0);
    assert!(matches!(server(PEER, &mut count, Done::Linked), Action::Write(_)));
    assert!(matches!(server(PEER, &mut count, Done::Written(0)), Action::Read(4096)));
    assert!(matches!(server(PEER, &mut count, Done::Read(0)), Action::Report(1)));
    assert!(matches!(server(PEER, &mut count, Done::Reported), Action::Write(_)));
    assert_eq!(count, 2);
}

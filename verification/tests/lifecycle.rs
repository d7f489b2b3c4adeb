use netperf::client::server_address;
use netperf::common::control::{
    ClientMessage, NetperfError, ServerError, ServerMessage, State, StreamStats, TestResults,
};
use netperf::common::data::{ClientOpts, Direction, Role, TestParameters};
use netperf::common::perf_test::PerfTest;
use netperf::controller::{
    expect_client_results, expect_server_results, ControllerAction, TestController,
};
use netperf::server::{
    admit_connection, check_stream_cookie, read_cookie, read_test_parameters, Admission,
};
use std::collections::HashMap;

fn opts(bidir: bool, reverse: bool, parallel: u16, length: Option<usize>) -> ClientOpts {
    ClientOpts {
        client: Some("::1".to_owned()),
        bidir,
        reverse,
        time: 10,
        parallel,
        length,
        no_delay: false,
        socket_buffers: None,
    }
}

fn params(direction: Direction, parallel: u16) -> TestParameters {
    let o = match direction {
        Direction::ClientToServer => opts(false, false, parallel, None),
        Direction::ServerToClient => opts(false, true, parallel, None),
        Direction::Bidirectional => opts(true, true, parallel, None),
    };
    TestParameters::from_opts(&o, 2 * 1024 * 1024)
}

#[test]
fn parameters_from_options() {
    let p = TestParameters::from_opts(&opts(true, true, 3, Some(1000)), 77);
    assert_eq!(p.direction, Direction::Bidirectional);
    assert_eq!(p.block_size, 1000);
    assert_eq!(p.parallel, 3);
    assert_eq!(p.time_seconds, 10);
    assert_eq!(p.omit_seconds, 0);
    assert_eq!(p.client_version, "0.2.0");
    let p = TestParameters::from_opts(&opts(false, true, 1, None), 77);
    assert_eq!(p.direction, Direction::ServerToClient);
    assert_eq!(p.block_size, 77);
    let p = TestParameters::from_opts(&opts(false, false, 1, None), 77);
    assert_eq!(p.direction, Direction::ClientToServer);
}

#[test]
fn stream_counts_per_role() {
    let c = PerfTest::new(None, "k".to_owned(), Role::Client, params(Direction::ClientToServer, 4));
    assert_eq!((c.num_send_streams, c.num_receive_streams), (4, 0));
    let s = PerfTest::new(None, "k".to_owned(), Role::Server, params(Direction::ClientToServer, 4));
    assert_eq!((s.num_send_streams, s.num_receive_streams), (0, 4));
    let c = PerfTest::new(None, "k".to_owned(), Role::Client, params(Direction::Bidirectional, 2));
    assert_eq!((c.num_send_streams, c.num_receive_streams), (2, 2));
    assert_eq!(c.total_streams(), 4);
    assert!(matches!(c.state, State::TestStart));
}

#[test]
fn every_stream_has_one_sender() {
    for direction in [Direction::ClientToServer, Direction::ServerToClient, Direction::Bidirectional] {
        let mut c = PerfTest::new(None, "k".to_owned(), Role::Client, params(direction, 3));
        let mut s = PerfTest::new(None, "k".to_owned(), Role::Server, params(direction, 3));
        assert_eq!(c.total_streams(), s.total_streams());
        for i in 0..c.total_streams() {
            let a = c.register_stream();
            let b = s.register_stream();
            assert_eq!(a.id, i);
            assert_eq!(b.id, i);
            assert_ne!(a.is_sending, b.is_sending);
        }
    }
}

#[test]
fn server_syncs_state_client_does_not() {
    let s = PerfTest::new(None, "k".to_owned(), Role::Server, params(Direction::ClientToServer, 1));
    assert!(matches!(s.sync_message(&State::Running), Some(ServerMessage::SetState(State::Running))));
    let c = PerfTest::new(None, "k".to_owned(), Role::Client, params(Direction::ClientToServer, 1));
    assert!(c.sync_message(&State::Running).is_none());
}

#[test]
fn server_controller_walks_the_test() {
    let test = PerfTest::new(None, "cookie".to_owned(), Role::Server, params(Direction::ClientToServer, 2));
    let mut ctl = TestController::new(test);
    match ctl.next_action() {
        ControllerAction::SetState(State::CreateStreams { cookie }) => {
            assert_eq!(cookie, "cookie");
            ctl.test.set_state(State::CreateStreams { cookie });
        }
        other => panic!("unexpected {:?}", other),
    }
    assert!(matches!(ctl.next_action(), ControllerAction::Wait));
    let (a, next) = ctl.accept_stream();
    assert_eq!(a.id, 0);
    assert!(!a.is_sending);
    assert!(next.is_none());
    let (a, next) = ctl.accept_stream();
    assert_eq!(a.id, 1);
    assert!(matches!(next, Some(State::Running)));
    ctl.test.set_state(State::Running);
    assert!(matches!(ctl.next_action(), ControllerAction::StartLoad));
    assert!(matches!(ctl.next_action(), ControllerAction::Wait));
    let stats = StreamStats { sender: false, duration_millis: 10000, bytes_transferred: 42 };
    assert!(ctl.on_stream_terminated(0, Some(stats)).is_none());
    // a stream that is not registered (any more) records nothing
    assert!(ctl.on_stream_terminated(0, Some(stats)).is_none());
    assert!(matches!(ctl.on_stream_terminated(1, None), Some(State::ExchangeResults)));
    assert_eq!(ctl.stream_results.len(), 1);
    assert_eq!(ctl.stream_results.get(&0), Some(&stats));
    ctl.test.set_state(State::ExchangeResults);
    assert!(matches!(ctl.next_action(), ControllerAction::FinishTest));
    let results = ctl.collect_test_result(vec![]);
    assert_eq!(results.streams.len(), 1);
}

#[test]
fn client_controller_follows_the_server() {
    let test = PerfTest::new(
        Some("::1:5201".to_owned()),
        "cookie".to_owned(),
        Role::Client,
        params(Direction::ServerToClient, 2),
    );
    let mut ctl = TestController::new(test);
    assert!(matches!(ctl.next_action(), ControllerAction::Wait));
    let r = ctl.process_server_message(Ok(ServerMessage::SetState(State::CreateStreams {
        cookie: "cookie".to_owned(),
    })));
    assert!(matches!(r, Ok(None)));
    assert!(matches!(ctl.next_action(), ControllerAction::CreateStreams));
    let mut created = 0;
    while ctl.needs_more_streams() {
        let a = ctl.register_stream();
        assert!(!a.is_sending);
        created += 1;
    }
    assert_eq!(created, 2);
    let r = ctl.process_server_message(Ok(ServerMessage::Welcome));
    assert!(matches!(r, Ok(Some(ServerMessage::Welcome))));
    let r = ctl.process_server_message(Err(NetperfError::Server(ServerError::AccessDenied(
        "x".to_owned(),
    ))));
    assert!(matches!(
        r,
        Err(NetperfError::Context(m, inner))
            if m == "Server terminated!" && matches!(*inner, NetperfError::Server(_))
    ));
    let stats = StreamStats { sender: false, duration_millis: 5, bytes_transferred: 6 };
    let results = ctl.collect_test_result(vec![(0, Some(stats)), (1, None)]);
    assert_eq!(results.streams.len(), 1);
    assert!(ctl.test.streams.is_empty());
}

#[test]
fn results_exchange_expects_results() {
    let r = TestResults { streams: HashMap::new() };
    assert!(expect_server_results(ServerMessage::SendResults(r.clone())).is_ok());
    assert!(matches!(
        expect_server_results(ServerMessage::Welcome),
        Err(NetperfError::UnexpectedServerMessage(ServerMessage::Welcome))
    ));
    assert!(expect_client_results(ClientMessage::SendResults(r)).is_ok());
    assert!(matches!(
        expect_client_results(ClientMessage::Hello { cookie: "c".to_owned() }),
        Err(NetperfError::UnexpectedClientMessage(ClientMessage::Hello { .. }))
    ));
}

#[test]
fn server_admission() {
    assert!(matches!(admit_connection(None), Admission::CreateTest));
    let s = State::CreateStreams { cookie: "abc".to_owned() };
    assert!(matches!(admit_connection(Some(&s)), Admission::Authenticate(c) if c == "abc"));
    assert!(matches!(admit_connection(Some(&State::Running)),
        Admission::Reject(ServerError::AccessDenied(m)) if m == "Test already in-flight"));
    assert!(check_stream_cookie(&"abc".to_owned(), &"abc".to_owned()).is_ok());
    assert!(matches!(check_stream_cookie(&"abc".to_owned(), &"abd".to_owned()),
        Err(ServerError::AccessDenied(m)) if m == "Test already in-flight"));
}

#[test]
fn server_negotiation() {
    assert!(matches!(read_cookie(Ok(ClientMessage::Hello { cookie: "c".to_owned() })),
        Ok(c) if c == "c"));
    assert!(matches!(
        read_cookie(Ok(ClientMessage::SendResults(TestResults { streams: HashMap::new() }))),
        Err(NetperfError::WrongHello(_))
    ));
    assert!(matches!(read_cookie(Err(NetperfError::ConnectionClosed)),
        Err(NetperfError::NegotiationFailed(e)) if matches!(*e, NetperfError::ConnectionClosed)));
    let p = params(Direction::ClientToServer, 1);
    assert!(matches!(read_test_parameters(ClientMessage::SendParameters(p.clone())),
        Ok(q) if q.parallel == 1));
    assert!(matches!(read_test_parameters(ClientMessage::Hello { cookie: "c".to_owned() }),
        Err(NetperfError::UnexpectedClientMessage(_))));
}

#[test]
fn client_address() {
    assert_eq!(server_address(&"localhost".to_owned(), 5201), "localhost:5201");
    assert_eq!(server_address(&"10.0.0.1".to_owned(), 0), "10.0.0.1:0");
    assert_eq!(server_address(&"h".to_owned(), 65535), "h:65535");
}

#[test]
fn streams_join_with_the_hello_cookie() {
    let cookie = read_cookie(Ok(ClientMessage::Hello { cookie: "c00k1e".to_owned() })).unwrap();
    let test = PerfTest::new(None, cookie.clone(), Role::Server, params(Direction::Bidirectional, 1));
    let mut ctl = TestController::new(test);
    let state = match ctl.next_action() {
        ControllerAction::SetState(s) => s,
        other => panic!("unexpected {:?}", other),
    };
    ctl.test.set_state(state.clone());
    // a new connection while the test waits for streams must authenticate
    let expected = match admit_connection(Some(&ctl.test.state)) {
        Admission::Authenticate(k) => k,
        _ => panic!("expected authentication"),
    };
    assert!(check_stream_cookie(&expected, &"c00k1e".to_owned()).is_ok());
    assert!(check_stream_cookie(&expected, &"intruder".to_owned()).is_err());
    let (first, _) = ctl.accept_stream();
    let (second, next) = ctl.accept_stream();
    // bidirectional: the server receives on the first stream, sends on the second
    assert!(!first.is_sending);
    assert!(second.is_sending);
    assert!(matches!(next, Some(State::Running)));
}

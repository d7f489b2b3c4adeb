//! The decisions of the server's accept loop.
//!
//! The server runs one test at a time. A connection that arrives while no
//! test is in flight starts a new test; while the test in flight waits for
//! its data streams, a connection that presents the test's cookie becomes a
//! data stream; every other connection is turned away.
use crate::common::control::{ClientMessage, NetperfError, ServerError, State};
use crate::common::data::TestParameters;
use vstd::prelude::*;

verus! {

/// What the server does with a new connection.
#[derive(Debug)]
pub enum Admission {
    /// No test is in flight: negotiate a new test on this connection.
    CreateTest,
    /// The test in flight waits for data streams: read the client's cookie
    /// and compare it with this one.
    Authenticate(String),
    /// A test is in flight: answer with this error and drop the connection.
    Reject(ServerError),
}

/// The text of the error that turns connections away while a test runs.
pub open spec fn spec_busy_message() -> Seq<char> {
    "Test already in-flight"@
}

fn busy_error() -> (e: ServerError)
    ensures
        e matches ServerError::AccessDenied(m) && m@ == spec_busy_message(),
{
    ServerError::AccessDenied(String::from_str("Test already in-flight"))
}

/// Decides what to do with a new connection from the state of the test in
/// flight, if there is one.
pub fn admit_connection(in_flight: Option<&State>) -> (a: Admission)
    ensures
        match in_flight {
            None => a is CreateTest,
            Some(State::CreateStreams { cookie }) => a matches Admission::Authenticate(c) && c@
                == cookie@,
            Some(_) => a matches Admission::Reject(ServerError::AccessDenied(m)) && m@
                == spec_busy_message(),
        },
{
    match in_flight {
        None => Admission::CreateTest,
        Some(State::CreateStreams { cookie }) => Admission::Authenticate(cookie.clone()),
        Some(_) => Admission::Reject(busy_error()),
    }
}

/// Authenticates a data stream: its cookie must be the test's cookie.
pub fn check_stream_cookie(expected: &String, presented: &String) -> (res: Result<(), ServerError>)
    ensures
        expected@ == presented@ ==> res is Ok,
        expected@ != presented@ ==> (res matches Err(ServerError::AccessDenied(m)) && m@
            == spec_busy_message()),
{
    if *presented == *expected {
        Ok(())
    } else {
        Err(busy_error())
    }
}

/// The cookie of the `Hello` that opens a connection. Any other message, or
/// a failure to read one, fails the negotiation.
pub fn read_cookie(message: Result<ClientMessage, NetperfError>) -> (res: Result<String, NetperfError>)
    ensures
        match message {
            Ok(ClientMessage::Hello { cookie }) => res == Ok::<String, NetperfError>(cookie),
            Ok(m) => res == Err::<String, NetperfError>(NetperfError::WrongHello(m)),
            Err(e) => res matches Err(NetperfError::NegotiationFailed(inner)) && *inner == e,
        },
{
    match message {
        Ok(ClientMessage::Hello { cookie }) => Ok(cookie),
        Ok(m) => Err(NetperfError::WrongHello(m)),
        Err(e) => Err(NetperfError::NegotiationFailed(Box::new(e))),
    }
}

/// The test parameters that the client must send after the welcome.
pub fn read_test_parameters(message: ClientMessage) -> (res: Result<TestParameters, NetperfError>)
    ensures
        match message {
            ClientMessage::SendParameters(p) => res == Ok::<TestParameters, NetperfError>(p),
            m => res == Err::<TestParameters, NetperfError>(NetperfError::UnexpectedClientMessage(m)),
        },
{
    match message {
        ClientMessage::SendParameters(params) => Ok(params),
        m => Err(NetperfError::UnexpectedClientMessage(m)),
    }
}

} // verus!

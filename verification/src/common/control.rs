//! The messages of the control protocol.
//!
//! The control socket is the first socket that gets created once a test is
//! started. Communication and coordination between the client and server
//! happens through this socket. Every frame is a big-endian `u32` length
//! followed by a JSON object holding one envelope; the envelopes carry either
//! a message or an error of the peer.
use crate::common::data::TestParameters;
use std::collections::HashMap;
use vstd::prelude::*;

verus! {

/// The totals of one data stream.
#[derive(Debug, Clone, Copy, PartialEq, Eq, Structural)]
pub struct StreamStats {
    pub sender: bool,
    pub duration_millis: u64,
    pub bytes_transferred: usize,
}

/// The totals of all streams of one side, keyed by stream id.
#[derive(Debug)]
pub struct TestResults {
    pub streams: HashMap<usize, StreamStats>,
}

impl Clone for TestResults {
    fn clone(&self) -> (res: Self)
        ensures
            res.streams@ == self.streams@,
    {
        TestResults { streams: self.streams.clone() }
    }
}

/// Error messages set by server.
#[derive(Debug)]
pub enum ServerError {
    AccessDenied(String),
    CannotAcceptStream(String),
}

/// Error messages set by clients.
#[derive(Debug)]
pub enum ClientError {
    CannotCreateStream(String),
}

/// The life-cycle of a test.
#[derive(Debug)]
pub enum State {
    /// Parameters have been exchanged, but server is not ready yet to ask for
    /// data stream connections.
    TestStart,
    /// Asks the client to establish the data stream connections.
    CreateStreams { cookie: String },
    /// All connections are established, stream the data and measure.
    Running,
    /// We are asked to exchange the TestResults between server and client.
    /// Client will initiate this exchange once it receives a transition into
    /// this state.
    ExchangeResults,
    DisplayResults,
}

impl Clone for State {
    fn clone(&self) -> (res: Self)
        ensures
            res == *self,
    {
        match self {
            State::TestStart => State::TestStart,
            State::CreateStreams { cookie } => State::CreateStreams { cookie: cookie.clone() },
            State::Running => State::Running,
            State::ExchangeResults => State::ExchangeResults,
            State::DisplayResults => State::DisplayResults,
        }
    }
}

impl State {
    /// Whether this is the `Running` state.
    pub fn is_running(&self) -> (b: bool)
        ensures
            b == (*self is Running),
    {
        match self {
            State::Running => true,
            _ => false,
        }
    }
}

/// A control message that can be sent from clients.
/// CLIENT => SERVER
#[derive(Debug)]
pub enum ClientMessage {
    /// The first message that the client needs to send to the server upon
    /// successful connection. The cookie is a random UUID that the client
    /// uses to identify itself and the subsequent stream connections.
    Hello { cookie: String },
    /// Sending the test parameters
    SendParameters(TestParameters),
    /// Sending the test results
    SendResults(TestResults),
}

/// A control message that can be sent from servers.
/// SERVER => CLIENT
#[derive(Debug)]
pub enum ServerMessage {
    /// The server's response to Hello.
    Welcome,
    SetState(State),
    SendResults(TestResults),
}

/// What a client puts on the wire: a message or an error.
#[derive(Debug)]
pub enum ClientEnvelope {
    ClientMessage(ClientMessage),
    Error(ClientError),
}

/// What a server puts on the wire: a message or an error.
#[derive(Debug)]
pub enum ServerEnvelope {
    ServerMessage(ServerMessage),
    Error(ServerError),
}

/// The errors of the control protocol and of the test life-cycle.
#[derive(Debug)]
pub enum NetperfError {
    /// The server answered with an error.
    Server(ServerError),
    /// The client answered with an error.
    Client(ClientError),
    /// A peer announced a control message longer than `MAX_CONTROL_MESSAGE`.
    MessageTooLarge(u32),
    /// The peer closed the connection in the middle of a control message.
    ConnectionClosed,
    /// The payload of a control frame is not a valid envelope.
    InvalidMessage(String),
    /// The server sent a message that does not fit the protocol step.
    UnexpectedServerMessage(ServerMessage),
    /// The client sent a message that does not fit the protocol step.
    UnexpectedClientMessage(ClientMessage),
    /// The first message on a new connection was not a `Hello`.
    WrongHello(ClientMessage),
    /// The initial negotiation of a connection failed; the cause is kept for
    /// its description only.
    NegotiationFailed(Box<NetperfError>),
    /// A description put on top of an error; the error stays reachable.
    Context(String, Box<NetperfError>),
    /// A transport error.
    Io(String),
    /// Any other failure, by its description.
    Other(String),
}

/// The server error that an error carries, looking through added context.
pub open spec fn spec_server_error(e: NetperfError) -> Option<ServerError>
    decreases e,
{
    match e {
        NetperfError::Server(s) => Some(s),
        NetperfError::Context(_, inner) => spec_server_error(*inner),
        _ => None,
    }
}

/// The client error that an error carries, looking through added context.
pub open spec fn spec_client_error(e: NetperfError) -> Option<ClientError>
    decreases e,
{
    match e {
        NetperfError::Client(c) => Some(c),
        NetperfError::Context(_, inner) => spec_client_error(*inner),
        _ => None,
    }
}

fn find_server_error(e: &NetperfError) -> (res: Option<&ServerError>)
    ensures
        res is Some <==> spec_server_error(*e) is Some,
        res matches Some(r) ==> spec_server_error(*e) == Some(*r),
    decreases e,
{
    match e {
        NetperfError::Server(s) => Some(s),
        NetperfError::Context(_, inner) => find_server_error(&**inner),
        _ => None,
    }
}

fn find_client_error(e: &NetperfError) -> (res: Option<&ClientError>)
    ensures
        res is Some <==> spec_client_error(*e) is Some,
        res matches Some(r) ==> spec_client_error(*e) == Some(*r),
    decreases e,
{
    match e {
        NetperfError::Client(c) => Some(c),
        NetperfError::Context(_, inner) => find_client_error(&**inner),
        _ => None,
    }
}

/// Attempts to extract the ServerError from a result.
pub fn to_server_error<T>(result: &Result<T, NetperfError>) -> (res: Option<&ServerError>)
    ensures
        res is Some <==> (*result matches Err(e) && spec_server_error(e) is Some),
        res matches Some(r) ==> (*result matches Err(e) && spec_server_error(e) == Some(*r)),
{
    match result {
        Err(e) => find_server_error(e),
        _ => None,
    }
}

/// Attempts to extract the ClientError from a result.
pub fn to_client_error<A>(result: &Result<A, NetperfError>) -> (res: Option<&ClientError>)
    ensures
        res is Some <==> (*result matches Err(e) && spec_client_error(e) is Some),
        res matches Some(r) ==> (*result matches Err(e) && spec_client_error(e) == Some(*r)),
{
    match result {
        Err(e) => find_client_error(e),
        _ => None,
    }
}

/// What a server makes of a client envelope.
pub open spec fn spec_open_client_envelope(envelope: ClientEnvelope) -> Result<
    ClientMessage,
    NetperfError,
> {
    match envelope {
        ClientEnvelope::ClientMessage(m) => Ok(m),
        ClientEnvelope::Error(e) => Err(NetperfError::Client(e)),
    }
}

/// What a client makes of a server envelope.
pub open spec fn spec_open_server_envelope(envelope: ServerEnvelope) -> Result<
    ServerMessage,
    NetperfError,
> {
    match envelope {
        ServerEnvelope::ServerMessage(m) => Ok(m),
        ServerEnvelope::Error(e) => Err(NetperfError::Server(e)),
    }
}

/// Unwraps a received client envelope: its message, or its error as an `Err`.
pub fn open_client_envelope(envelope: ClientEnvelope) -> (res: Result<ClientMessage, NetperfError>)
    ensures
        res == spec_open_client_envelope(envelope),
{
    match envelope {
        ClientEnvelope::ClientMessage(m) => Ok(m),
        ClientEnvelope::Error(e) => Err(NetperfError::Client(e)),
    }
}

/// Unwraps a received server envelope: its message, or its error as an `Err`.
pub fn open_server_envelope(envelope: ServerEnvelope) -> (res: Result<ServerMessage, NetperfError>)
    ensures
        res == spec_open_server_envelope(envelope),
{
    match envelope {
        ServerEnvelope::ServerMessage(m) => Ok(m),
        ServerEnvelope::Error(e) => Err(NetperfError::Server(e)),
    }
}

/// An error that a server sends arrives at the client as that very error, and
/// `to_server_error` finds it there.
pub proof fn lemma_server_error_delivered(e: ServerError)
    ensures
        spec_open_server_envelope(ServerEnvelope::Error(e)) == Err::<ServerMessage, NetperfError>(
            NetperfError::Server(e),
        ),
        spec_server_error(NetperfError::Server(e)) == Some(e),
        spec_client_error(NetperfError::Server(e)) == None::<ClientError>,
{
}

/// An error that a client sends arrives at the server as that very error, and
/// `to_client_error` finds it there.
pub proof fn lemma_client_error_delivered(e: ClientError)
    ensures
        spec_open_client_envelope(ClientEnvelope::Error(e)) == Err::<ClientMessage, NetperfError>(
            NetperfError::Client(e),
        ),
        spec_client_error(NetperfError::Client(e)) == Some(e),
        spec_server_error(NetperfError::Client(e)) == None::<ServerError>,
{
}

/// A message that a peer sends arrives as that very message.
pub proof fn lemma_message_delivered(c: ClientMessage, s: ServerMessage)
    ensures
        spec_open_client_envelope(ClientEnvelope::ClientMessage(c)) == Ok::<
            ClientMessage,
            NetperfError,
        >(c),
        spec_open_server_envelope(ServerEnvelope::ServerMessage(s)) == Ok::<
            ServerMessage,
            NetperfError,
        >(s),
{
}

/// Added context never hides the error underneath it.
pub proof fn lemma_context_transparent(msg: String, e: NetperfError)
    ensures
        spec_server_error(NetperfError::Context(msg, Box::new(e))) == spec_server_error(e),
        spec_client_error(NetperfError::Context(msg, Box::new(e))) == spec_client_error(e),
{
}

} // verus!

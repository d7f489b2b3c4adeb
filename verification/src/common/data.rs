use vstd::prelude::*;

verus! {

/// Which end of a test this process is.
#[derive(Debug, Clone, Copy, PartialEq, Eq, Structural)]
pub enum Role {
    Server,
    Client,
}

/// The direction in which test traffic flows.
#[derive(Debug, Clone, Copy, PartialEq, Eq, Structural)]
pub enum Direction {
    /// Traffic flows from Client => Server (the default)
    ClientToServer,
    /// Traffic flows from Server => Client.
    ServerToClient,
    /// Both ways.
    Bidirectional,
}

/// The options of the client command line that decide the test parameters.
#[derive(Debug)]
pub struct ClientOpts {
    /// The host of the server to connect to.
    pub client: Option<String>,
    /// Run traffic both ways.
    pub bidir: bool,
    /// Run traffic from server to client.
    pub reverse: bool,
    /// Duration of the test in seconds.
    pub time: u64,
    /// Number of parallel data streams.
    pub parallel: u16,
    /// Block size in bytes.
    pub length: Option<usize>,
    /// Disable Nagle's algorithm.
    pub no_delay: bool,
    /// Socket send/receive buffer size.
    pub socket_buffers: Option<usize>,
}

/// The configuration of one test run, exchanged from client to server.
#[derive(Debug)]
pub struct TestParameters {
    pub direction: Direction,
    /// omit the first n seconds.
    pub omit_seconds: u32,
    pub time_seconds: u64,
    /// The number of data streams
    pub parallel: u16,
    pub block_size: usize,
    pub client_version: String,
    pub no_delay: bool,
    pub socket_buffers: Option<usize>,
}

impl Clone for TestParameters {
    fn clone(&self) -> (res: Self)
        ensures
            res == *self,
    {
        TestParameters {
            direction: self.direction,
            omit_seconds: self.omit_seconds,
            time_seconds: self.time_seconds,
            parallel: self.parallel,
            block_size: self.block_size,
            client_version: self.client_version.clone(),
            no_delay: self.no_delay,
            socket_buffers: self.socket_buffers,
        }
    }
}

/// The version string that clients put in their test parameters.
pub open spec fn spec_client_version() -> Seq<char> {
    "0.2.0"@
}

/// The version of this implementation, as sent to the server.
pub fn client_version() -> (v: String)
    ensures
        v@ == spec_client_version(),
{
    String::from_str("0.2.0")
}

/// The direction the client options ask for: `bidir` wins over `reverse`.
pub open spec fn spec_direction(bidir: bool, reverse: bool) -> Direction {
    if bidir {
        Direction::Bidirectional
    } else if reverse {
        Direction::ServerToClient
    } else {
        Direction::ClientToServer
    }
}

/// `--bidir` asks for traffic both ways whatever `-R` says; `-R` alone
/// reverses the traffic; with neither the client sends.
pub proof fn lemma_direction_from_flags(bidir: bool, reverse: bool)
    ensures
        bidir ==> spec_direction(bidir, reverse) == Direction::Bidirectional,
        spec_direction(bidir, reverse) == Direction::Bidirectional ==> bidir,
        spec_direction(bidir, reverse) == Direction::ServerToClient <==> (!bidir && reverse),
        spec_direction(bidir, reverse) == Direction::ClientToServer <==> (!bidir && !reverse),
{
}

impl TestParameters {
    /// Builds the test parameters from the client options.
    pub fn from_opts(opts: &ClientOpts, default_block_size: usize) -> (p: Self)
        ensures
            p.direction == spec_direction(opts.bidir, opts.reverse),
            opts.bidir ==> p.direction == Direction::Bidirectional,
            !opts.bidir && opts.reverse ==> p.direction == Direction::ServerToClient,
            !opts.bidir && !opts.reverse ==> p.direction == Direction::ClientToServer,
            p.omit_seconds == 0,
            p.time_seconds == opts.time,
            p.parallel == opts.parallel,
            p.block_size == (match opts.length {
                Some(l) => l,
                None => default_block_size,
            }),
            p.client_version@ == spec_client_version(),
            p.no_delay == opts.no_delay,
            p.socket_buffers == opts.socket_buffers,
    {
        let direction = if opts.bidir {
            Direction::Bidirectional
        } else if opts.reverse {
            Direction::ServerToClient
        } else {
            Direction::ClientToServer
        };
        let block_size = match opts.length {
            Some(l) => l,
            None => default_block_size,
        };
        TestParameters {
            direction,
            omit_seconds: 0,
            time_seconds: opts.time,
            parallel: opts.parallel,
            block_size,
            client_version: client_version(),
            no_delay: opts.no_delay,
            socket_buffers: opts.socket_buffers,
        }
    }
}

} // verus!

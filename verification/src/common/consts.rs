use vstd::prelude::*;

verus! {

/// Capacity of the internal channels between the controller and its workers.
pub const INTERNAL_PROT_BUFFER: usize = 5;

/// How long the server waits for the test parameters, in seconds.
pub const PROTOCOL_TIMEOUT_SECS: u64 = 10;

/// One mebibyte.
pub const MB: usize = 1048576;

/// The largest control message a peer accepts (20 MiB).
pub const MAX_CONTROL_MESSAGE: u32 = 20971520;

/// The block size used when the client does not ask for one (2 MiB).
pub const DEFAULT_BLOCK_SIZE: usize = 2 * MB;

/// Size of the length prefix of every control frame.
pub const MESSAGE_LENGTH_SIZE_BYTES: usize = 4;

} // verus!

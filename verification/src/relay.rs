//! Relaying one direction of a connection: read a chunk, then forward it, or
//! end the direction.

use vstd::prelude::*;

verus! {

/// The size of the chunks read from a connection.
pub const RELAY_BUFFER_SIZE: usize = 4096;

/// What to do after one read from the source side.
#[derive(Debug, Clone, Copy, PartialEq, Eq, Structural)]
pub enum RelayStep {
    /// Write the first this-many bytes read to the other side, then read again.
    Forward(usize),
    /// The source is done: shut the other side's write half, and stop.
    ShutDownAndStop,
    /// Reading failed: stop.
    Stop,
}

/// The step after a read that gave `read` bytes (`None` when it failed).
pub fn relay_step(read: Option<usize>) -> (s: RelayStep)
    ensures
        s == match read {
            None => RelayStep::Stop,
            Some(n) => if n == 0 {
                RelayStep::ShutDownAndStop
            } else {
                RelayStep::Forward(n)
            },
        },
{
    match read {
        None => RelayStep::Stop,
        Some(0) => RelayStep::ShutDownAndStop,
        Some(n) => RelayStep::Forward(n),
    }
}

} // verus!

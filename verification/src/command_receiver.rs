//! The control endpoint: where requests arrive, and how the bytes of one
//! request become a command.

use vstd::prelude::*;
use vstd::string::*;
use vstd::utf8::{valid_utf8, decode_utf8, encode_utf8_decode_utf8};
use crate::input_param::{ParsedCommand, spec_parse_request};

verus! {

/// The address on which requests are received.
pub struct CommandReceiver {
    address: String,
}

impl CommandReceiver {
    pub closed spec fn spec_address(&self) -> Seq<char> {
        self.address@
    }

    pub fn new(address: String) -> (r: Self)
        ensures
            r.spec_address() == address@,
    {
        CommandReceiver { address }
    }

    /// The address to listen on.
    pub fn address(&self) -> (a: &String)
        ensures
            a@ == self.spec_address(),
    {
        &self.address
    }
}

/// Reads `bytes` as UTF-8 text: `std::str::from_utf8`. Its documentation says
/// it succeeds exactly when the bytes are valid UTF-8, and the text it gives
/// is those very bytes.
#[verifier::external_body]
fn utf8_text(bytes: &[u8]) -> (r: Option<&str>)
    ensures
        r is Some <==> valid_utf8(bytes@),
        r matches Some(s) ==> s.spec_bytes() == bytes@,
{
    std::str::from_utf8(bytes).ok()
}

/// The command that one received request holds, if any: nothing when no byte
/// came, when the bytes are not UTF-8, or when the text is no valid request.
pub fn decode_request(received: &[u8]) -> (c: Option<ParsedCommand>)
    ensures
        received@.len() == 0 ==> c is None,
        received@.len() > 0 ==> match c {
            Some(cmd) => valid_utf8(received@) && spec_parse_request(decode_utf8(received@))
                == Ok::<_, crate::input_param::ParseErrorView>(cmd@),
            None => !valid_utf8(received@) || spec_parse_request(decode_utf8(received@)) is Err,
        },
{
    if received.len() == 0 {
        return None;
    }
    match utf8_text(received) {
        None => None,
        Some(text) => {
            proof {
                encode_utf8_decode_utf8(text@);
            }
            match ParsedCommand::from_str(text) {
                Ok(cmd) => Some(cmd),
                Err(_) => None,
            }
        },
    }
}

/// What the engine does after one read from a control connection.
#[derive(Debug, Clone, Copy, PartialEq, Eq, Structural)]
pub enum RequestStep {
    /// Decode and carry out the first this-many bytes read, then read again.
    Process(usize),
    /// The peer is done sending: shut the connection's write half, and stop.
    ShutDownAndStop,
    /// Reading failed: stop.
    Stop,
}

/// The step after a read that gave `read` bytes (`None` when it failed).
pub fn request_step(read: Option<usize>) -> (s: RequestStep)
    ensures
        s == match read {
            None => RequestStep::Stop,
            Some(n) => if n == 0 {
                RequestStep::ShutDownAndStop
            } else {
                RequestStep::Process(n)
            },
        },
{
    match read {
        None => RequestStep::Stop,
        Some(0) => RequestStep::ShutDownAndStop,
        Some(n) => RequestStep::Process(n),
    }
}

} // verus!

//! What the program is asked to do by its first argument.

use vstd::prelude::*;
use vstd::string::*;
use crate::text::same_text;

verus! {

#[derive(Debug, Clone, Copy, PartialEq, Eq, Structural)]
pub enum Invocation {
    /// Run the engine that receives requests and runs redirections.
    RunEngine,
    /// Send the argument as a request to the engine.
    SendRequest,
    /// Do nothing.
    Nothing,
}

/// `engine` runs the engine; any other argument longer than three bytes is
/// sent as a request; a shorter one, or none, does nothing.
pub fn invocation(arg: Option<&str>) -> (i: Invocation)
    ensures
        i == match arg {
            None => Invocation::Nothing,
            Some(a) => if a@ == "engine"@ {
                Invocation::RunEngine
            } else if a.len() > 3 {
                Invocation::SendRequest
            } else {
                Invocation::Nothing
            },
        },
{
    match arg {
        None => Invocation::Nothing,
        Some(a) => {
            if same_text(a, "engine") {
                Invocation::RunEngine
            } else if a.len() > 3 {
                Invocation::SendRequest
            } else {
                Invocation::Nothing
            }
        },
    }
}

} // verus!

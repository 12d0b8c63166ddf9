//! One redirection: a named listening port whose connections are relayed to a
//! target address, in one of three modes.

use vstd::prelude::*;
use vstd::string::*;
use crate::numbers::{decimal, push_decimal};

verus! {

/// How a redirection treats the connections it accepts.
#[derive(Debug, Clone, Copy, PartialEq, Eq, Structural)]
pub enum RedirectionMode {
    /// Connections are relayed at once.
    Started,
    /// Connections are closed.
    Off,
    /// Connections are relayed after a delay of this many milliseconds.
    Slowed(u64),
}

/// What the listener does with one accepted connection.
#[derive(Debug, Clone, Copy, PartialEq, Eq, Structural)]
pub enum ConnectionAction {
    /// Connect to the target and relay both ways.
    Relay,
    /// Wait this many milliseconds, then relay.
    DelayThenRelay(u64),
    /// Shut the connection's write side and drop it.
    Close,
}

pub open spec fn spec_connection_action(mode: RedirectionMode) -> ConnectionAction {
    match mode {
        RedirectionMode::Started => ConnectionAction::Relay,
        RedirectionMode::Slowed(ms) => ConnectionAction::DelayThenRelay(ms),
        RedirectionMode::Off => ConnectionAction::Close,
    }
}

impl RedirectionMode {
    /// What an accepted connection gets under this mode.
    pub fn connection_action(&self) -> (a: ConnectionAction)
        ensures
            a == spec_connection_action(*self),
    {
        match self {
            RedirectionMode::Started => ConnectionAction::Relay,
            RedirectionMode::Slowed(ms) => ConnectionAction::DelayThenRelay(*ms),
            RedirectionMode::Off => ConnectionAction::Close,
        }
    }
}

/// A redirection and its current mode.
///
/// The mode is a plain value held by each redirection: a copy (from `clone` or
/// from a lookup by name) does not see later mode changes of the redirection it
/// was copied from. The redirection that counts is the one held in the
/// handler's storage: requests change its mode in place, and its listener
/// reads that stored mode, by its position, at every accepted connection.
#[derive(Debug)]
pub struct Redirection {
    pub name: String,
    pub listening_port: i32,
    pub target_address: String,
    pub mode: RedirectionMode,
}

/// The address a redirection listens on: `127.0.0.1:<port>`.
pub open spec fn spec_listen_address(port: i32) -> Seq<char> {
    "127.0.0.1:"@ + decimal(port as int)
}

impl Redirection {
    /// `self` with its mode replaced by `mode`, all else kept.
    pub open spec fn with_mode(self, mode: RedirectionMode) -> Redirection {
        Redirection {
            name: self.name,
            listening_port: self.listening_port,
            target_address: self.target_address,
            mode,
        }
    }

    /// A new redirection; it starts switched off.
    pub fn new(name: String, listening_port: i32, target_address: String) -> (r: Redirection)
        ensures
            r.name == name,
            r.listening_port == listening_port,
            r.target_address == target_address,
            r.mode == RedirectionMode::Off,
    {
        Redirection { name, listening_port, target_address, mode: RedirectionMode::Off }
    }

    /// Relays connections from now on.
    pub fn start(&mut self)
        ensures
            *final(self) == old(self).with_mode(RedirectionMode::Started),
    {
        self.mode = RedirectionMode::Started;
    }

    /// Closes connections from now on.
    pub fn stop(&mut self)
        ensures
            *final(self) == old(self).with_mode(RedirectionMode::Off),
    {
        self.mode = RedirectionMode::Off;
    }

    /// Relays connections after `ms` milliseconds from now on.
    pub fn slow(&mut self, ms: u64)
        ensures
            *final(self) == old(self).with_mode(RedirectionMode::Slowed(ms)),
    {
        self.mode = RedirectionMode::Slowed(ms);
    }

    /// The address to listen on.
    pub fn listen_address(&self) -> (a: String)
        ensures
            a@ == spec_listen_address(self.listening_port),
    {
        let mut a = String::from_str("127.0.0.1:");
        push_decimal(&mut a, self.listening_port);
        a
    }
}

impl Clone for Redirection {
    fn clone(&self) -> (r: Self)
        ensures
            r == *self,
    {
        Redirection {
            name: self.name.clone(),
            listening_port: self.listening_port,
            target_address: self.target_address.clone(),
            mode: self.mode,
        }
    }
}

} // verus!

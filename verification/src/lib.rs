//! Verified core of a TCP port redirector: the text protocol that drives it,
//! the redirections it keeps, and the decisions its network loops take.

pub mod cli;
pub mod command_handler;
pub mod command_receiver;
pub mod input_param;
pub mod numbers;
pub mod redirection;
pub mod redirections_storage;
pub mod relay;
pub mod text;

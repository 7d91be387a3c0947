//! Privilege-elevation protocol for running one executable as administrator.
//!
//! The crate holds the decisions of the protocol and leaves the platform calls
//! to its caller: the request that is put to the trust authority ([`request`],
//! [`flags`]), the order in which rights are acquired, used and released
//! ([`protocol`]), the lines that are relayed from the privileged process's
//! output ([`stream`]), and the command line in front of it all ([`cli`]).
//! What holds of every run and of every output is proved in [`trace`] and
//! [`stream_laws`].

pub mod cli;
pub mod flags;
pub mod protocol;
pub mod request;
pub mod stream;
pub mod stream_laws;
pub mod trace;

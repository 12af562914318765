//! The decision core of a download-only file server.
//!
//! A request names a file below one base directory. This crate turns the
//! untrusted request path into a path that is safe to open, or into a
//! rejection, and says which response the server owes. It never touches the
//! filesystem or the network itself: every probe of the outside world is an
//! [`handler::Action`] that the caller performs and answers with an
//! [`handler::Event`].

pub mod bytes;
pub mod cli;
pub mod decode;
pub mod guard;
pub mod handler;
pub mod laws;
pub mod log;
pub mod method;
pub mod path;
pub mod response;
pub mod sandbox;

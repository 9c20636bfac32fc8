//! A small file server, as far as it can be said without sockets and files:
//! how a request line is read, which routes are refused, which file answers a
//! route, what goes over the wire, and the steps of one connection.
//!
//! The library does no input or output. A connection is a value that is told
//! what happened ([`connection::Event`]) and says what to do next
//! ([`connection::Action`]); the program around it reads, looks up and writes.

pub mod connection;
pub mod decimal;
pub mod exchange;
pub mod request;
pub mod response;
pub mod router;
pub mod validator;
pub mod words;

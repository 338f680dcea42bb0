//! Core logic of a terminal client for a university's student information
//! system: login flow, page state machines, navigation history and the
//! decoding of server replies.
pub mod client;
pub mod pages;
pub mod router;
pub mod text;

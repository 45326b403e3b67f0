//! Core of a desktop chat client for a hosted completion API: the message
//! model, the request body, the decoding of replies, and the editable list of
//! turns that the user interface works on.

pub mod api;
pub mod json;
pub mod reply;
pub mod session;
pub mod store;

//! A minimal HTTP request parser and response builder.
//!
//! The library turns one raw text buffer, read from a connection, into a
//! structured request (method, path, version, headers, body), and builds a
//! fixed response together with its exact wire form. Every function carries a
//! contract over a character-sequence model of the buffer.

pub mod request;
pub mod response;
pub mod text;

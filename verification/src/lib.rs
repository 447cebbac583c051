//! A tool-augmented dialogue engine: a conversation model whose turns may
//! interleave assistant replies with tool results, a registry that unifies
//! tools run in this process with tools proxied to external tool servers, a
//! protocol client that frames and correlates the line-delimited requests
//! such a server speaks, the wire encodings of completion requests, a
//! streaming-reply accumulator with its single fallback decision, the
//! session store the histories persist through, and the grammar of the
//! interactive session's commands. All I/O — the HTTP exchanges, the
//! subprocess pipes, the terminal and the database — lives outside and
//! exchanges plain values with this crate.
pub mod api;
pub mod chat;
pub mod commands;
pub mod jsonfmt;
pub mod jsonio;
pub mod msg;
pub mod protocol;
pub mod session;
pub mod strutil;
pub mod tools;
pub mod wire;

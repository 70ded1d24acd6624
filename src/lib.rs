//! The session engine of a small mail-receiving server speaking a subset of
//! SMTP: the command grammar, the reply catalog, the message accumulator and
//! the per-connection state machine with its authentication step. The engine
//! does no I/O: it takes one client line at a time and returns the lines to
//! send back.
pub mod commands;
pub mod message;
pub mod responses;
pub mod settings;
pub mod smtp;
pub mod text;

//! The core of a paste service.
//!
//! A paste is a piece of content that is stored under a short identifier,
//! read back by anyone who knows the identifier, and deleted only by whoever
//! holds the token that was set when it was stored.
//!
//! - [`policy`] says which identifiers and which contents are admitted.
//! - [`codec`] is the format in which content is held.
//! - [`store`] is the table of entries.
//! - [`access`] decides who may delete an entry.
//! - [`render`] turns content into highlighted HTML.
//! - [`service`] puts these together into the requests that the service
//!   answers: write, read and delete.
//! - [`errors`] is the one taxonomy of failures that all of them share, with
//!   the status class and the message that a caller sees for each.
//!
//! Nothing here reads a clock, a file or a socket. Times and random numbers
//! are arguments.

pub mod access;
pub mod codec;
pub mod errors;
pub mod policy;
pub mod render;
pub mod service;
pub mod store;
mod text;

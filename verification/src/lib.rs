//! A minimal static-file HTTP server's core, verified.
//!
//! Given a root directory, the server maps each request path to a
//! filesystem entry and answers with the file's bytes, with the configured
//! index file, or with a directory listing.  The mode, index file or
//! listing, is fixed once at startup by whether `root/indexFileName`
//! exists as a regular file.  This crate holds everything that decides:
//! host validation, path joining and the canonicalization fallback, the
//! serving mode, per-request routing, content types, the file responder,
//! and the listing renderer.  The surrounding binary only reads the
//! configuration, performs the filesystem I/O, and speaks HTTP.

pub mod paths;
pub mod strings;
pub mod host;
pub mod mime;
pub mod response;
pub mod serve;
pub mod listing;
pub mod laws;

//! Core of a small HTTP gateway in front of an S3-compatible object store:
//! it validates and names multipart image uploads, decides whether a request
//! may store an object, and resolves content types on the read path.
//!
//! The surrounding transport (HTTP routing, the object-store client, token
//! signature verification) lives outside this crate; the functions here take
//! plain values in and hand plain decisions back.

pub mod config;
pub mod handlers;
pub mod util;

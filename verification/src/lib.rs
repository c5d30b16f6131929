//! Resumable multipart upload engine for an object-storage client.
//!
//! The library holds the decision logic of the client: splitting a file
//! into parts, reconciling the split against multipart sessions already
//! open on the remote side, computing which parts still need to be sent,
//! ordering the completed parts, resolving storage URLs into bucket and
//! key, and parsing the credentials configuration. The surrounding I/O
//! (network calls, file reads, the prompt) lives outside the library and
//! hands it plain values.

use vstd::prelude::*;

pub mod address;
pub mod config;
pub mod configure;
pub mod finalizer;
pub mod format;
pub mod planner;
pub mod session;
pub mod sync;
pub mod text;
pub mod transfer;
pub mod uploader;

verus! {

/// The local precondition errors of a transfer: each is detected before
/// any remote call is made.
#[derive(Clone, Copy, Debug, PartialEq, Eq, Structural)]
pub enum UploadError {
    /// The source path cannot name an existing regular file.
    InvalidSource,
    /// The target URL lacks the storage scheme prefix or a bucket.
    InvalidRemoteUrl,
    /// A zero-length file has no meaningful multipart plan.
    EmptyFile,
}

} // verus!

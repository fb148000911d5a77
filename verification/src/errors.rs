//! Error taxonomy of the synchronization engine.
//!
//! Every failure is fatal to the smallest enclosing scope (credential
//! resolution, one session attempt, one worker, one writer, one mailbox
//! pass) and is reported upward without being retried.

use vstd::prelude::*;

verus! {

/// One failure of the synchronization pipeline, tagged with enough context
/// (the message identifier, where one is in play) to diagnose it without
/// exposing any secret.
#[derive(Clone, Copy, Debug, PartialEq, Eq, Structural)]
pub enum SyncError {
    /// Shell-word splitting of a credential command yielded no tokens or
    /// failed to parse the quoting.
    CredentialCommandMalformed,
    /// The credential command's process could not be started.
    CredentialCommandFailed,
    /// The credential command's captured output is not valid text.
    CredentialNotUtf8,
    /// The transport to the remote host could not be established or secured.
    ConnectionFailed,
    /// The remote host rejected the credentials.
    AuthenticationFailed,
    /// The mailbox could not be selected for read.
    SelectFailed,
    /// Enumerating the mailbox's message identifiers failed.
    SearchFailed,
    /// Fetching the named message failed, or the protocol returned a result
    /// count other than one for it; aborts that worker only.
    FetchFailed(u32),
    /// Durably storing the named message failed; aborts the writer for that
    /// mailbox only.
    StorageFailed(u32),
}

} // verus!

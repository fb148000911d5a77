//! Account configuration as the engine consumes it.
//!
//! Values of these types are produced by configuration loading, which is
//! external to the verified core: the loader deserializes its own mirror of
//! these types and converts. After loading, an [`Account`] is immutable and
//! shared read-only across every task derived from it.

use vstd::prelude::*;

verus! {

/// How a plaintext secret is obtained for an account: either it is given
/// directly, or a shell command is run and its captured standard output
/// (trimmed) is the secret.
#[derive(Clone)]
pub enum PasswordContainer {
    Plaintext(String),
    Shell(String),
}

/// When the transport is secured: before any protocol exchange (`Tls`), or
/// by an explicit upgrade command after the initial handshake (`StartTls`).
#[derive(Clone, Copy, Debug, PartialEq, Eq, Structural)]
pub enum Method {
    StartTls,
    Tls,
}

/// Default worker count used by configuration loading when the field is
/// absent from the configuration file.
pub fn zero() -> (n: usize)
    ensures
        n == 0,
{
    0
}

/// One remote mailbox source: where to connect, how to authenticate, where
/// messages land locally, and how many parallel fetch workers to run.
#[derive(Clone)]
pub struct Account {
    pub host: String,
    pub port: u16,
    pub method: Method,
    pub username: String,
    pub password: PasswordContainer,
    /// Root of the local on-disk store; each mailbox maps to one directory
    /// beneath it.
    pub folder: String,
    /// Number of parallel fetch workers per mailbox; also the capacity of
    /// the bounded channel between the workers and the writer.
    pub connections: usize,
}

impl Account {
    /// An account the engine may act on: at least one worker. Configuration
    /// loading substitutes one for an absent or zero worker count before the
    /// engine sees the account.
    pub open spec fn wf(self) -> bool {
        self.connections >= 1
    }
}

/// The whole configuration: every account to synchronize, each proceeding
/// independently to its own completion or failure.
pub struct Config {
    pub accounts: Vec<Account>,
}

} // verus!

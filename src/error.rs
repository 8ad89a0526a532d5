//! Failures of synthesis. Each ends the current invocation.

use vstd::prelude::*;

verus! {

#[derive(Clone, Copy, Debug, PartialEq, Eq, Structural)]
pub enum SynthesisError {
    /// The original manifest is missing or cannot be read.
    SourceUnreadable,
    /// The manifest writes `ports:` with something after it on the same line.
    UnsupportedPortsFormat,
    /// Every block of the pool is taken or reserved.
    PoolExhausted,
    /// The sanitized manifest is not a readable compose document.
    MalformedManifest,
    /// A stale artifact could not be removed.
    CleanupFailed,
}

} // verus!

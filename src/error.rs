use vstd::prelude::*;

verus! {

/// Everything that can end a scan before or during its run.
#[derive(Debug, Clone, PartialEq, Eq)]
pub enum Error {
    /// The output destination could not be opened.
    OpenFile { file: String, reason: String },
    /// One segment of a resolver list is not an IPv4 address.
    InvalidResolverAddress(String),
    /// The network is not written as `a.b.c.d/prefix`.
    InvalidCidrNotation(String),
    /// Writing a resolved name failed.
    IoError(String),
    /// A lookup failed for a reason other than a missing record.
    ResolveError,
}

} // verus!

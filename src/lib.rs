use vstd::prelude::*;

pub mod text;
pub mod identity;
pub mod host;
pub mod codec;
pub mod erase;
pub mod detect;
pub mod structure;
pub mod platform;

verus! {

/// What can go wrong when fingerprinting a host or reading a container.
#[derive(Debug, Clone, Copy, PartialEq, Eq, Structural)]
pub enum Error {
    /// A host observable that cannot be done without could not be obtained.
    HostQuery,
    /// The body could not be encoded or decoded as structured data.
    Serialization,
    /// Fewer bytes than the frame needs.
    TruncatedContainer,
    /// The leading bytes are not the format's magic sequence.
    UnrecognizedFormat,
    /// The frame's version byte differs from the version inside the embedded identity.
    VersionMismatch,
    /// A payload could not be read as a gzip-compressed tar archive.
    Archive,
}

} // verus!

//! Surgical partition editing for multi-partition disk images.
//!
//! The library plans how files are copied into and out of the partitions of
//! a pre-built disk image without mounting it: it parses request strings and
//! layout listings, resolves partition numbers and sector ranges, batches
//! requests so each touched partition is extracted and written back exactly
//! once, and wraps the whole operation in a transparent-compression shim
//! that unpacks a compressed image first and repacks it afterwards.
//!
//! Everything that touches the outside world — delegate tools, host
//! filesystem, content sniffing — is driven through explicit command lists
//! and state machines, so the caller performs the effects while the
//! decisions stay here.

pub mod bytes;
pub mod codec;
pub mod fdisk;
pub mod params;
pub mod partition;
pub mod paths;
pub mod plan;
pub mod shim;

use vstd::prelude::*;

verus! {

/// The error kinds that partition editing and compression handling report.
#[derive(Clone, Copy, Debug, PartialEq, Eq, Structural)]
pub enum Error {
    /// A request string is malformed (wrong separators, unknown partition,
    /// non-absolute destination).
    Config,
    /// A host filesystem operation failed (missing source file, rename failure).
    Io,
    /// A delegated capability call failed or its output channel was absent.
    Subprocess,
    /// The image layout is not recognized (unknown disklabel type or an
    /// unsupported partition/disklabel combination).
    Format,
    /// A post-hoc existence check failed for a delegate that does not report
    /// failures reliably.
    Verification,
}

} // verus!

//! Partition identifiers and the fixed numbering table.
//!
//! `boot` and `rootA` always sit at partition numbers 1 and 2. `cert` and
//! `factory` sit at numbers that depend on the image's disklabel type, which
//! is only discovered at runtime from the layout listing.

use vstd::prelude::*;

verus! {

use vstd::string::StringSliceAdditionalSpecFns;
use crate::Error;
use crate::bytes::bytes_eq;

/// The closed set of partitions a file-copy request may target.
#[allow(non_camel_case_types)]
#[derive(Clone, Copy, Debug, PartialEq, Eq, Structural)]
pub enum Partition {
    boot,
    rootA,
    cert,
    factory,
}

/// The partition-table format of an image.
#[derive(Clone, Copy, Debug, PartialEq, Eq, Structural)]
pub enum DisklabelType {
    Gpt,
    Dos,
}

/// Which `Partition` a request-string component names, if any.
pub open spec fn partition_of(name: Seq<u8>) -> Option<Partition> {
    if name == "boot".spec_bytes() {
        Some(Partition::boot)
    } else if name == "rootA".spec_bytes() {
        Some(Partition::rootA)
    } else if name == "cert".spec_bytes() {
        Some(Partition::cert)
    } else if name == "factory".spec_bytes() {
        Some(Partition::factory)
    } else {
        None
    }
}

impl Partition {
    /// Parses a partition name as it appears in a request string.
    pub fn parse(s: &str) -> (r: Result<Partition, Error>)
        ensures
            r == (match partition_of(s.spec_bytes()) {
                Some(p) => Ok::<Partition, Error>(p),
                None => Err::<Partition, Error>(Error::Config),
            }),
        {
        Partition::parse_bytes(s.as_bytes())
    }

    /// Parses a partition name given as raw bytes.
    pub fn parse_bytes(b: &[u8]) -> (r: Result<Partition, Error>)
        ensures
            r == (match partition_of(b@) {
                Some(p) => Ok::<Partition, Error>(p),
                None => Err::<Partition, Error>(Error::Config),
            }),
        {
        if bytes_eq(b, "boot".as_bytes()) {
            Ok(Partition::boot)
        } else if bytes_eq(b, "rootA".as_bytes()) {
            Ok(Partition::rootA)
        } else if bytes_eq(b, "cert".as_bytes()) {
            Ok(Partition::cert)
        } else if bytes_eq(b, "factory".as_bytes()) {
            Ok(Partition::factory)
        } else {
            Err(Error::Config)
        }
    }
}

/// The fixed numbering table. `boot` and `rootA` never consult the disklabel;
/// `cert` and `factory` need it, and fail when it could not be determined.
pub open spec fn partition_number_of(kind: Partition, label: Option<DisklabelType>) -> Result<
    u8,
    Error,
> {
    match kind {
        Partition::boot => Ok(1),
        Partition::rootA => Ok(2),
        Partition::factory => match label {
            Some(DisklabelType::Gpt) => Ok(4),
            Some(DisklabelType::Dos) => Ok(5),
            None => Err(Error::Format),
        },
        Partition::cert => match label {
            Some(DisklabelType::Gpt) => Ok(5),
            Some(DisklabelType::Dos) => Ok(6),
            None => Err(Error::Format),
        },
    }
}

/// Resolves a partition kind to its number inside the image.
///
/// `label` is the image's disklabel type where it was discovered, and `None`
/// where it was not (either because the layout listing was missing or because
/// its disklabel field named no known format).
pub fn resolve_partition_number(kind: &Partition, label: Option<DisklabelType>) -> (r: Result<
    u8,
    Error,
>)
    ensures
        r == partition_number_of(*kind, label),
    {
    match kind {
        Partition::boot => Ok(1),
        Partition::rootA => Ok(2),
        Partition::factory => match label {
            Some(DisklabelType::Gpt) => Ok(4),
            Some(DisklabelType::Dos) => Ok(5),
            None => Err(Error::Format),
        },
        Partition::cert => match label {
            Some(DisklabelType::Gpt) => Ok(5),
            Some(DisklabelType::Dos) => Ok(6),
            None => Err(Error::Format),
        },
    }
}

} // verus!

//! File-copy request parameters and the request-string grammar.
//!
//! A copy-to request string reads `in-file-path,out-partition:out-file-path`;
//! a copy-from request string reads `in-partition:in-file-path,out-file-path`.
//! In both, the string must hold exactly one `,` and exactly one `:` (in
//! either order), which cut it into three fields.
//!
//! Whether the copy-to source file exists on the host is a property of the
//! host filesystem, not of the string: the caller checks it after parsing and
//! reports `Error::Io` when the file is missing.

use vstd::prelude::*;

verus! {

use vstd::slice::slice_to_vec;
use vstd::string::StringSliceAdditionalSpecFns;
use vstd::string::StrSliceExecFns;
use crate::Error;
use crate::bytes::{scan, pred_sep, scan_sep, SLASH};
use crate::partition::{Partition, partition_of};

/// The position of the first separator.
pub open spec fn sep1(s: Seq<u8>) -> int {
    scan(s, 0, pred_sep())
}

/// The position of the second separator.
pub open spec fn sep2(s: Seq<u8>) -> int {
    scan(s, sep1(s) + 1, pred_sep())
}

/// Whether `s` holds exactly one `,` and exactly one `:`, in either order:
/// two separator positions exist, none follows them, and the two separator
/// bytes differ.
pub open spec fn request_shape_ok(s: Seq<u8>) -> bool {
    sep1(s) < s.len() && sep2(s) < s.len() && scan(s, sep2(s) + 1, pred_sep()) == s.len()
        && s[sep1(s)] != s[sep2(s)]
}

/// The three fields the separators cut `s` into.
pub open spec fn request_field(s: Seq<u8>, n: int) -> Seq<u8> {
    if n == 0 {
        s.subrange(0, sep1(s))
    } else if n == 1 {
        s.subrange(sep1(s) + 1, sep2(s))
    } else {
        s.subrange(sep2(s) + 1, s.len() as int)
    }
}

/// Whether `t` is an absolute path: it starts with `/`.
pub open spec fn is_absolute(t: Seq<u8>) -> bool {
    t.len() > 0 && t[0] == SLASH
}

/// Cuts a request string at its two separators. Returns the three fields, or
/// `Error::Config` when the separator count is wrong.
fn split_request(s: &str) -> (r: Result<(Vec<u8>, Vec<u8>, Vec<u8>), Error>)
    ensures
        match r {
            Ok(f) => request_shape_ok(s.spec_bytes()) && f.0@ == request_field(s.spec_bytes(), 0)
                && f.1@ == request_field(s.spec_bytes(), 1) && f.2@ == request_field(
                s.spec_bytes(),
                2,
            ),
            Err(e) => !request_shape_ok(s.spec_bytes()) && e == Error::Config,
        },
    {
    let b = s.as_bytes();
    let p = scan_sep(b, 0);
    if p >= b.len() {
        return Err(Error::Config);
    }
    let q = scan_sep(b, p + 1);
    if q >= b.len() {
        return Err(Error::Config);
    }
    let after = scan_sep(b, q + 1);
    if after < b.len() {
        return Err(Error::Config);
    }
    if b[p] == b[q] {
        return Err(Error::Config);
    }
    let f0 = slice_to_vec(&b[0..p]);
    let f1 = slice_to_vec(&b[p + 1..q]);
    let f2 = slice_to_vec(&b[q + 1..b.len()]);
    Ok((f0, f1, f2))
}

/// A request to copy a host file into a partition of the image.
#[derive(Clone, Debug)]
pub struct FileCopyToParams {
    /// Path of the source file on the host.
    pub in_file: Vec<u8>,
    /// The partition the file goes into.
    pub partition: Partition,
    /// Absolute destination path inside that partition.
    pub out_file: Vec<u8>,
}

/// Whether a copy-to request string is well formed: separator counts right,
/// a known partition name in the middle field, an absolute destination in the
/// last.
pub open spec fn copy_to_ok(s: Seq<u8>) -> bool {
    request_shape_ok(s) && partition_of(request_field(s, 1)) is Some && is_absolute(
        request_field(s, 2),
    )
}

impl FileCopyToParams {
    /// Builds the parameter record directly, without any validation, exactly
    /// as given.
    pub fn new(in_file: &str, partition: Partition, out_file: &str) -> (r: Self)
        ensures
            r.in_file@ == in_file.spec_bytes(),
            r.partition == partition,
            r.out_file@ == out_file.spec_bytes(),
        {
        FileCopyToParams {
            in_file: in_file.as_bytes_vec(),
            partition,
            out_file: out_file.as_bytes_vec(),
        }
    }

    /// Parses `in-file-path,out-partition:out-file-path`.
    ///
    /// Returns the record exactly when the string is well formed; every
    /// malformed string is a configuration error. Whether `in_file` exists on
    /// the host is checked by the caller, not here.
    pub fn parse(s: &str) -> (r: Result<Self, Error>)
        ensures
            match r {
                Ok(p) => copy_to_ok(s.spec_bytes()) && p.in_file@ == request_field(
                    s.spec_bytes(),
                    0,
                ) && Some(p.partition) == partition_of(request_field(s.spec_bytes(), 1))
                    && p.out_file@ == request_field(s.spec_bytes(), 2),
                Err(e) => !copy_to_ok(s.spec_bytes()) && e == Error::Config,
            },
        {
        let (in_file, part_name, out_file) = match split_request(s) {
            Ok(f) => f,
            Err(e) => {
                return Err(e);
            },
        };
        let partition = match Partition::parse_bytes(part_name.as_slice()) {
            Ok(p) => p,
            Err(e) => {
                return Err(e);
            },
        };
        if out_file.len() == 0 || out_file[0] != SLASH {
            return Err(Error::Config);
        }
        Ok(FileCopyToParams { in_file, partition, out_file })
    }
}

/// A request to copy a file out of a partition of the image onto the host.
#[derive(Clone, Debug)]
pub struct FileCopyFromParams {
    /// Path of the source file inside the partition.
    pub in_file: Vec<u8>,
    /// The partition the file comes from.
    pub partition: Partition,
    /// Destination path on the host.
    pub out_file: Vec<u8>,
}

/// Whether a copy-from request string is well formed: separator counts right
/// and a known partition name in the first field. The in-image source is not
/// checked here; it is discovered only when the delegate tool runs.
pub open spec fn copy_from_ok(s: Seq<u8>) -> bool {
    request_shape_ok(s) && partition_of(request_field(s, 0)) is Some
}

impl FileCopyFromParams {
    /// Builds the parameter record directly, without any validation, exactly
    /// as given.
    pub fn new(in_file: &str, partition: Partition, out_file: &str) -> (r: Self)
        ensures
            r.in_file@ == in_file.spec_bytes(),
            r.partition == partition,
            r.out_file@ == out_file.spec_bytes(),
        {
        FileCopyFromParams {
            in_file: in_file.as_bytes_vec(),
            partition,
            out_file: out_file.as_bytes_vec(),
        }
    }

    /// Parses `in-partition:in-file-path,out-file-path`.
    ///
    /// Returns the record exactly when the string is well formed; every
    /// malformed string is a configuration error.
    pub fn parse(s: &str) -> (r: Result<Self, Error>)
        ensures
            match r {
                Ok(p) => copy_from_ok(s.spec_bytes()) && Some(p.partition) == partition_of(
                    request_field(s.spec_bytes(), 0),
                ) && p.in_file@ == request_field(s.spec_bytes(), 1) && p.out_file@ == request_field(
                    s.spec_bytes(),
                    2,
                ),
                Err(e) => !copy_from_ok(s.spec_bytes()) && e == Error::Config,
            },
        {
        let (part_name, in_file, out_file) = match split_request(s) {
            Ok(f) => f,
            Err(e) => {
                return Err(e);
            },
        };
        let partition = match Partition::parse_bytes(part_name.as_slice()) {
            Ok(p) => p,
            Err(e) => {
                return Err(e);
            },
        };
        Ok(FileCopyFromParams { in_file, partition, out_file })
    }
}

} // verus!

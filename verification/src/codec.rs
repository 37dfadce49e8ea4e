//! The compression codecs behind the transparent-compression shim.
//!
//! Whole images are compressed with one of three stream codecs. The encoders
//! and decoders themselves come from outside libraries; this module binds
//! them on byte buffers and fixes their parameters: the xz coder runs
//! multi-threaded at a configurable preset, the bzip2 and gzip coders run
//! single-threaded at their best compression level.

use vstd::prelude::*;

verus! {

use crate::Error;

/// The codecs an image may be compressed with.
#[derive(Clone, Copy, Debug, PartialEq, Eq, Structural)]
pub enum Codec {
    Xz,
    Bzip2,
    Gzip,
}

/// What the xz encoder produces for a buffer at a preset and thread count.
pub uninterp spec fn xz_packed_of(data: Seq<u8>, preset: u32, threads: u32) -> Seq<u8>;

/// What the xz decoder recovers from a buffer it accepts.
pub uninterp spec fn xz_plain_of(data: Seq<u8>) -> Seq<u8>;

/// What the bzip2 encoder produces for a buffer at best compression.
pub uninterp spec fn bz_packed_of(data: Seq<u8>) -> Seq<u8>;

/// What the bzip2 decoder recovers from a buffer it accepts.
pub uninterp spec fn bz_plain_of(data: Seq<u8>) -> Seq<u8>;

/// What the gzip encoder produces for a buffer at best compression.
pub uninterp spec fn gz_packed_of(data: Seq<u8>) -> Seq<u8>;

/// What the gzip decoder recovers from a buffer it accepts.
pub uninterp spec fn gz_plain_of(data: Seq<u8>) -> Seq<u8>;

/// Relies on xz2's multi-threaded `XzEncoder`: on success the output is the
/// xz encoding of the input, a function of the buffer, preset and thread
/// count alone; encoder setup or coding may fail (resources, bad preset).
#[verifier::external_body]
fn xz_compress_raw(data: &[u8], preset: u32, threads: u32) -> (r: Result<Vec<u8>, ()>)
    ensures
        r is Ok ==> r->Ok_0@ == xz_packed_of(data@, preset, threads),
    {
    let stream = match xz2::stream::MtStreamBuilder::new().threads(threads).preset(preset).encoder()
    {
        Ok(s) => s,
        Err(_) => return Err(()),
    };
    let mut enc = xz2::write::XzEncoder::new_stream(Vec::new(), stream);
    if std::io::Write::write_all(&mut enc, data).is_err() {
        return Err(());
    }
    enc.finish().map_err(|_| ())
}

/// Relies on xz2's `XzDecoder`: on success the output is the decoded stream,
/// a function of the input bytes alone; invalid input fails.
#[verifier::external_body]
fn xz_decompress_raw(data: &[u8]) -> (r: Result<Vec<u8>, ()>)
    ensures
        r is Ok ==> r->Ok_0@ == xz_plain_of(data@),
    {
    let mut dec = xz2::write::XzDecoder::new(Vec::new());
    if std::io::Write::write_all(&mut dec, data).is_err() {
        return Err(());
    }
    dec.finish().map_err(|_| ())
}

/// Relies on bzip2's `BzEncoder` at `Compression::best()`: on success the
/// output is the bzip2 encoding of the input, a function of the bytes alone.
#[verifier::external_body]
fn bz_compress_raw(data: &[u8]) -> (r: Result<Vec<u8>, ()>)
    ensures
        r is Ok ==> r->Ok_0@ == bz_packed_of(data@),
    {
    let mut enc = bzip2::write::BzEncoder::new(Vec::new(), bzip2::Compression::best());
    if std::io::Write::write_all(&mut enc, data).is_err() {
        return Err(());
    }
    enc.finish().map_err(|_| ())
}

/// Relies on bzip2's `BzDecoder`: on success the output is the decoded
/// stream, a function of the input bytes alone; invalid input fails.
#[verifier::external_body]
fn bz_decompress_raw(data: &[u8]) -> (r: Result<Vec<u8>, ()>)
    ensures
        r is Ok ==> r->Ok_0@ == bz_plain_of(data@),
    {
    let mut dec = bzip2::write::BzDecoder::new(Vec::new());
    if std::io::Write::write_all(&mut dec, data).is_err() {
        return Err(());
    }
    dec.finish().map_err(|_| ())
}

/// Relies on flate2's `GzEncoder` at `Compression::best()`: on success the
/// output is the gzip encoding of the input (header with zeroed timestamp),
/// a function of the bytes alone.
#[verifier::external_body]
fn gz_compress_raw(data: &[u8]) -> (r: Result<Vec<u8>, ()>)
    ensures
        r is Ok ==> r->Ok_0@ == gz_packed_of(data@),
    {
    let mut enc = flate2::write::GzEncoder::new(Vec::new(), flate2::Compression::best());
    if std::io::Write::write_all(&mut enc, data).is_err() {
        return Err(());
    }
    enc.finish().map_err(|_| ())
}

/// Relies on flate2's `GzDecoder`: on success the output is the decoded
/// stream, a function of the input bytes alone; invalid input fails.
#[verifier::external_body]
fn gz_decompress_raw(data: &[u8]) -> (r: Result<Vec<u8>, ()>)
    ensures
        r is Ok ==> r->Ok_0@ == gz_plain_of(data@),
    {
    let mut dec = flate2::write::GzDecoder::new(Vec::new());
    if std::io::Write::write_all(&mut dec, data).is_err() {
        return Err(());
    }
    dec.finish().map_err(|_| ())
}

/// Relies on num_cpus::get: the number of available CPUs, documented to be
/// at least 1.
#[verifier::external_body]
fn available_cpus() -> (r: usize)
    ensures
        r >= 1,
    {
    num_cpus::get()
}

/// The thread count handed to the xz coder: the machine's available
/// parallelism.
pub fn coder_threads() -> (r: u32)
    ensures
        r >= 1,
    {
    let n = available_cpus();
    if n <= 4294967295 {
        n as u32
    } else {
        1
    }
}

/// The xz preset that a requested level yields: the request itself when it
/// is in range, 9 for anything out of range, and 9 when nothing was
/// requested.
pub open spec fn xz_preset_of(requested: Option<u64>) -> u32 {
    match requested {
        None => 9,
        Some(v) => if v <= 9 {
            v as u32
        } else {
            9
        },
    }
}

/// Clamps a requested xz compression level into the preset actually used.
pub fn xz_preset(requested: Option<u64>) -> (r: u32)
    ensures
        r == xz_preset_of(requested),
    {
    match requested {
        None => 9,
        Some(v) => if v <= 9 {
            v as u32
        } else {
            9
        },
    }
}

/// What a successful compression of `data` with `codec` yields.
pub open spec fn packed_of(codec: Codec, data: Seq<u8>, preset: u32, threads: u32) -> Seq<u8> {
    match codec {
        Codec::Xz => xz_packed_of(data, preset, threads),
        Codec::Bzip2 => bz_packed_of(data),
        Codec::Gzip => gz_packed_of(data),
    }
}

/// What a successful decompression of `data` with `codec` yields.
pub open spec fn plain_of(codec: Codec, data: Seq<u8>) -> Seq<u8> {
    match codec {
        Codec::Xz => xz_plain_of(data),
        Codec::Bzip2 => bz_plain_of(data),
        Codec::Gzip => gz_plain_of(data),
    }
}

/// Compresses a buffer with the given codec. The preset and thread count
/// steer the xz coder only; bzip2 and gzip always run at best compression.
/// A coding failure is reported as an input/output error.
pub fn compress_bytes(codec: &Codec, data: &[u8], preset: u32, threads: u32) -> (r: Result<
    Vec<u8>,
    Error,
>)
    ensures
        match r {
            Ok(v) => v@ == packed_of(*codec, data@, preset, threads),
            Err(e) => e == Error::Io,
        },
    {
    let raw = match codec {
        Codec::Xz => xz_compress_raw(data, preset, threads),
        Codec::Bzip2 => bz_compress_raw(data),
        Codec::Gzip => gz_compress_raw(data),
    };
    match raw {
        Ok(v) => Ok(v),
        Err(_) => Err(Error::Io),
    }
}

/// Decompresses a buffer with the given codec. A stream the codec rejects is
/// reported as an input/output error.
pub fn decompress_bytes(codec: &Codec, data: &[u8]) -> (r: Result<Vec<u8>, Error>)
    ensures
        match r {
            Ok(v) => v@ == plain_of(*codec, data@),
            Err(e) => e == Error::Io,
        },
    {
    let raw = match codec {
        Codec::Xz => xz_decompress_raw(data),
        Codec::Bzip2 => bz_decompress_raw(data),
        Codec::Gzip => gz_decompress_raw(data),
    };
    match raw {
        Ok(v) => Ok(v),
        Err(_) => Err(Error::Io),
    }
}

} // verus!

//! The transparent-compression shim.
//!
//! An image may arrive compressed. The shim sniffs the image's content
//! description, and when a known codec marker appears it decompresses to a
//! scratch copy, lets the inner action run on that copy, recompresses over
//! the original on success, and removes the scratch copy on every path out.
//! An image with no known marker is passed through untouched.
//!
//! The shim itself is a state machine: the caller performs each returned
//! action (sniffing, streaming, running the inner action, deleting) and
//! feeds the outcome back in as the next event.

use vstd::prelude::*;

verus! {

use vstd::string::StringSliceAdditionalSpecFns;
use crate::Error;
use crate::codec::Codec;
use crate::bytes::{bytes_eq, DOT, SLASH};
use crate::paths::last_pos;

/// Whether `m` occurs in `s` as a contiguous run.
pub open spec fn contains_seq(s: Seq<u8>, m: Seq<u8>) -> bool {
    exists|i: int| 0 <= i && i + m.len() <= s.len() && #[trigger] s.subrange(i, i + m.len()) == m
}

/// Checks whether `m` occurs in `s` as a contiguous run.
pub fn find_seq(s: &[u8], m: &[u8]) -> (r: bool)
    ensures
        r == contains_seq(s@, m@),
    {
    if m.len() == 0 {
        proof {
            assert(s@.subrange(0, 0 + m@.len() as int) =~= m@);
            assert(contains_seq(s@, m@));
        }
        return true;
    }
    if m.len() > s.len() {
        return false;
    }
    let bound = s.len() - m.len();
    let mut i: usize = 0;
    while i <= bound
        invariant
            1 <= m@.len() <= s@.len(),
            s@.len() <= usize::MAX,
            bound == s@.len() - m@.len(),
            0 <= i <= bound + 1,
            forall|k: int| 0 <= k < i ==> #[trigger] s@.subrange(k, k + m@.len()) != m@,
        decreases bound + 1 - i,
    {
        proof {
            assert(i + m@.len() <= s@.len());
        }
        let window: &[u8] = &s[i..i + m.len()];
        if bytes_eq(window, m) {
            return true;
        }
        i = i + 1;
    }
    proof {
        assert(!contains_seq(s@, m@)) by {
            if contains_seq(s@, m@) {
                let w = choose|k: int|
                    0 <= k && k + m@.len() <= s@.len() && #[trigger] s@.subrange(k, k + m@.len())
                        == m@;
                assert(s@.subrange(w, w + m@.len()) != m@);
            }
        }
    }
    false
}

/// The marker a sniffed content description carries for each codec.
pub open spec fn marker_of(c: Codec) -> Seq<u8> {
    match c {
        Codec::Xz => "XZ compressed data".spec_bytes(),
        Codec::Bzip2 => "bzip2 compressed data".spec_bytes(),
        Codec::Gzip => "gzip compressed data".spec_bytes(),
    }
}

/// The scratch-file suffix used while an image of each codec is unpacked.
pub open spec fn suffix_of(c: Codec) -> Seq<u8> {
    match c {
        Codec::Xz => "unxz.tmp".spec_bytes(),
        Codec::Bzip2 => "unbzip2.tmp".spec_bytes(),
        Codec::Gzip => "ungzip.tmp".spec_bytes(),
    }
}

/// Which codec a sniffed content description names: the markers are tried in
/// a fixed order and the first match wins; no match means the image is not
/// compressed in any known way.
pub open spec fn detect_codec_of(magic: Seq<u8>) -> Option<Codec> {
    if contains_seq(magic, marker_of(Codec::Xz)) {
        Some(Codec::Xz)
    } else if contains_seq(magic, marker_of(Codec::Bzip2)) {
        Some(Codec::Bzip2)
    } else if contains_seq(magic, marker_of(Codec::Gzip)) {
        Some(Codec::Gzip)
    } else {
        None
    }
}

/// Detects the codec named by a sniffed content description.
pub fn detect_codec(magic: &[u8]) -> (r: Option<Codec>)
    ensures
        r == detect_codec_of(magic@),
    {
    if find_seq(magic, "XZ compressed data".as_bytes()) {
        Some(Codec::Xz)
    } else if find_seq(magic, "bzip2 compressed data".as_bytes()) {
        Some(Codec::Bzip2)
    } else if find_seq(magic, "gzip compressed data".as_bytes()) {
        Some(Codec::Gzip)
    } else {
        None
    }
}

/// The image path with its extension (the part after the last dot of its
/// file name, when that dot does not lead the name) replaced by the codec's
/// scratch suffix.
pub open spec fn shim_scratch_of(image: Seq<u8>, c: Codec) -> Seq<u8> {
    let d = last_pos(image, DOT);
    let stem = if d > last_pos(image, SLASH) + 1 {
        image.take(d)
    } else {
        image
    };
    stem + seq![DOT] + suffix_of(c)
}

/// Computes the scratch file path for a compressed image.
pub fn shim_scratch_path(image: &[u8], c: &Codec) -> (r: Vec<u8>)
    ensures
        r@ == shim_scratch_of(image@, *c),
    {
    proof {
        crate::paths::lemma_last_pos(image@, DOT);
        crate::paths::lemma_last_pos(image@, SLASH);
    }
    let image_len = image.len();
    let dot = crate::paths::rfind(image, DOT);
    let slash = crate::paths::rfind(image, SLASH);
    let cut = match (dot, slash) {
        (Some(d), Some(sl)) => if d > sl + 1 {
            d
        } else {
            image_len
        },
        (Some(d), None) => if d > 0 {
            d
        } else {
            image_len
        },
        _ => image_len,
    };
    let mut out = crate::paths::bytes_concat(&image[0..cut], &[]);
    out.push(DOT);
    let suffix = match c {
        Codec::Xz => "unxz.tmp",
        Codec::Bzip2 => "unbzip2.tmp",
        Codec::Gzip => "ungzip.tmp",
    };
    let r = crate::paths::bytes_concat(out.as_slice(), suffix.as_bytes());
    proof {
        assert(image@.subrange(0, cut as int) + Seq::<u8>::empty() =~= image@.subrange(
            0,
            cut as int,
        ));
        if cut < image_len {
            assert(image@.subrange(0, cut as int) =~= image@.take(last_pos(image@, DOT)));
        } else {
            assert(image@.subrange(0, cut as int) =~= image@);
        }
        assert(r@ =~= shim_scratch_of(image@, *c));
    }
    r
}

/// Where a run of the shim stands.
pub enum ShimState {
    /// The image's content description is being sniffed.
    Sniffing,
    /// No known marker matched: the inner action runs on the original image.
    Passthrough,
    /// The image is being decompressed into its scratch copy.
    Decompressing { codec: Codec },
    /// The inner action runs on the decompressed scratch copy.
    Running { codec: Codec },
    /// The scratch copy is being recompressed over the original image.
    Recompressing { codec: Codec },
    /// The scratch copy is being removed; `pending` carries the first error
    /// of the steps before, which takes precedence over a removal failure.
    CleaningUp { codec: Codec, pending: Option<Error> },
    /// The run is over with this result.
    Finished { result: Result<(), Error> },
}

/// What the caller reports back after performing an action.
pub enum ShimEvent {
    /// The content description the sniffer produced.
    Sniffed { magic: Vec<u8> },
    /// The action succeeded.
    StepOk,
    /// The action failed.
    StepFailed { error: Error },
}

/// What the caller must do next.
pub enum ShimAction {
    /// Sniff the image's content description.
    Sniff,
    /// Stream-decompress the image into its scratch copy.
    Decompress { codec: Codec },
    /// Run the inner action, on the scratch copy or on the original image.
    RunAction { on_scratch: bool },
    /// Stream-compress the scratch copy back over the original image.
    Recompress { codec: Codec },
    /// Delete the scratch copy.
    RemoveScratch,
    /// Nothing is left to do; this is the run's result.
    Report { result: Result<(), Error> },
}

/// The shim's whole control law. An event that its state cannot answer (a
/// protocol misuse by the driver) ends the run with an input/output error.
pub open spec fn shim_step_of(s: ShimState, e: ShimEvent) -> (ShimState, ShimAction) {
    match (s, e) {
        (ShimState::Sniffing, ShimEvent::Sniffed { magic }) => match detect_codec_of(magic@) {
            Some(c) => (
                ShimState::Decompressing { codec: c },
                ShimAction::Decompress { codec: c },
            ),
            None => (ShimState::Passthrough, ShimAction::RunAction { on_scratch: false }),
        },
        (ShimState::Passthrough, ShimEvent::StepOk) => (
            ShimState::Finished { result: Ok(()) },
            ShimAction::Report { result: Ok(()) },
        ),
        (ShimState::Passthrough, ShimEvent::StepFailed { error }) => (
            ShimState::Finished { result: Err(error) },
            ShimAction::Report { result: Err(error) },
        ),
        (ShimState::Decompressing { codec }, ShimEvent::StepOk) => (
            ShimState::Running { codec },
            ShimAction::RunAction { on_scratch: true },
        ),
        (ShimState::Decompressing { codec }, ShimEvent::StepFailed { error }) => (
            ShimState::CleaningUp { codec, pending: Some(error) },
            ShimAction::RemoveScratch,
        ),
        (ShimState::Running { codec }, ShimEvent::StepOk) => (
            ShimState::Recompressing { codec },
            ShimAction::Recompress { codec },
        ),
        (ShimState::Running { codec }, ShimEvent::StepFailed { error }) => (
            ShimState::CleaningUp { codec, pending: Some(error) },
            ShimAction::RemoveScratch,
        ),
        (ShimState::Recompressing { codec }, ShimEvent::StepOk) => (
            ShimState::CleaningUp { codec, pending: None },
            ShimAction::RemoveScratch,
        ),
        (ShimState::Recompressing { codec }, ShimEvent::StepFailed { error }) => (
            ShimState::CleaningUp { codec, pending: Some(error) },
            ShimAction::RemoveScratch,
        ),
        (ShimState::CleaningUp { codec, pending }, ShimEvent::StepOk) => {
            let result = match pending {
                Some(err) => Err(err),
                None => Ok(()),
            };
            (ShimState::Finished { result }, ShimAction::Report { result })
        },
        (ShimState::CleaningUp { codec, pending }, ShimEvent::StepFailed { error }) => {
            let result = match pending {
                Some(err) => Err(err),
                None => Err(error),
            };
            (ShimState::Finished { result }, ShimAction::Report { result })
        },
        (ShimState::Decompressing { codec }, ShimEvent::Sniffed { .. }) => (
            ShimState::CleaningUp { codec, pending: Some(Error::Io) },
            ShimAction::RemoveScratch,
        ),
        (ShimState::Running { codec }, ShimEvent::Sniffed { .. }) => (
            ShimState::CleaningUp { codec, pending: Some(Error::Io) },
            ShimAction::RemoveScratch,
        ),
        (ShimState::Recompressing { codec }, ShimEvent::Sniffed { .. }) => (
            ShimState::CleaningUp { codec, pending: Some(Error::Io) },
            ShimAction::RemoveScratch,
        ),
        (ShimState::Finished { result }, _) => (
            ShimState::Finished { result },
            ShimAction::Report { result },
        ),
        (_, _) => (
            ShimState::Finished { result: Err(Error::Io) },
            ShimAction::Report { result: Err(Error::Io) },
        ),
    }
}

/// Starts a run of the shim: sniff the image first.
pub fn shim_start() -> (r: (ShimState, ShimAction))
    ensures
        r.0 == ShimState::Sniffing,
        r.1 == ShimAction::Sniff,
    {
    (ShimState::Sniffing, ShimAction::Sniff)
}

/// Advances the shim by one event.
pub fn shim_step(s: ShimState, e: ShimEvent) -> (r: (ShimState, ShimAction))
    ensures
        r == shim_step_of(s, e),
    {
    match (s, e) {
        (ShimState::Sniffing, ShimEvent::Sniffed { magic }) => match detect_codec(
            magic.as_slice(),
        ) {
            Some(c) => (
                ShimState::Decompressing { codec: c },
                ShimAction::Decompress { codec: c },
            ),
            None => (ShimState::Passthrough, ShimAction::RunAction { on_scratch: false }),
        },
        (ShimState::Passthrough, ShimEvent::StepOk) => (
            ShimState::Finished { result: Ok(()) },
            ShimAction::Report { result: Ok(()) },
        ),
        (ShimState::Passthrough, ShimEvent::StepFailed { error }) => (
            ShimState::Finished { result: Err(error) },
            ShimAction::Report { result: Err(error) },
        ),
        (ShimState::Decompressing { codec }, ShimEvent::StepOk) => (
            ShimState::Running { codec },
            ShimAction::RunAction { on_scratch: true },
        ),
        (ShimState::Decompressing { codec }, ShimEvent::StepFailed { error }) => (
            ShimState::CleaningUp { codec, pending: Some(error) },
            ShimAction::RemoveScratch,
        ),
        (ShimState::Running { codec }, ShimEvent::StepOk) => (
            ShimState::Recompressing { codec },
            ShimAction::Recompress { codec },
        ),
        (ShimState::Running { codec }, ShimEvent::StepFailed { error }) => (
            ShimState::CleaningUp { codec, pending: Some(error) },
            ShimAction::RemoveScratch,
        ),
        (ShimState::Recompressing { codec }, ShimEvent::StepOk) => (
            ShimState::CleaningUp { codec, pending: None },
            ShimAction::RemoveScratch,
        ),
        (ShimState::Recompressing { codec }, ShimEvent::StepFailed { error }) => (
            ShimState::CleaningUp { codec, pending: Some(error) },
            ShimAction::RemoveScratch,
        ),
        (ShimState::CleaningUp { codec: _, pending }, ShimEvent::StepOk) => {
            let result = match pending {
                Some(err) => Err(err),
                None => Ok(()),
            };
            (ShimState::Finished { result }, ShimAction::Report { result })
        },
        (ShimState::CleaningUp { codec: _, pending }, ShimEvent::StepFailed { error }) => {
            let result = match pending {
                Some(err) => Err(err),
                None => Err(error),
            };
            (ShimState::Finished { result }, ShimAction::Report { result })
        },
        (ShimState::Decompressing { codec }, ShimEvent::Sniffed { .. }) => (
            ShimState::CleaningUp { codec, pending: Some(Error::Io) },
            ShimAction::RemoveScratch,
        ),
        (ShimState::Running { codec }, ShimEvent::Sniffed { .. }) => (
            ShimState::CleaningUp { codec, pending: Some(Error::Io) },
            ShimAction::RemoveScratch,
        ),
        (ShimState::Recompressing { codec }, ShimEvent::Sniffed { .. }) => (
            ShimState::CleaningUp { codec, pending: Some(Error::Io) },
            ShimAction::RemoveScratch,
        ),
        (ShimState::Finished { result }, _) => (
            ShimState::Finished { result },
            ShimAction::Report { result },
        ),
        (_, _) => (
            ShimState::Finished { result: Err(Error::Io) },
            ShimAction::Report { result: Err(Error::Io) },
        ),
    }
}

/// The states in which the scratch copy exists on disk.
pub open spec fn holds_scratch(s: ShimState) -> bool {
    s is Decompressing || s is Running || s is Recompressing
}

/// Passthrough: when no known marker matches, the inner action is asked to
/// run on the original image, never on a scratch copy, and no decompression,
/// recompression or scratch removal is ever requested afterwards — the run
/// simply ends with the action's own result.
pub proof fn lemma_passthrough(magic: Vec<u8>, e: ShimEvent)
    requires
        detect_codec_of(magic@) is None,
    ensures
        shim_step_of(ShimState::Sniffing, ShimEvent::Sniffed { magic }) == (
            ShimState::Passthrough,
            ShimAction::RunAction { on_scratch: false },
        ),
        !(shim_step_of(ShimState::Passthrough, e).1 is Decompress),
        !(shim_step_of(ShimState::Passthrough, e).1 is Recompress),
        !(shim_step_of(ShimState::Passthrough, e).1 is RemoveScratch),
        shim_step_of(ShimState::Passthrough, ShimEvent::StepOk).0 == (ShimState::Finished {
            result: Ok::<(), Error>(()),
        }),
        forall|err: Error|
            shim_step_of(ShimState::Passthrough, ShimEvent::StepFailed { error: err }).0 == (
            ShimState::Finished { result: Err::<(), Error>(err) }),
{
}

/// Compression transparency at the control level: a matched marker leads to
/// decompression with the detected codec, and a successful inner run leads
/// to recompression with that same codec — never another one.
pub proof fn lemma_same_codec(magic: Vec<u8>, c: Codec)
    requires
        detect_codec_of(magic@) == Some(c),
    ensures
        shim_step_of(ShimState::Sniffing, ShimEvent::Sniffed { magic }) == (
            ShimState::Decompressing { codec: c },
            ShimAction::Decompress { codec: c },
        ),
        shim_step_of(ShimState::Decompressing { codec: c }, ShimEvent::StepOk) == (
            ShimState::Running { codec: c },
            ShimAction::RunAction { on_scratch: true },
        ),
        shim_step_of(ShimState::Running { codec: c }, ShimEvent::StepOk) == (
            ShimState::Recompressing { codec: c },
            ShimAction::Recompress { codec: c },
        ),
{
}

/// The scratch copy is removed on every path: once it exists, every step
/// either stays in a scratch-holding state or leaves it by requesting the
/// removal; and the removal state answers every event with a final result.
pub proof fn lemma_cleanup_every_path(s: ShimState, e: ShimEvent)
    ensures
        holds_scratch(s) ==> holds_scratch(shim_step_of(s, e).0) || (shim_step_of(s, e).0
            is CleaningUp && shim_step_of(s, e).1 is RemoveScratch),
        s is CleaningUp ==> shim_step_of(s, e).0 is Finished,
{
}

/// Cleanup on failure: a failing inner action still triggers the scratch
/// removal, and the reported error is the inner action's, not a removal
/// error — a removal failure surfaces only when nothing failed before it.
pub proof fn lemma_cleanup_on_failure(c: Codec, err: Error, cleanup_err: Error)
    ensures
        shim_step_of(ShimState::Running { codec: c }, ShimEvent::StepFailed { error: err }) == (
            ShimState::CleaningUp { codec: c, pending: Some(err) },
            ShimAction::RemoveScratch,
        ),
        shim_step_of(
            ShimState::CleaningUp { codec: c, pending: Some(err) },
            ShimEvent::StepOk,
        ).0 == (ShimState::Finished { result: Err::<(), Error>(err) }),
        shim_step_of(
            ShimState::CleaningUp { codec: c, pending: Some(err) },
            ShimEvent::StepFailed { error: cleanup_err },
        ).0 == (ShimState::Finished { result: Err::<(), Error>(err) }),
        shim_step_of(
            ShimState::CleaningUp { codec: c, pending: None },
            ShimEvent::StepFailed { error: cleanup_err },
        ).0 == (ShimState::Finished { result: Err::<(), Error>(cleanup_err) }),
{
}

} // verus!

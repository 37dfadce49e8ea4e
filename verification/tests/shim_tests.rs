use omnect_image::codec::Codec;
use omnect_image::shim::{
    detect_codec, shim_scratch_path, shim_start, shim_step, ShimAction, ShimEvent, ShimState,
};
use omnect_image::Error;

#[test]
fn detection_matches_markers() {
    assert_eq!(
        detect_codec(b"image.wic: XZ compressed data, checksum CRC64"),
        Some(Codec::Xz)
    );
    assert_eq!(
        detect_codec(b"image.wic: bzip2 compressed data, block size = 900k"),
        Some(Codec::Bzip2)
    );
    assert_eq!(
        detect_codec(b"image.wic: gzip compressed data, was \"image.wic\""),
        Some(Codec::Gzip)
    );
    assert_eq!(detect_codec(b"image.wic: DOS/MBR boot sector"), None);
}

#[test]
fn detection_first_match_wins() {
    assert_eq!(
        detect_codec(b"XZ compressed data or bzip2 compressed data"),
        Some(Codec::Xz)
    );
}

#[test]
fn scratch_name_replaces_the_extension() {
    assert_eq!(
        shim_scratch_path(b"image.wic.xz", &Codec::Xz),
        b"image.wic.unxz.tmp".to_vec()
    );
    assert_eq!(
        shim_scratch_path(b"/tmp/image", &Codec::Bzip2),
        b"/tmp/image.unbzip2.tmp".to_vec()
    );
    assert_eq!(
        shim_scratch_path(b"a.gz", &Codec::Gzip),
        b"a.ungzip.tmp".to_vec()
    );
}

#[test]
fn passthrough_runs_the_action_on_the_original() {
    let (state, action) = shim_start();
    assert!(matches!(action, ShimAction::Sniff));
    let (state, action) = shim_step(
        state,
        ShimEvent::Sniffed {
            magic: b"plain disk image".to_vec(),
        },
    );
    assert!(matches!(state, ShimState::Passthrough));
    assert!(matches!(
        action,
        ShimAction::RunAction { on_scratch: false }
    ));
    let (state, action) = shim_step(state, ShimEvent::StepOk);
    assert!(matches!(
        state,
        ShimState::Finished { result: Ok(()) }
    ));
    assert!(matches!(action, ShimAction::Report { result: Ok(()) }));
}

#[test]
fn passthrough_reports_the_action_error_unchanged() {
    let (state, _) = shim_step(
        ShimState::Sniffing,
        ShimEvent::Sniffed {
            magic: b"plain".to_vec(),
        },
    );
    let (state, _) = shim_step(
        state,
        ShimEvent::StepFailed {
            error: Error::Subprocess,
        },
    );
    assert!(matches!(
        state,
        ShimState::Finished {
            result: Err(Error::Subprocess)
        }
    ));
}

#[test]
fn compressed_image_recompresses_with_the_same_codec_and_cleans_up() {
    let (state, action) = shim_step(
        ShimState::Sniffing,
        ShimEvent::Sniffed {
            magic: b"XZ compressed data".to_vec(),
        },
    );
    assert!(matches!(action, ShimAction::Decompress { codec: Codec::Xz }));
    let (state, action) = shim_step(state, ShimEvent::StepOk);
    assert!(matches!(
        action,
        ShimAction::RunAction { on_scratch: true }
    ));
    let (state, action) = shim_step(state, ShimEvent::StepOk);
    assert!(matches!(
        action,
        ShimAction::Recompress { codec: Codec::Xz }
    ));
    let (state, action) = shim_step(state, ShimEvent::StepOk);
    assert!(matches!(action, ShimAction::RemoveScratch));
    let (state, action) = shim_step(state, ShimEvent::StepOk);
    assert!(matches!(
        state,
        ShimState::Finished { result: Ok(()) }
    ));
    assert!(matches!(action, ShimAction::Report { result: Ok(()) }));
}

#[test]
fn failing_action_still_removes_the_scratch_and_keeps_its_error() {
    let (state, _) = shim_step(
        ShimState::Sniffing,
        ShimEvent::Sniffed {
            magic: b"gzip compressed data".to_vec(),
        },
    );
    let (state, _) = shim_step(state, ShimEvent::StepOk);
    let (state, action) = shim_step(
        state,
        ShimEvent::StepFailed {
            error: Error::Subprocess,
        },
    );
    assert!(matches!(action, ShimAction::RemoveScratch));
    // Even a failing removal does not mask the inner error.
    let (state, _) = shim_step(
        state,
        ShimEvent::StepFailed { error: Error::Io },
    );
    assert!(matches!(
        state,
        ShimState::Finished {
            result: Err(Error::Subprocess)
        }
    ));
}

#[test]
fn cleanup_failure_alone_becomes_the_result() {
    let state = ShimState::CleaningUp {
        codec: Codec::Bzip2,
        pending: None,
    };
    let (state, _) = shim_step(state, ShimEvent::StepFailed { error: Error::Io });
    assert!(matches!(
        state,
        ShimState::Finished {
            result: Err(Error::Io)
        }
    ));
}

#[test]
fn recompression_failure_is_reported_after_cleanup() {
    let state = ShimState::Recompressing { codec: Codec::Gzip };
    let (state, action) = shim_step(state, ShimEvent::StepFailed { error: Error::Io });
    assert!(matches!(action, ShimAction::RemoveScratch));
    let (state, _) = shim_step(state, ShimEvent::StepOk);
    assert!(matches!(
        state,
        ShimState::Finished {
            result: Err(Error::Io)
        }
    ));
}

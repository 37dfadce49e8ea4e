use omnect_image::codec::{
    compress_bytes, coder_threads, decompress_bytes, xz_preset, Codec,
};

const SAMPLE: &[u8] = b"surgical partition editing over compressed disk images,\
 repeated enough to give the coders something to chew on. \
 0123456789 0123456789 0123456789 0123456789 0123456789";

#[test]
fn xz_round_trip() {
    let packed = compress_bytes(&Codec::Xz, SAMPLE, 6, 2).unwrap();
    assert_ne!(packed, SAMPLE.to_vec());
    let plain = decompress_bytes(&Codec::Xz, &packed).unwrap();
    assert_eq!(plain, SAMPLE.to_vec());
}

#[test]
fn bzip2_round_trip() {
    let packed = compress_bytes(&Codec::Bzip2, SAMPLE, 9, 1).unwrap();
    assert_ne!(packed, SAMPLE.to_vec());
    let plain = decompress_bytes(&Codec::Bzip2, &packed).unwrap();
    assert_eq!(plain, SAMPLE.to_vec());
}

#[test]
fn gzip_round_trip() {
    let packed = compress_bytes(&Codec::Gzip, SAMPLE, 9, 1).unwrap();
    assert_ne!(packed, SAMPLE.to_vec());
    let plain = decompress_bytes(&Codec::Gzip, &packed).unwrap();
    assert_eq!(plain, SAMPLE.to_vec());
}

#[test]
fn compressed_output_carries_the_codec_magic() {
    // What each coder writes is what the content sniffer will later detect.
    let xz = compress_bytes(&Codec::Xz, SAMPLE, 9, 1).unwrap();
    assert_eq!(&xz[0..6], &[0xFD, b'7', b'z', b'X', b'Z', 0x00]);
    let bz = compress_bytes(&Codec::Bzip2, SAMPLE, 9, 1).unwrap();
    assert_eq!(&bz[0..3], b"BZh");
    let gz = compress_bytes(&Codec::Gzip, SAMPLE, 9, 1).unwrap();
    assert_eq!(&gz[0..2], &[0x1F, 0x8B]);
}

#[test]
fn invalid_streams_are_rejected() {
    assert!(decompress_bytes(&Codec::Xz, b"not an xz stream").is_err());
    assert!(decompress_bytes(&Codec::Bzip2, b"not a bzip2 stream").is_err());
    assert!(decompress_bytes(&Codec::Gzip, b"not a gzip stream").is_err());
}

#[test]
fn xz_preset_clamps_to_nine() {
    assert_eq!(xz_preset(None), 9);
    assert_eq!(xz_preset(Some(0)), 0);
    assert_eq!(xz_preset(Some(5)), 5);
    assert_eq!(xz_preset(Some(9)), 9);
    assert_eq!(xz_preset(Some(12)), 9);
    assert_eq!(xz_preset(Some(u64::MAX)), 9);
}

#[test]
fn at_least_one_coder_thread() {
    assert!(coder_threads() >= 1);
}

use omnect_image::params::{FileCopyFromParams, FileCopyToParams};
use omnect_image::partition::Partition;
use omnect_image::Error;

#[test]
fn copy_to_request_parses() {
    let p = FileCopyToParams::parse("in.txt,boot:/etc/foo").unwrap();
    assert_eq!(p.in_file, b"in.txt".to_vec());
    assert_eq!(p.partition, Partition::boot);
    assert_eq!(p.out_file, b"/etc/foo".to_vec());
}

#[test]
fn copy_to_request_with_swapped_separators_is_read_the_same_way() {
    // One comma and one colon in either order pass the separator-count check
    // and cut the string into the same three fields.
    let p = FileCopyToParams::parse("in.txt:boot,/etc/foo").unwrap();
    assert_eq!(p.in_file, b"in.txt".to_vec());
    assert_eq!(p.partition, Partition::boot);
    assert_eq!(p.out_file, b"/etc/foo".to_vec());
}

#[test]
fn copy_to_request_with_relative_destination_fails() {
    assert!(matches!(FileCopyToParams::parse("in.txt,boot:etc/foo"), Err(Error::Config)));
}

#[test]
fn copy_to_request_with_wrong_separator_counts_fails() {
    assert!(matches!(FileCopyToParams::parse("in.txt"), Err(Error::Config)));
    assert!(matches!(FileCopyToParams::parse("in.txt,boot,/etc/foo"), Err(Error::Config)));
    assert!(matches!(FileCopyToParams::parse("in.txt,boot:/etc:foo"), Err(Error::Config)));
    assert!(matches!(FileCopyToParams::parse("a,b,c:d:e"), Err(Error::Config)));
}

#[test]
fn copy_to_request_with_unknown_partition_fails() {
    assert!(matches!(FileCopyToParams::parse("in.txt,swap:/etc/foo"), Err(Error::Config)));
}

#[test]
fn copy_from_request_parses() {
    let p = FileCopyFromParams::parse("cert:/device/cert.pem,out/cert.pem").unwrap();
    assert_eq!(p.partition, Partition::cert);
    assert_eq!(p.in_file, b"/device/cert.pem".to_vec());
    assert_eq!(p.out_file, b"out/cert.pem".to_vec());
}

#[test]
fn copy_from_request_with_unknown_partition_fails() {
    assert!(matches!(FileCopyFromParams::parse("swap:/a,b"), Err(Error::Config)));
}

#[test]
fn new_keeps_fields_as_given() {
    let p = FileCopyToParams::new("a.bin", Partition::factory, "/dir/a.bin");
    assert_eq!(p.in_file, b"a.bin".to_vec());
    assert_eq!(p.partition, Partition::factory);
    assert_eq!(p.out_file, b"/dir/a.bin".to_vec());
    let q = FileCopyFromParams::new("/in", Partition::rootA, "out");
    assert_eq!(q.in_file, b"/in".to_vec());
    assert_eq!(q.partition, Partition::rootA);
    assert_eq!(q.out_file, b"out".to_vec());
}

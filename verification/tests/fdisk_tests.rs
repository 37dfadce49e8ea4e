use omnect_image::fdisk::{parse_disklabel, parse_partition_range, PartitionRange};
use omnect_image::partition::DisklabelType;
use omnect_image::Error;

const LISTING: &[u8] = b"Disk image.wic: 1 GiB, 1073741824 bytes, 2097152 sectors\n\
Units: sectors of 1 * 512 = 512 bytes\n\
Disklabel type: dos\n\
Disk identifier: 0xdeadbeef\n\
\n\
Device      Boot Start     End Sectors Size Id Type\n\
image.wic1  *     2048  204799  202752  99M  c W95 FAT32 (LBA)\n\
image.wic2      204800 1253375 1048576 512M 83 Linux\n";

#[test]
fn disklabel_is_read_from_its_line() {
    assert_eq!(parse_disklabel(LISTING), Ok(DisklabelType::Dos));
    let gpt = b"noise\nDisklabel type: gpt\nmore noise\n";
    assert_eq!(parse_disklabel(gpt), Ok(DisklabelType::Gpt));
}

#[test]
fn missing_or_unknown_disklabel_is_format_error() {
    assert_eq!(parse_disklabel(b"no such line\n"), Err(Error::Format));
    assert_eq!(
        parse_disklabel(b"Disklabel type: sun\n"),
        Err(Error::Format)
    );
    // Two disklabel lines leave the type ambiguous.
    assert_eq!(
        parse_disklabel(b"Disklabel type: dos\nDisklabel type: dos\n"),
        Err(Error::Format)
    );
}

const COLS: &[u8] = b"Device       Start     End\n\
image.wic1    2048  204799\n\
image.wic2  204800 1253375\n";

#[test]
fn range_reads_start_and_end_columns_literally() {
    // The third column is handed on unchanged as the sector count; it is the
    // listing's "End" column, not End - Start.
    let r = parse_partition_range(COLS, b"image.wic1").unwrap();
    assert_eq!(
        r,
        PartitionRange {
            start: 2048,
            count: 204799
        }
    );
    let r2 = parse_partition_range(COLS, b"image.wic2").unwrap();
    assert_eq!(
        r2,
        PartitionRange {
            start: 204800,
            count: 1253375
        }
    );
}

#[test]
fn missing_device_row_is_format_error() {
    assert_eq!(
        parse_partition_range(COLS, b"image.wic9"),
        Err(Error::Format)
    );
}

#[test]
fn non_numeric_columns_are_format_errors() {
    let bad = b"image.wic1 x y\n";
    assert_eq!(parse_partition_range(bad, b"image.wic1"), Err(Error::Format));
}

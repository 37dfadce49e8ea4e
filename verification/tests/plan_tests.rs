use omnect_image::fdisk::PartitionRange;
use omnect_image::params::{FileCopyFromParams, FileCopyToParams};
use omnect_image::partition::Partition;
use omnect_image::plan::{
    batch_kinds, copy_from_image, copy_to_image, generate_bmap_file, get_partition_num,
    needs_disklabel, read_partition, write_partition, Cmd,
};
use omnect_image::Error;

const COLS: &[u8] = b"Device       Start     End\n\
image.wic1    2048  204799\n\
image.wic2  204800 1253375\n\
image.wic4  1253376 1353375\n";

const LIST: &[u8] = b"Disklabel type: gpt\n";

fn count_extracts(cmds: &[Cmd]) -> usize {
    cmds.iter()
        .filter(|c| matches!(c, Cmd::ExtractIfMissing { .. }))
        .count()
}

fn count_writebacks(cmds: &[Cmd]) -> usize {
    cmds.iter()
        .filter(|c| matches!(c, Cmd::SectorWrite { .. }))
        .count()
}

#[test]
fn batching_many_files_one_partition() {
    // Three files into one partition: one extraction, one write-back.
    let params = vec![
        FileCopyToParams::new("a", Partition::rootA, "/etc/a"),
        FileCopyToParams::new("b", Partition::rootA, "/etc/b"),
        FileCopyToParams::new("c", Partition::rootA, "/etc/c"),
    ];
    let plan = copy_to_image(&params, b"image.wic", b"/work", &None, COLS).unwrap();
    assert_eq!(count_extracts(&plan), 1);
    assert_eq!(count_writebacks(&plan), 1);
}

#[test]
fn batching_files_across_two_partitions() {
    let params = vec![
        FileCopyToParams::new("a", Partition::boot, "/a"),
        FileCopyToParams::new("b", Partition::rootA, "/b"),
        FileCopyToParams::new("c", Partition::boot, "/c"),
    ];
    let plan = copy_to_image(&params, b"image.wic", b"/work", &None, COLS).unwrap();
    assert_eq!(count_extracts(&plan), 2);
    assert_eq!(count_writebacks(&plan), 2);
}

#[test]
fn copy_to_boot_lays_out_fat_commands() {
    let params = vec![FileCopyToParams::new(
        "host.txt",
        Partition::boot,
        "/etc/sub/file.txt",
    )];
    let plan = copy_to_image(&params, b"image.wic", b"/work", &None, COLS).unwrap();
    match &plan[0] {
        Cmd::ExtractIfMissing {
            image,
            scratch,
            skip,
            count,
        } => {
            assert_eq!(image, &b"image.wic".to_vec());
            assert_eq!(scratch, &b"/work/1.img".to_vec());
            assert_eq!(*skip, 2048);
            assert_eq!(*count, 204799);
        }
        other => panic!("first command should extract, got {:?}", other),
    }
    // The FAT editor cannot create directories recursively: one advisory
    // step per link of the chain, then the copy.
    match &plan[1] {
        Cmd::FatMakeDir { dir, .. } => assert_eq!(dir, &b"/etc".to_vec()),
        other => panic!("expected FAT mkdir, got {:?}", other),
    }
    match &plan[2] {
        Cmd::FatMakeDir { dir, .. } => assert_eq!(dir, &b"/etc/sub".to_vec()),
        other => panic!("expected FAT mkdir, got {:?}", other),
    }
    match &plan[3] {
        Cmd::FatCopyIn {
            host_file, dest, ..
        } => {
            assert_eq!(host_file, &b"host.txt".to_vec());
            assert_eq!(dest, &b"/etc/sub/file.txt".to_vec());
        }
        other => panic!("expected FAT copy, got {:?}", other),
    }
    match &plan[4] {
        Cmd::SectorWrite {
            seek,
            count,
            image,
            ..
        } => {
            assert_eq!(*seek, 2048);
            assert_eq!(*count, 204799);
            assert_eq!(image, &b"image.wic".to_vec());
        }
        other => panic!("expected write-back, got {:?}", other),
    }
    assert!(matches!(&plan[5], Cmd::DeallocateHoles { .. }));
    assert!(matches!(&plan[6], Cmd::Flush));
    assert_eq!(plan.len(), 7);
}

#[test]
fn copy_to_ext_uses_one_idempotent_mkdir() {
    let params = vec![FileCopyToParams::new(
        "host.txt",
        Partition::rootA,
        "/etc/sub/file.txt",
    )];
    let plan = copy_to_image(&params, b"image.wic", b"/work", &None, COLS).unwrap();
    match &plan[1] {
        Cmd::ExtMakeDir { dir, .. } => assert_eq!(dir, &b"/etc/sub".to_vec()),
        other => panic!("expected ext mkdir, got {:?}", other),
    }
    assert!(matches!(&plan[2], Cmd::ExtCopyIn { .. }));
}

#[test]
fn copy_to_cert_needs_the_disklabel_listing() {
    let params = vec![FileCopyToParams::new("a", Partition::factory, "/a")];
    assert!(needs_disklabel(&params));
    assert!(matches!(
        copy_to_image(&params, b"image.wic", b"/work", &None, COLS),
        Err(Error::Format)
    ));
    // With a GPT listing, factory resolves to partition 4.
    let plan =
        copy_to_image(&params, b"image.wic", b"/work", &Some(LIST.to_vec()), COLS).unwrap();
    match &plan[0] {
        Cmd::ExtractIfMissing { scratch, skip, .. } => {
            assert_eq!(scratch, &b"/work/4.img".to_vec());
            assert_eq!(*skip, 1253376);
        }
        other => panic!("expected extraction, got {:?}", other),
    }
}

#[test]
fn kinds_keep_first_appearance_order() {
    let params = vec![
        FileCopyToParams::new("a", Partition::rootA, "/a"),
        FileCopyToParams::new("b", Partition::boot, "/b"),
        FileCopyToParams::new("c", Partition::rootA, "/c"),
    ];
    assert_eq!(
        batch_kinds(&params),
        vec![Partition::rootA, Partition::boot]
    );
}

#[test]
fn get_partition_num_follows_the_table() {
    assert_eq!(get_partition_num(&Partition::boot, &None), Ok(1));
    assert_eq!(
        get_partition_num(&Partition::cert, &Some(LIST.to_vec())),
        Ok(5)
    );
    assert_eq!(get_partition_num(&Partition::cert, &None), Err(Error::Format));
}

#[test]
fn extraction_is_idempotent() {
    // A scratch file that already exists triggers no sector copy at all.
    let range = PartitionRange {
        start: 2048,
        count: 204799,
    };
    let cmds = read_partition(b"image.wic", b"/work/1.img", &range, true);
    assert!(cmds.is_empty());
    let cmds = read_partition(b"image.wic", b"/work/1.img", &range, false);
    assert_eq!(cmds.len(), 2);
    assert!(matches!(&cmds[0], Cmd::SectorRead { .. }));
    assert!(matches!(&cmds[1], Cmd::Flush));
}

#[test]
fn write_back_compacts_and_flushes() {
    let range = PartitionRange {
        start: 2048,
        count: 204799,
    };
    let cmds = write_partition(b"image.wic", b"/work/1.img", &range);
    assert_eq!(cmds.len(), 3);
    assert!(matches!(&cmds[0], Cmd::SectorWrite { .. }));
    assert!(matches!(&cmds[1], Cmd::DeallocateHoles { .. }));
    assert!(matches!(&cmds[2], Cmd::Flush));
}

#[test]
fn copy_from_boot_goes_through_the_working_directory() {
    let params = vec![FileCopyFromParams::new(
        "/conf/a.txt",
        Partition::boot,
        "/dest/a.txt",
    )];
    let plan = copy_from_image(&params, b"image.wic", b"/work", &None, COLS).unwrap();
    assert!(matches!(&plan[0], Cmd::ExtractIfMissing { .. }));
    match &plan[1] {
        Cmd::FatCopyOut { src, host_dir, .. } => {
            assert_eq!(src, &b"/conf/a.txt".to_vec());
            assert_eq!(host_dir, &b"/work".to_vec());
        }
        other => panic!("expected FAT copy out, got {:?}", other),
    }
    match &plan[2] {
        Cmd::HostMakeDirAll { path } => assert_eq!(path, &b"/dest".to_vec()),
        other => panic!("expected host mkdir, got {:?}", other),
    }
    match &plan[3] {
        Cmd::HostRename { from, to } => {
            assert_eq!(from, &b"/work/a.txt".to_vec());
            assert_eq!(to, &b"/dest/a.txt".to_vec());
        }
        other => panic!("expected rename, got {:?}", other),
    }
}

#[test]
fn copy_from_ext_verifies_the_unreliable_copy() {
    // The ext copy-out delegate reports success even on failure, so its copy
    // is always followed by an existence check on the temporary.
    let params = vec![FileCopyFromParams::new(
        "/conf/a.txt",
        Partition::rootA,
        "/dest/b.txt",
    )];
    let plan = copy_from_image(&params, b"image.wic", b"/work", &None, COLS).unwrap();
    match &plan[1] {
        Cmd::ExtCopyOut { host_file, .. } => {
            assert_eq!(host_file, &b"/work/b.txt".to_vec());
        }
        other => panic!("expected ext copy out, got {:?}", other),
    }
    match &plan[2] {
        Cmd::VerifyExists { path } => assert_eq!(path, &b"/work/b.txt".to_vec()),
        other => panic!("expected existence check, got {:?}", other),
    }
}

#[test]
fn copy_from_extracts_per_request() {
    // The copy-from direction is deliberately not batched: each request
    // carries its own extraction; the scratch file of a repeated partition
    // simply exists already when the second request runs.
    let params = vec![
        FileCopyFromParams::new("/a", Partition::rootA, "/d/a"),
        FileCopyFromParams::new("/b", Partition::rootA, "/d/b"),
    ];
    let plan = copy_from_image(&params, b"image.wic", b"/work", &None, COLS).unwrap();
    assert_eq!(count_extracts(&plan), 2);
}

#[test]
fn bmap_command_names_the_image() {
    match generate_bmap_file(b"image.wic") {
        Cmd::GenerateBmap { image } => assert_eq!(image, b"image.wic".to_vec()),
        other => panic!("expected bmap command, got {:?}", other),
    }
}

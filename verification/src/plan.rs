//! Planning of partition edits.
//!
//! The engine never touches the disk itself: it turns a batch of file-copy
//! requests plus the captured layout listings into an ordered list of
//! commands for the delegate tools (sector copier, FAT editor, ext editor,
//! host filesystem). The caller executes the commands in order and stops at
//! the first fatal failure; `FatMakeDir` alone is advisory, since the FAT
//! directory primitive has no create-if-missing mode and a true failure
//! surfaces at the following copy step.

use vstd::prelude::*;

verus! {

use vstd::slice::slice_to_vec;
use crate::Error;
use crate::partition::{Partition, partition_number_of};
use crate::params::{FileCopyToParams, FileCopyFromParams};
use crate::fdisk::{disklabel_of, range_of, parse_disklabel, parse_partition_range, PartitionRange};
use crate::paths::{
    last_pos,
    parent_of,
    parent_dir,
    file_name_of,
    file_name,
    has_parent,
    dir_chain,
    dir_chain_paths,
    device_name_of,
    device_name,
    scratch_partition_file,
    scratch_partition_path,
    bytes_concat,
};
use crate::bytes::SLASH;

/// One command for a delegate tool, with every argument already laid out.
#[derive(Debug)]
pub enum Cmd {
    /// Copy `count` 512-byte sectors from sector `skip` of `image` into a
    /// fresh `scratch` file, sparsely, unless `scratch` already exists.
    ExtractIfMissing { image: Vec<u8>, scratch: Vec<u8>, skip: u64, count: u64 },
    /// Copy `count` 512-byte sectors of `image` starting at `skip` into a
    /// fresh `scratch` file, sparsely.
    SectorRead { image: Vec<u8>, scratch: Vec<u8>, skip: u64, count: u64 },
    /// Copy `count` 512-byte sectors of `scratch` back over `image` at
    /// sector `seek`, sparsely, without truncating the image.
    SectorWrite { scratch: Vec<u8>, image: Vec<u8>, seek: u64, count: u64 },
    /// Deallocate the holes of `path` on its backing storage.
    DeallocateHoles { path: Vec<u8> },
    /// Force written data to stable storage.
    Flush,
    /// Create directory `dir` inside the FAT scratch file. Advisory: failure
    /// (typically "exists already") is logged and ignored.
    FatMakeDir { scratch: Vec<u8>, dir: Vec<u8> },
    /// Copy host file `host_file` to `dest` inside the FAT scratch file.
    FatCopyIn { scratch: Vec<u8>, host_file: Vec<u8>, dest: Vec<u8> },
    /// Copy `src` inside the FAT scratch file into host directory `host_dir`.
    FatCopyOut { scratch: Vec<u8>, src: Vec<u8>, host_dir: Vec<u8> },
    /// Create directory `dir` inside the ext scratch file (idempotent).
    ExtMakeDir { scratch: Vec<u8>, dir: Vec<u8> },
    /// Copy host file `host_file` to `dest` inside the ext scratch file.
    ExtCopyIn { scratch: Vec<u8>, host_file: Vec<u8>, dest: Vec<u8> },
    /// Copy `src` inside the ext scratch file to host file `host_file`.
    ExtCopyOut { scratch: Vec<u8>, src: Vec<u8>, host_file: Vec<u8> },
    /// Fail with `Error::Verification` unless `path` exists on the host: the
    /// ext copy-out delegate reports success even on failure.
    VerifyExists { path: Vec<u8> },
    /// Create host directory `path` and its missing ancestors.
    HostMakeDirAll { path: Vec<u8> },
    /// Move host file `from` to `to`.
    HostRename { from: Vec<u8>, to: Vec<u8> },
    /// Write the block-map sidecar file of `image`.
    GenerateBmap { image: Vec<u8> },
}

/// The mathematical shape of a command.
pub enum CmdV {
    ExtractIfMissing { image: Seq<u8>, scratch: Seq<u8>, skip: int, count: int },
    SectorRead { image: Seq<u8>, scratch: Seq<u8>, skip: int, count: int },
    SectorWrite { scratch: Seq<u8>, image: Seq<u8>, seek: int, count: int },
    DeallocateHoles { path: Seq<u8> },
    Flush,
    FatMakeDir { scratch: Seq<u8>, dir: Seq<u8> },
    FatCopyIn { scratch: Seq<u8>, host_file: Seq<u8>, dest: Seq<u8> },
    FatCopyOut { scratch: Seq<u8>, src: Seq<u8>, host_dir: Seq<u8> },
    ExtMakeDir { scratch: Seq<u8>, dir: Seq<u8> },
    ExtCopyIn { scratch: Seq<u8>, host_file: Seq<u8>, dest: Seq<u8> },
    ExtCopyOut { scratch: Seq<u8>, src: Seq<u8>, host_file: Seq<u8> },
    VerifyExists { path: Seq<u8> },
    HostMakeDirAll { path: Seq<u8> },
    HostRename { from: Seq<u8>, to: Seq<u8> },
    GenerateBmap { image: Seq<u8> },
}

impl View for Cmd {
    type V = CmdV;

    open spec fn view(&self) -> CmdV {
        match self {
            Cmd::ExtractIfMissing { image, scratch, skip, count } => CmdV::ExtractIfMissing {
                image: image@,
                scratch: scratch@,
                skip: *skip as int,
                count: *count as int,
            },
            Cmd::SectorRead { image, scratch, skip, count } => CmdV::SectorRead {
                image: image@,
                scratch: scratch@,
                skip: *skip as int,
                count: *count as int,
            },
            Cmd::SectorWrite { scratch, image, seek, count } => CmdV::SectorWrite {
                scratch: scratch@,
                image: image@,
                seek: *seek as int,
                count: *count as int,
            },
            Cmd::DeallocateHoles { path } => CmdV::DeallocateHoles { path: path@ },
            Cmd::Flush => CmdV::Flush,
            Cmd::FatMakeDir { scratch, dir } => CmdV::FatMakeDir {
                scratch: scratch@,
                dir: dir@,
            },
            Cmd::FatCopyIn { scratch, host_file, dest } => CmdV::FatCopyIn {
                scratch: scratch@,
                host_file: host_file@,
                dest: dest@,
            },
            Cmd::FatCopyOut { scratch, src, host_dir } => CmdV::FatCopyOut {
                scratch: scratch@,
                src: src@,
                host_dir: host_dir@,
            },
            Cmd::ExtMakeDir { scratch, dir } => CmdV::ExtMakeDir {
                scratch: scratch@,
                dir: dir@,
            },
            Cmd::ExtCopyIn { scratch, host_file, dest } => CmdV::ExtCopyIn {
                scratch: scratch@,
                host_file: host_file@,
                dest: dest@,
            },
            Cmd::ExtCopyOut { scratch, src, host_file } => CmdV::ExtCopyOut {
                scratch: scratch@,
                src: src@,
                host_file: host_file@,
            },
            Cmd::VerifyExists { path } => CmdV::VerifyExists { path: path@ },
            Cmd::HostMakeDirAll { path } => CmdV::HostMakeDirAll { path: path@ },
            Cmd::HostRename { from, to } => CmdV::HostRename { from: from@, to: to@ },
            Cmd::GenerateBmap { image } => CmdV::GenerateBmap { image: image@ },
        }
    }
}

/// The views of a laid-out command list.
pub open spec fn cmds_view(cmds: Seq<Cmd>) -> Seq<CmdV> {
    cmds.map_values(|c: Cmd| c@)
}

/// The view of a captured listing that may be absent.
pub open spec fn opt_view(o: Option<Vec<u8>>) -> Option<Seq<u8>> {
    match o {
        Some(v) => Some(v@),
        None => None,
    }
}

/// The partition number a kind resolves to, given the full layout listing
/// where one was captured. `boot` and `rootA` never consult it; `cert` and
/// `factory` need it, and fail with a format error when it is absent or does
/// not name a known disklabel type.
pub open spec fn resolve_number(kind: Partition, list: Option<Seq<u8>>) -> Result<u8, Error> {
    match kind {
        Partition::boot => Ok(1),
        Partition::rootA => Ok(2),
        _ => match list {
            None => Err(Error::Format),
            Some(l) => match disklabel_of(l) {
                Err(e) => Err(e),
                Ok(d) => partition_number_of(kind, Some(d)),
            },
        },
    }
}

/// Resolves a partition kind against the captured layout listing.
pub fn get_partition_num(kind: &Partition, list: &Option<Vec<u8>>) -> (r: Result<u8, Error>)
    ensures
        r == resolve_number(*kind, opt_view(*list)),
    {
    match kind {
        Partition::boot => Ok(1),
        Partition::rootA => Ok(2),
        _ => match list {
            None => Err(Error::Format),
            Some(l) => match parse_disklabel(l.as_slice()) {
                Err(e) => Err(e),
                Ok(d) => partition_number_of_exec(kind, d),
            },
        },
    }
}

fn partition_number_of_exec(kind: &Partition, d: crate::partition::DisklabelType) -> (r: Result<
    u8,
    Error,
>)
    ensures
        r == partition_number_of(*kind, Some(d)),
    {
    crate::partition::resolve_partition_number(kind, Some(d))
}

/// The commands that extract one partition into its scratch file: nothing at
/// all when the scratch file already exists, else a sparse sector copy
/// followed by a durability barrier.
pub open spec fn extract_cmds(
    image: Seq<u8>,
    scratch: Seq<u8>,
    start: int,
    count: int,
    scratch_exists: bool,
) -> Seq<CmdV> {
    if scratch_exists {
        Seq::empty()
    } else {
        seq![
            CmdV::SectorRead { image, scratch, skip: start, count },
            CmdV::Flush,
        ]
    }
}

/// The primitive commands behind `Cmd::ExtractIfMissing`, once the caller has
/// looked up whether the scratch file exists. A scratch file that is already
/// there triggers no sector copy at all.
pub fn read_partition(
    image: &[u8],
    scratch: &[u8],
    range: &PartitionRange,
    scratch_exists: bool,
) -> (r: Vec<Cmd>)
    ensures
        cmds_view(r@) == extract_cmds(
            image@,
            scratch@,
            range.start as int,
            range.count as int,
            scratch_exists,
        ),
        scratch_exists ==> r@.len() == 0,
    {
    let mut out: Vec<Cmd> = Vec::new();
    if scratch_exists {
        proof {
            assert(cmds_view(out@) =~= Seq::<CmdV>::empty());
        }
        return out;
    }
    out.push(Cmd::SectorRead {
        image: slice_to_vec(image),
        scratch: slice_to_vec(scratch),
        skip: range.start,
        count: range.count,
    });
    out.push(Cmd::Flush);
    proof {
        assert(cmds_view(out@) =~= extract_cmds(
            image@,
            scratch@,
            range.start as int,
            range.count as int,
            false,
        ));
    }
    out
}

/// The commands that write one partition's scratch file back: the inverse
/// sparse sector copy without truncation, hole deallocation on the image,
/// and a durability barrier.
pub open spec fn writeback_cmds(image: Seq<u8>, scratch: Seq<u8>, start: int, count: int) -> Seq<
    CmdV,
> {
    seq![
        CmdV::SectorWrite { scratch, image, seek: start, count },
        CmdV::DeallocateHoles { path: image },
        CmdV::Flush,
    ]
}

/// Lays out the write-back of one partition.
pub fn write_partition(image: &[u8], scratch: &[u8], range: &PartitionRange) -> (r: Vec<Cmd>)
    ensures
        cmds_view(r@) == writeback_cmds(
            image@,
            scratch@,
            range.start as int,
            range.count as int,
        ),
    {
    let mut out: Vec<Cmd> = Vec::new();
    out.push(Cmd::SectorWrite {
        scratch: slice_to_vec(scratch),
        image: slice_to_vec(image),
        seek: range.start,
        count: range.count,
    });
    out.push(Cmd::DeallocateHoles { path: slice_to_vec(image) });
    out.push(Cmd::Flush);
    proof {
        assert(cmds_view(out@) =~= writeback_cmds(
            image@,
            scratch@,
            range.start as int,
            range.count as int,
        ));
    }
    out
}

/// The edit commands for one file going into one partition's scratch file.
/// The FAT editor has no recursive directory creation, so the destination's
/// directory chain is created one step at a time (each step advisory); the
/// ext editor creates the whole directory in one idempotent call.
/// One advisory FAT directory-creation command per link of a chain.
pub open spec fn fat_mkdirs(scratch: Seq<u8>, chain: Seq<Seq<u8>>) -> Seq<CmdV>
    decreases chain.len(),
{
    if chain.len() == 0 {
        Seq::empty()
    } else {
        seq![CmdV::FatMakeDir { scratch, dir: chain.first() }] + fat_mkdirs(
            scratch,
            chain.drop_first(),
        )
    }
}

pub proof fn lemma_fat_mkdirs(scratch: Seq<u8>, chain: Seq<Seq<u8>>)
    ensures
        fat_mkdirs(scratch, chain).len() == chain.len(),
        forall|k: int|
            0 <= k < chain.len() ==> fat_mkdirs(scratch, chain)[k] == (CmdV::FatMakeDir {
                scratch,
                dir: chain[k],
            }),
    decreases chain.len(),
{
    if chain.len() > 0 {
        lemma_fat_mkdirs(scratch, chain.drop_first());
        assert forall|k: int| 0 <= k < chain.len() implies fat_mkdirs(scratch, chain)[k]
            == (CmdV::FatMakeDir { scratch, dir: chain[k] }) by {
            if k > 0 {
                assert(chain.drop_first()[k - 1] == chain[k]);
            }
        }
    }
}

pub open spec fn edit_cmds(
    kind: Partition,
    scratch: Seq<u8>,
    in_file: Seq<u8>,
    out_file: Seq<u8>,
) -> Seq<CmdV> {
    if kind == Partition::boot {
        fat_mkdirs(scratch, dir_chain(parent_of(out_file))) + seq![
            CmdV::FatCopyIn { scratch, host_file: in_file, dest: out_file },
        ]
    } else {
        seq![
            CmdV::ExtMakeDir { scratch, dir: parent_of(out_file) },
            CmdV::ExtCopyIn { scratch, host_file: in_file, dest: out_file },
        ]
    }
}

/// Lays out the edits for one file.
fn edit_cmds_exec(kind: &Partition, scratch: &[u8], in_file: &[u8], out_file: &[u8]) -> (r: Vec<
    Cmd,
>)
    ensures
        cmds_view(r@) == edit_cmds(*kind, scratch@, in_file@, out_file@),
    {
    let mut out: Vec<Cmd> = Vec::new();
    if let Partition::boot = kind {
        let dir = parent_dir(out_file);
        let chain = dir_chain_paths(dir.as_slice());
        let ghost chain_v = chain@.map_values(|v: Vec<u8>| v@);
        let mut j: usize = 0;
        while j < chain.len()
            invariant
                0 <= j <= chain@.len(),
                chain_v == chain@.map_values(|v: Vec<u8>| v@),
                chain_v == dir_chain(parent_of(out_file@)),
                out@.len() == j,
                forall|k: int|
                    0 <= k < j ==> out@[k]@ == (CmdV::FatMakeDir {
                        scratch: scratch@,
                        dir: chain_v[k],
                    }),
            decreases chain@.len() - j,
        {
            let d = slice_to_vec(chain[j].as_slice());
            out.push(Cmd::FatMakeDir { scratch: slice_to_vec(scratch), dir: d });
            j = j + 1;
        }
        out.push(Cmd::FatCopyIn {
            scratch: slice_to_vec(scratch),
            host_file: slice_to_vec(in_file),
            dest: slice_to_vec(out_file),
        });
        proof {
            lemma_fat_mkdirs(scratch@, dir_chain(parent_of(out_file@)));
            assert(cmds_view(out@) =~= edit_cmds(
                *kind,
                scratch@,
                in_file@,
                out_file@,
            ));
        }
    } else {
        let dir = parent_dir(out_file);
        out.push(Cmd::ExtMakeDir { scratch: slice_to_vec(scratch), dir });
        out.push(Cmd::ExtCopyIn {
            scratch: slice_to_vec(scratch),
            host_file: slice_to_vec(in_file),
            dest: slice_to_vec(out_file),
        });
        proof {
            assert(cmds_view(out@) =~= edit_cmds(
                *kind,
                scratch@,
                in_file@,
                out_file@,
            ));
        }
    }
    out
}

/// The distinct partition kinds of a batch, in order of first appearance.
pub open spec fn kinds_in_order(params: Seq<FileCopyToParams>) -> Seq<Partition>
    decreases params.len(),
{
    if params.len() == 0 {
        Seq::empty()
    } else {
        let earlier = kinds_in_order(params.drop_last());
        if earlier.contains(params.last().partition) {
            earlier
        } else {
            earlier.push(params.last().partition)
        }
    }
}

fn contains_partition(ks: &Vec<Partition>, k: &Partition) -> (r: bool)
    ensures
        r == ks@.contains(*k),
    {
    let mut i: usize = 0;
    while i < ks.len()
        invariant
            0 <= i <= ks@.len(),
            forall|j: int| 0 <= j < i ==> ks@[j] != *k,
        decreases ks@.len() - i,
    {
        if ks[i] == *k {
            return true;
        }
        i = i + 1;
    }
    false
}

/// Computes the distinct kinds of a batch, first appearance first.
pub fn batch_kinds(params: &Vec<FileCopyToParams>) -> (r: Vec<Partition>)
    ensures
        r@ == kinds_in_order(params@),
    {
    let mut out: Vec<Partition> = Vec::new();
    let mut i: usize = 0;
    proof {
        assert(params@.take(0) =~= Seq::<FileCopyToParams>::empty());
    }
    while i < params.len()
        invariant
            0 <= i <= params@.len(),
            out@ == kinds_in_order(params@.take(i as int)),
        decreases params@.len() - i,
    {
        proof {
            assert(params@.take(i + 1).drop_last() =~= params@.take(i as int));
            assert(params@.take(i + 1).last() == params@[i as int]);
        }
        let kind = params[i].partition;
        if !contains_partition(&out, &kind) {
            out.push(kind);
        }
        i = i + 1;
    }
    proof {
        assert(params@.take(params@.len() as int) =~= params@);
    }
    out
}

/// Whether any request of the batch needs the disklabel type, so that the
/// caller knows to capture the full layout listing first.
pub fn needs_disklabel(params: &Vec<FileCopyToParams>) -> (r: bool)
    ensures
        r == exists|i: int|
            0 <= i < params@.len() && (params@[i].partition == Partition::cert
                || params@[i].partition == Partition::factory),
    {
    let mut i: usize = 0;
    while i < params.len()
        invariant
            0 <= i <= params@.len(),
            forall|j: int|
                0 <= j < i ==> !(params@[j].partition == Partition::cert || params@[j].partition
                    == Partition::factory),
        decreases params@.len() - i,
    {
        let k = &params[i].partition;
        if matches!(k, Partition::cert) || matches!(k, Partition::factory) {
            return true;
        }
        i = i + 1;
    }
    false
}

/// The edit commands of a batch restricted to one partition kind, in
/// request order: requests for other kinds contribute nothing.
pub open spec fn edits_for(
    kind: Partition,
    scratch: Seq<u8>,
    params: Seq<FileCopyToParams>,
) -> Seq<CmdV>
    decreases params.len(),
{
    if params.len() == 0 {
        Seq::empty()
    } else {
        (if params.first().partition == kind {
            edit_cmds(kind, scratch, params.first().in_file@, params.first().out_file@)
        } else {
            Seq::empty()
        }) + edits_for(kind, scratch, params.drop_first())
    }
}

/// The whole command run for one partition of a copy-to batch: resolve the
/// partition's number and range, extract it once, apply every edit in
/// request order, write it back once.
pub open spec fn plan_for_kind(
    kind: Partition,
    params: Seq<FileCopyToParams>,
    image: Seq<u8>,
    workdir: Seq<u8>,
    list: Option<Seq<u8>>,
    cols: Seq<u8>,
) -> Result<Seq<CmdV>, Error> {
    match resolve_number(kind, list) {
        Err(e) => Err(e),
        Ok(num) => match range_of(cols, device_name_of(image, num as int)) {
            Err(e) => Err(e),
            Ok(rg) => {
                let scratch = scratch_partition_file(workdir, num as int);
                Ok(
                    seq![
                        CmdV::ExtractIfMissing {
                            image,
                            scratch,
                            skip: rg.0,
                            count: rg.1,
                        },
                    ] + edits_for(kind, scratch, params) + writeback_cmds(
                        image,
                        scratch,
                        rg.0,
                        rg.1,
                    ),
                )
            },
        },
    }
}

/// Lays out the command run for one partition of a copy-to batch.
fn plan_for_kind_exec(
    kind: &Partition,
    params: &Vec<FileCopyToParams>,
    image: &[u8],
    workdir: &[u8],
    list: &Option<Vec<u8>>,
    cols: &[u8],
) -> (r: Result<Vec<Cmd>, Error>)
    ensures
        match r {
            Ok(cmds) => plan_for_kind(*kind, params@, image@, workdir@, opt_view(*list), cols@)
                == Ok::<Seq<CmdV>, Error>(cmds_view(cmds@)),
            Err(e) => plan_for_kind(*kind, params@, image@, workdir@, opt_view(*list), cols@)
                == Err::<Seq<CmdV>, Error>(e),
        },
    {
    let num = match get_partition_num(kind, list) {
        Ok(n) => n,
        Err(e) => {
            return Err(e);
        },
    };
    let device = device_name(image, num as u64);
    let rg = match parse_partition_range(cols, device.as_slice()) {
        Ok(rg) => rg,
        Err(e) => {
            return Err(e);
        },
    };
    let scratch = scratch_partition_path(workdir, num as u64);
    let mut out: Vec<Cmd> = Vec::new();
    out.push(Cmd::ExtractIfMissing {
        image: slice_to_vec(image),
        scratch: slice_to_vec(scratch.as_slice()),
        skip: rg.start,
        count: rg.count,
    });
    let ghost scratch_v = scratch@;
    let ghost head = seq![
        CmdV::ExtractIfMissing {
            image: image@,
            scratch: scratch_v,
            skip: rg.start as int,
            count: rg.count as int,
        },
    ];
    let mut j: usize = 0;
    proof {
        assert(params@.skip(0) =~= params@);
        assert(cmds_view(out@) =~= head);
    }
    while j < params.len()
        invariant
            0 <= j <= params@.len(),
            scratch_v == scratch@,
            head + edits_for(*kind, scratch_v, params@) == cmds_view(out@) + edits_for(
                *kind,
                scratch_v,
                params@.skip(j as int),
            ),
        decreases params@.len() - j,
    {
        let p = &params[j];
        proof {
            assert(params@.skip(j as int).first() == params@[j as int]);
            assert(params@.skip(j as int).drop_first() =~= params@.skip(j + 1));
        }
        if p.partition == *kind {
            let mut piece = edit_cmds_exec(
                kind,
                scratch.as_slice(),
                p.in_file.as_slice(),
                p.out_file.as_slice(),
            );
            let ghost out_before = out@;
            let ghost piece_v = piece@;
            out.append(&mut piece);
            proof {
                assert(cmds_view(out@) =~= cmds_view(out_before) + cmds_view(piece_v));
                assert(cmds_view(out@) + edits_for(*kind, scratch_v, params@.skip(j + 1))
                    =~= cmds_view(out_before) + edits_for(
                    *kind,
                    scratch_v,
                    params@.skip(j as int),
                ));
            }
        }
        j = j + 1;
    }
    proof {
        assert(params@.skip(params@.len() as int) =~= Seq::<FileCopyToParams>::empty());
    }
    let mut tail = write_partition(image, scratch.as_slice(), &rg);
    let ghost out_before = out@;
    let ghost tail_v = tail@;
    out.append(&mut tail);
    proof {
        assert(cmds_view(out@) =~= cmds_view(out_before)
            + cmds_view(tail_v));
        assert(cmds_view(out@) =~= head + edits_for(
            *kind,
            scratch_v,
            params@,
        ) + writeback_cmds(image@, scratch_v, rg.start as int, rg.count as int));
    }
    Ok(out)
}

/// The whole command run of a copy-to batch: one run per distinct kind, in
/// order of first appearance; the first resolution failure fails the batch.
pub open spec fn plan_for_kinds(
    kinds: Seq<Partition>,
    params: Seq<FileCopyToParams>,
    image: Seq<u8>,
    workdir: Seq<u8>,
    list: Option<Seq<u8>>,
    cols: Seq<u8>,
) -> Result<Seq<CmdV>, Error>
    decreases kinds.len(),
{
    if kinds.len() == 0 {
        Ok(Seq::empty())
    } else {
        match plan_for_kind(kinds.first(), params, image, workdir, list, cols) {
            Err(e) => Err(e),
            Ok(head) => match plan_for_kinds(kinds.drop_first(), params, image, workdir, list,
                cols) {
                Err(e) => Err(e),
                Ok(tail) => Ok(head + tail),
            },
        }
    }
}

/// What `copy_to_image` lays out for a batch.
pub open spec fn copy_to_plan(
    params: Seq<FileCopyToParams>,
    image: Seq<u8>,
    workdir: Seq<u8>,
    list: Option<Seq<u8>>,
    cols: Seq<u8>,
) -> Result<Seq<CmdV>, Error> {
    plan_for_kinds(kinds_in_order(params), params, image, workdir, list, cols)
}

/// Lays out a whole copy-to batch against the captured layout listings:
/// requests are grouped by partition kind, and every touched partition is
/// extracted exactly once and written back exactly once, however many files
/// go into it.
pub fn copy_to_image(
    params: &Vec<FileCopyToParams>,
    image: &[u8],
    workdir: &[u8],
    list: &Option<Vec<u8>>,
    cols: &[u8],
) -> (r: Result<Vec<Cmd>, Error>)
    ensures
        match r {
            Ok(cmds) => copy_to_plan(params@, image@, workdir@, opt_view(*list), cols@)
                == Ok::<Seq<CmdV>, Error>(cmds_view(cmds@)),
            Err(e) => copy_to_plan(params@, image@, workdir@, opt_view(*list), cols@)
                == Err::<Seq<CmdV>, Error>(e),
        },
    {
    let kinds = batch_kinds(params);
    let ghost kinds_v = kinds@;
    let mut out: Vec<Cmd> = Vec::new();
    let mut i: usize = 0;
    proof {
        assert(kinds_v.skip(0) =~= kinds_v);
        assert(cmds_view(out@) =~= Seq::<CmdV>::empty());
    }
    while i < kinds.len()
        invariant
            0 <= i <= kinds@.len(),
            kinds_v == kinds@,
            kinds_v == kinds_in_order(params@),
            (match plan_for_kinds(kinds_v.skip(i as int), params@, image@, workdir@,
                opt_view(*list), cols@) {
                Ok(rest) => copy_to_plan(params@, image@, workdir@, opt_view(*list), cols@)
                    == Ok::<Seq<CmdV>, Error>(cmds_view(out@) + rest),
                Err(e) => copy_to_plan(params@, image@, workdir@, opt_view(*list), cols@)
                    == Err::<Seq<CmdV>, Error>(e),
            }),
        decreases kinds@.len() - i,
    {
        proof {
            assert(kinds_v.skip(i as int).first() == kinds_v[i as int]);
            assert(kinds_v.skip(i as int).drop_first() =~= kinds_v.skip(i + 1));
        }
        let mut piece = match plan_for_kind_exec(&kinds[i], params, image, workdir, list, cols) {
            Ok(p) => p,
            Err(e) => {
                return Err(e);
            },
        };
        let ghost out_before = out@;
        let ghost piece_v = piece@;
        out.append(&mut piece);
        proof {
            assert(cmds_view(out@) =~= cmds_view(out_before)
                + cmds_view(piece_v));
            let rest_r = plan_for_kinds(kinds_v.skip(i + 1), params@, image@, workdir@,
                opt_view(*list), cols@);
            if let Ok(rest) = rest_r {
                assert(cmds_view(out@) + rest =~= cmds_view(out_before)
                    + (cmds_view(piece_v) + rest));
            }
        }
        i = i + 1;
    }
    proof {
        assert(kinds_v.skip(kinds_v.len() as int) =~= Seq::<Partition>::empty());
        assert(cmds_view(out@) + Seq::<CmdV>::empty() =~= out@.map_values(
            |c: Cmd| c@,
        ));
    }
    Ok(out)
}

/// The command run for one copy-from request: resolve and extract the
/// partition, copy the file to a working-directory temporary named after the
/// file, then create the destination's directory and move the temporary into
/// place. Copying out of an ext partition is followed by an existence check,
/// because that delegate reports success even on failure.
pub open spec fn copy_from_cmds(
    p: FileCopyFromParams,
    image: Seq<u8>,
    workdir: Seq<u8>,
    list: Option<Seq<u8>>,
    cols: Seq<u8>,
) -> Result<Seq<CmdV>, Error> {
    match resolve_number(p.partition, list) {
        Err(e) => Err(e),
        Ok(num) => match range_of(cols, device_name_of(image, num as int)) {
            Err(e) => Err(e),
            Ok(rg) => {
                let scratch = scratch_partition_file(workdir, num as int);
                let tmp = workdir + seq![SLASH] + (if p.partition == Partition::boot {
                    file_name_of(p.in_file@)
                } else {
                    file_name_of(p.out_file@)
                });
                Ok(
                    seq![
                        CmdV::ExtractIfMissing {
                            image,
                            scratch,
                            skip: rg.0,
                            count: rg.1,
                        },
                    ] + (if p.partition == Partition::boot {
                        seq![
                            CmdV::FatCopyOut { scratch, src: p.in_file@, host_dir: workdir },
                        ]
                    } else {
                        seq![
                            CmdV::ExtCopyOut { scratch, src: p.in_file@, host_file: tmp },
                            CmdV::VerifyExists { path: tmp },
                        ]
                    }) + (if has_parent(p.out_file@) {
                        seq![CmdV::HostMakeDirAll { path: parent_of(p.out_file@) }]
                    } else {
                        Seq::empty()
                    }) + seq![CmdV::HostRename { from: tmp, to: p.out_file@ }],
                )
            },
        },
    }
}

/// Lays out the command run for one copy-from request.
fn copy_from_cmds_exec(
    p: &FileCopyFromParams,
    image: &[u8],
    workdir: &[u8],
    list: &Option<Vec<u8>>,
    cols: &[u8],
) -> (r: Result<Vec<Cmd>, Error>)
    ensures
        match r {
            Ok(cmds) => copy_from_cmds(*p, image@, workdir@, opt_view(*list), cols@)
                == Ok::<Seq<CmdV>, Error>(cmds_view(cmds@)),
            Err(e) => copy_from_cmds(*p, image@, workdir@, opt_view(*list), cols@)
                == Err::<Seq<CmdV>, Error>(e),
        },
    {
    let num = match get_partition_num(&p.partition, list) {
        Ok(n) => n,
        Err(e) => {
            return Err(e);
        },
    };
    let device = device_name(image, num as u64);
    let rg = match parse_partition_range(cols, device.as_slice()) {
        Ok(rg) => rg,
        Err(e) => {
            return Err(e);
        },
    };
    let scratch = scratch_partition_path(workdir, num as u64);
    let is_boot = matches!(p.partition, Partition::boot);
    let name = if is_boot {
        file_name(p.in_file.as_slice())
    } else {
        file_name(p.out_file.as_slice())
    };
    let mut wd_slash = slice_to_vec(workdir);
    wd_slash.push(SLASH);
    let tmp = bytes_concat(wd_slash.as_slice(), name.as_slice());
    proof {
        assert(wd_slash@ =~= workdir@ + seq![SLASH]);
    }
    let mut out: Vec<Cmd> = Vec::new();
    out.push(Cmd::ExtractIfMissing {
        image: slice_to_vec(image),
        scratch: slice_to_vec(scratch.as_slice()),
        skip: rg.start,
        count: rg.count,
    });
    if is_boot {
        out.push(Cmd::FatCopyOut {
            scratch: slice_to_vec(scratch.as_slice()),
            src: slice_to_vec(p.in_file.as_slice()),
            host_dir: slice_to_vec(workdir),
        });
    } else {
        out.push(Cmd::ExtCopyOut {
            scratch: slice_to_vec(scratch.as_slice()),
            src: slice_to_vec(p.in_file.as_slice()),
            host_file: slice_to_vec(tmp.as_slice()),
        });
        out.push(Cmd::VerifyExists { path: slice_to_vec(tmp.as_slice()) });
    }
    let has_dir = {
        let mut found = false;
        let mut i: usize = 0;
        while i < p.out_file.len()
            invariant
                0 <= i <= p.out_file@.len(),
                found == exists|k: int| 0 <= k < i && p.out_file@[k] == SLASH,
            decreases p.out_file@.len() - i,
        {
            if p.out_file[i] == SLASH {
                found = true;
            }
            i = i + 1;
        }
        found
    };
    proof {
        crate::paths::lemma_last_pos(p.out_file@, SLASH);
        if has_dir {
            assert(has_parent(p.out_file@));
        } else {
            assert(!has_parent(p.out_file@)) by {
                if last_pos(p.out_file@, SLASH) >= 0 {
                    assert(p.out_file@[last_pos(p.out_file@, SLASH)] == SLASH);
                }
            }
        }
    }
    if has_dir {
        let dir = parent_dir(p.out_file.as_slice());
        out.push(Cmd::HostMakeDirAll { path: dir });
    }
    out.push(Cmd::HostRename {
        from: slice_to_vec(tmp.as_slice()),
        to: slice_to_vec(p.out_file.as_slice()),
    });
    proof {
        assert(cmds_view(out@) =~= copy_from_cmds(
            *p,
            image@,
            workdir@,
            opt_view(*list),
            cols@,
        )->Ok_0);
    }
    Ok(out)
}

/// The command runs of a whole copy-from batch, one request at a time, in
/// order; the first resolution failure fails the batch.
pub open spec fn copy_from_plan(
    params: Seq<FileCopyFromParams>,
    image: Seq<u8>,
    workdir: Seq<u8>,
    list: Option<Seq<u8>>,
    cols: Seq<u8>,
) -> Result<Seq<CmdV>, Error>
    decreases params.len(),
{
    if params.len() == 0 {
        Ok(Seq::empty())
    } else {
        match copy_from_cmds(params.first(), image, workdir, list, cols) {
            Err(e) => Err(e),
            Ok(head) => match copy_from_plan(params.drop_first(), image, workdir, list, cols) {
                Err(e) => Err(e),
                Ok(tail) => Ok(head + tail),
            },
        }
    }
}

/// Lays out a whole copy-from batch against the captured layout listings.
/// Unlike `copy_to_image`, requests are handled one by one, not grouped by
/// partition; a partition named twice is extracted once only because its
/// scratch file exists after the first request.
pub fn copy_from_image(
    params: &Vec<FileCopyFromParams>,
    image: &[u8],
    workdir: &[u8],
    list: &Option<Vec<u8>>,
    cols: &[u8],
) -> (r: Result<Vec<Cmd>, Error>)
    ensures
        match r {
            Ok(cmds) => copy_from_plan(params@, image@, workdir@, opt_view(*list), cols@)
                == Ok::<Seq<CmdV>, Error>(cmds_view(cmds@)),
            Err(e) => copy_from_plan(params@, image@, workdir@, opt_view(*list), cols@)
                == Err::<Seq<CmdV>, Error>(e),
        },
    {
    let mut out: Vec<Cmd> = Vec::new();
    let mut i: usize = 0;
    proof {
        assert(params@.skip(0) =~= params@);
        assert(cmds_view(out@) =~= Seq::<CmdV>::empty());
    }
    while i < params.len()
        invariant
            0 <= i <= params@.len(),
            (match copy_from_plan(params@.skip(i as int), image@, workdir@, opt_view(*list),
                cols@) {
                Ok(rest) => copy_from_plan(params@, image@, workdir@, opt_view(*list), cols@)
                    == Ok::<Seq<CmdV>, Error>(cmds_view(out@) + rest),
                Err(e) => copy_from_plan(params@, image@, workdir@, opt_view(*list), cols@)
                    == Err::<Seq<CmdV>, Error>(e),
            }),
        decreases params@.len() - i,
    {
        proof {
            assert(params@.skip(i as int).first() == params@[i as int]);
            assert(params@.skip(i as int).drop_first() =~= params@.skip(i + 1));
        }
        let mut piece = match copy_from_cmds_exec(&params[i], image, workdir, list, cols) {
            Ok(c) => c,
            Err(e) => {
                return Err(e);
            },
        };
        let ghost out_before = out@;
        let ghost piece_v = piece@;
        out.append(&mut piece);
        proof {
            assert(cmds_view(out@) =~= cmds_view(out_before) + cmds_view(piece_v));
            let rest_r = copy_from_plan(params@.skip(i + 1), image@, workdir@, opt_view(*list),
                cols@);
            if let Ok(rest) = rest_r {
                assert(cmds_view(out@) + rest =~= cmds_view(out_before) + (cmds_view(piece_v)
                    + rest));
            }
        }
        i = i + 1;
    }
    proof {
        assert(params@.skip(params@.len() as int) =~= Seq::<FileCopyFromParams>::empty());
        assert(cmds_view(out@) + Seq::<CmdV>::empty() =~= cmds_view(out@));
    }
    Ok(out)
}

/// How many partition-extraction commands a plan holds.
pub open spec fn count_extracts(cs: Seq<CmdV>) -> nat
    decreases cs.len(),
{
    if cs.len() == 0 {
        0
    } else {
        (if cs.first() is ExtractIfMissing {
            1nat
        } else {
            0nat
        }) + count_extracts(cs.drop_first())
    }
}

/// How many partition write-back commands a plan holds.
pub open spec fn count_writebacks(cs: Seq<CmdV>) -> nat
    decreases cs.len(),
{
    if cs.len() == 0 {
        0
    } else {
        (if cs.first() is SectorWrite {
            1nat
        } else {
            0nat
        }) + count_writebacks(cs.drop_first())
    }
}

proof fn lemma_count_add(a: Seq<CmdV>, b: Seq<CmdV>)
    ensures
        count_extracts(a + b) == count_extracts(a) + count_extracts(b),
        count_writebacks(a + b) == count_writebacks(a) + count_writebacks(b),
    decreases a.len(),
{
    if a.len() == 0 {
        assert(a + b =~= b);
    } else {
        assert((a + b).first() == a.first());
        assert((a + b).drop_first() =~= a.drop_first() + b);
        lemma_count_add(a.drop_first(), b);
    }
}

proof fn lemma_count_singleton(c: CmdV)
    ensures
        count_extracts(seq![c]) == (if c is ExtractIfMissing {
            1nat
        } else {
            0nat
        }),
        count_writebacks(seq![c]) == (if c is SectorWrite {
            1nat
        } else {
            0nat
        }),
{
    assert(seq![c].drop_first() =~= Seq::<CmdV>::empty());
    assert(count_extracts(Seq::<CmdV>::empty()) == 0) by {
        reveal_with_fuel(count_extracts, 1);
    }
    assert(count_writebacks(Seq::<CmdV>::empty()) == 0) by {
        reveal_with_fuel(count_writebacks, 1);
    }
    assert(seq![c].first() == c);
    assert(count_extracts(seq![c]) == (if c is ExtractIfMissing { 1nat } else { 0nat })
        + count_extracts(Seq::<CmdV>::empty())) by {
        reveal_with_fuel(count_extracts, 1);
    }
    assert(count_writebacks(seq![c]) == (if c is SectorWrite { 1nat } else { 0nat })
        + count_writebacks(Seq::<CmdV>::empty())) by {
        reveal_with_fuel(count_writebacks, 1);
    }
}

proof fn lemma_fat_mkdirs_counts(scratch: Seq<u8>, chain: Seq<Seq<u8>>)
    ensures
        count_extracts(fat_mkdirs(scratch, chain)) == 0,
        count_writebacks(fat_mkdirs(scratch, chain)) == 0,
    decreases chain.len(),
{
    if chain.len() > 0 {
        lemma_fat_mkdirs_counts(scratch, chain.drop_first());
        lemma_count_singleton(CmdV::FatMakeDir { scratch, dir: chain.first() });
        lemma_count_add(
            seq![CmdV::FatMakeDir { scratch, dir: chain.first() }],
            fat_mkdirs(scratch, chain.drop_first()),
        );
    }
}

proof fn lemma_edit_cmds_counts(
    kind: Partition,
    scratch: Seq<u8>,
    in_file: Seq<u8>,
    out_file: Seq<u8>,
)
    ensures
        count_extracts(edit_cmds(kind, scratch, in_file, out_file)) == 0,
        count_writebacks(edit_cmds(kind, scratch, in_file, out_file)) == 0,
{
    if kind == Partition::boot {
        let copy = CmdV::FatCopyIn { scratch, host_file: in_file, dest: out_file };
        lemma_fat_mkdirs_counts(scratch, dir_chain(parent_of(out_file)));
        lemma_count_singleton(copy);
        lemma_count_add(fat_mkdirs(scratch, dir_chain(parent_of(out_file))), seq![copy]);
    } else {
        let mk = CmdV::ExtMakeDir { scratch, dir: parent_of(out_file) };
        let copy = CmdV::ExtCopyIn { scratch, host_file: in_file, dest: out_file };
        lemma_count_singleton(mk);
        lemma_count_singleton(copy);
        lemma_count_add(seq![mk], seq![copy]);
        assert(edit_cmds(kind, scratch, in_file, out_file) =~= seq![mk] + seq![copy]);
    }
}

proof fn lemma_edits_for_counts(kind: Partition, scratch: Seq<u8>, params: Seq<FileCopyToParams>)
    ensures
        count_extracts(edits_for(kind, scratch, params)) == 0,
        count_writebacks(edits_for(kind, scratch, params)) == 0,
    decreases params.len(),
{
    if params.len() > 0 {
        let head = if params.first().partition == kind {
            edit_cmds(kind, scratch, params.first().in_file@, params.first().out_file@)
        } else {
            Seq::<CmdV>::empty()
        };
        lemma_edit_cmds_counts(kind, scratch, params.first().in_file@, params.first().out_file@);
        lemma_edits_for_counts(kind, scratch, params.drop_first());
        lemma_count_add(head, edits_for(kind, scratch, params.drop_first()));
    }
}

proof fn lemma_plan_for_kind_counts(
    kind: Partition,
    params: Seq<FileCopyToParams>,
    image: Seq<u8>,
    workdir: Seq<u8>,
    list: Option<Seq<u8>>,
    cols: Seq<u8>,
)
    requires
        plan_for_kind(kind, params, image, workdir, list, cols) is Ok,
    ensures
        count_extracts(plan_for_kind(kind, params, image, workdir, list, cols)->Ok_0) == 1,
        count_writebacks(plan_for_kind(kind, params, image, workdir, list, cols)->Ok_0) == 1,
{
    let num = resolve_number(kind, list)->Ok_0;
    let rg = range_of(cols, device_name_of(image, num as int))->Ok_0;
    let scratch = scratch_partition_file(workdir, num as int);
    let head = seq![
        CmdV::ExtractIfMissing { image, scratch, skip: rg.0, count: rg.1 },
    ];
    let mid = edits_for(kind, scratch, params);
    let tail = writeback_cmds(image, scratch, rg.0, rg.1);
    let whole = plan_for_kind(kind, params, image, workdir, list, cols)->Ok_0;
    assert(whole == head + mid + tail);
    lemma_count_singleton(head[0]);
    assert(head =~= seq![head[0]]);
    lemma_edits_for_counts(kind, scratch, params);
    lemma_count_singleton(tail[0]);
    lemma_count_singleton(tail[1]);
    lemma_count_singleton(tail[2]);
    lemma_count_add(seq![tail[1]], seq![tail[2]]);
    lemma_count_add(seq![tail[0]], seq![tail[1]] + seq![tail[2]]);
    assert(tail =~= seq![tail[0]] + (seq![tail[1]] + seq![tail[2]]));
    lemma_count_add(head, mid);
    lemma_count_add(head + mid, tail);
}

proof fn lemma_plan_for_kinds_counts(
    kinds: Seq<Partition>,
    params: Seq<FileCopyToParams>,
    image: Seq<u8>,
    workdir: Seq<u8>,
    list: Option<Seq<u8>>,
    cols: Seq<u8>,
)
    requires
        plan_for_kinds(kinds, params, image, workdir, list, cols) is Ok,
    ensures
        count_extracts(plan_for_kinds(kinds, params, image, workdir, list, cols)->Ok_0)
            == kinds.len(),
        count_writebacks(plan_for_kinds(kinds, params, image, workdir, list, cols)->Ok_0)
            == kinds.len(),
    decreases kinds.len(),
{
    if kinds.len() > 0 {
        let head = plan_for_kind(kinds.first(), params, image, workdir, list, cols)->Ok_0;
        let tail = plan_for_kinds(kinds.drop_first(), params, image, workdir, list, cols)->Ok_0;
        lemma_plan_for_kind_counts(kinds.first(), params, image, workdir, list, cols);
        lemma_plan_for_kinds_counts(kinds.drop_first(), params, image, workdir, list, cols);
        lemma_count_add(head, tail);
    }
}

/// Batching: however many files a copy-to batch sends to however many
/// partitions, its plan extracts each touched partition exactly once and
/// writes it back exactly once — the number of sector-copy rounds equals the
/// number of distinct partition kinds touched, not the number of files.
pub proof fn lemma_copy_to_batching(
    params: Seq<FileCopyToParams>,
    image: Seq<u8>,
    workdir: Seq<u8>,
    list: Option<Seq<u8>>,
    cols: Seq<u8>,
)
    requires
        copy_to_plan(params, image, workdir, list, cols) is Ok,
    ensures
        count_extracts(copy_to_plan(params, image, workdir, list, cols)->Ok_0)
            == kinds_in_order(params).len(),
        count_writebacks(copy_to_plan(params, image, workdir, list, cols)->Ok_0)
            == kinds_in_order(params).len(),
{
    lemma_plan_for_kinds_counts(kinds_in_order(params), params, image, workdir, list, cols);
}

/// The kinds of a batch are listed without repetition: the counts of
/// `lemma_copy_to_batching` really are counts of distinct partitions.
pub proof fn lemma_kinds_distinct(params: Seq<FileCopyToParams>)
    ensures
        forall|i: int, j: int|
            0 <= i < j < kinds_in_order(params).len() ==> kinds_in_order(params)[i]
                != kinds_in_order(params)[j],
    decreases params.len(),
{
    if params.len() > 0 {
        lemma_kinds_distinct(params.drop_last());
        let earlier = kinds_in_order(params.drop_last());
        if !earlier.contains(params.last().partition) {
            assert forall|i: int, j: int|
                0 <= i < j < kinds_in_order(params).len() implies kinds_in_order(params)[i]
                != kinds_in_order(params)[j] by {
                if j == kinds_in_order(params).len() - 1 {
                    assert(kinds_in_order(params)[i] == earlier[i]);
                    assert(!earlier.contains(params.last().partition));
                }
            }
        }
    }
}

/// Round trip at the addressing level: a copy-to run for a partition kind
/// and a copy-from request for the same kind, planned against the same image
/// and listings, extract the very same scratch file from the very same
/// sector range — so the bytes read back come from where the write-back put
/// them. The content carried through the delegate editors is outside the
/// plan's model.
pub proof fn lemma_round_trip_addressing(
    kind: Partition,
    params: Seq<FileCopyToParams>,
    p: FileCopyFromParams,
    image: Seq<u8>,
    workdir: Seq<u8>,
    list: Option<Seq<u8>>,
    cols: Seq<u8>,
)
    requires
        p.partition == kind,
        plan_for_kind(kind, params, image, workdir, list, cols) is Ok,
    ensures
        copy_from_cmds(p, image, workdir, list, cols) is Ok,
        (copy_from_cmds(p, image, workdir, list, cols)->Ok_0)[0] == (plan_for_kind(
            kind,
            params,
            image,
            workdir,
            list,
            cols,
        )->Ok_0)[0],
        (plan_for_kind(kind, params, image, workdir, list, cols)->Ok_0)[(plan_for_kind(
            kind,
            params,
            image,
            workdir,
            list,
            cols,
        )->Ok_0).len() - 3] == (CmdV::SectorWrite {
            scratch: scratch_partition_file(
                workdir,
                resolve_number(kind, list)->Ok_0 as int,
            ),
            image,
            seek: (plan_for_kind(kind, params, image, workdir, list, cols)->Ok_0)[0]->ExtractIfMissing_skip,
            count: (plan_for_kind(kind, params, image, workdir, list, cols)->Ok_0)[0]->ExtractIfMissing_count,
        }),
{
    let num = resolve_number(kind, list)->Ok_0;
    let rg = range_of(cols, device_name_of(image, num as int))->Ok_0;
    let scratch = scratch_partition_file(workdir, num as int);
    let ex = CmdV::ExtractIfMissing { image, scratch, skip: rg.0, count: rg.1 };
    let whole = plan_for_kind(kind, params, image, workdir, list, cols)->Ok_0;
    let head = seq![ex];
    let mid = edits_for(kind, scratch, params);
    let tail = writeback_cmds(image, scratch, rg.0, rg.1);
    assert(whole == head + mid + tail);
    assert(whole[0] == ex);
    assert(whole.len() == 4 + mid.len());
    assert(whole[whole.len() - 3] == tail[0]);
    assert((copy_from_cmds(p, image, workdir, list, cols)->Ok_0)[0] == ex);
}

/// The block-map sidecar command for an image.
pub fn generate_bmap_file(image: &[u8]) -> (r: Cmd)
    ensures
        r@ == (CmdV::GenerateBmap { image: image@ }),
    {
    Cmd::GenerateBmap { image: slice_to_vec(image) }
}

} // verus!

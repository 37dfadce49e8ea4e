//! Path arithmetic on byte-string paths.
//!
//! Paths are plain byte strings cut at `/`. The rules here are deliberately
//! literal: a path's parent is everything before its last slash, its file
//! name everything after. Degenerate shapes (doubled or trailing slashes)
//! follow from those rules rather than from any normalization.

use vstd::prelude::*;

verus! {

use vstd::slice::slice_to_vec;
use crate::bytes::{scan, pred_eq, scan_eq, lemma_scan, SLASH, DOT, DIGIT_ZERO};

/// The index of the last occurrence of `t` in `s`, or -1 when there is none.
pub open spec fn last_pos(s: Seq<u8>, t: u8) -> int
    decreases s.len(),
{
    if s.len() == 0 {
        -1
    } else if s.last() == t {
        s.len() - 1
    } else {
        last_pos(s.drop_last(), t)
    }
}

pub proof fn lemma_last_pos(s: Seq<u8>, t: u8)
    ensures
        -1 <= last_pos(s, t) < s.len(),
        last_pos(s, t) >= 0 ==> s[last_pos(s, t)] == t,
        forall|k: int| last_pos(s, t) < k < s.len() ==> s[k] != t,
    decreases s.len(),
{
    if s.len() > 0 && s.last() != t {
        lemma_last_pos(s.drop_last(), t);
        assert forall|k: int| last_pos(s, t) < k < s.len() implies s[k] != t by {
            if k < s.len() - 1 {
                assert(s[k] == s.drop_last()[k]);
            }
        }
    }
}

/// Finds the last occurrence of `t` in `s`.
pub fn rfind(s: &[u8], t: u8) -> (r: Option<usize>)
    ensures
        r == (if last_pos(s@, t) >= 0 {
            Some(last_pos(s@, t) as usize)
        } else {
            None::<usize>
        }),
    {
    let mut i = s.len();
    proof {
        assert(s@.take(s@.len() as int) =~= s@);
    }
    while i > 0
        invariant
            0 <= i <= s@.len(),
            last_pos(s@, t) == last_pos(s@.take(i as int), t),
        decreases i,
    {
        proof {
            assert(s@.take(i as int).drop_last() =~= s@.take(i - 1));
            assert(s@.take(i as int).last() == s@[i - 1]);
        }
        if s[i - 1] == t {
            return Some(i - 1);
        }
        i = i - 1;
    }
    proof {
        assert(s@.take(0) =~= Seq::<u8>::empty());
    }
    None
}

/// Everything before the last slash; the root path when the last slash leads
/// the path. Meaningful only for paths that hold a slash.
pub open spec fn parent_of(p: Seq<u8>) -> Seq<u8> {
    if last_pos(p, SLASH) <= 0 {
        seq![SLASH]
    } else {
        p.take(last_pos(p, SLASH))
    }
}

/// Whether the path holds a slash at all, so that `parent_of` speaks of it.
pub open spec fn has_parent(p: Seq<u8>) -> bool {
    last_pos(p, SLASH) >= 0
}

/// Everything after the last slash — the whole path when it has no slash.
pub open spec fn file_name_of(p: Seq<u8>) -> Seq<u8> {
    p.subrange(last_pos(p, SLASH) + 1, p.len() as int)
}

/// Whether the path ends in a non-empty file name.
pub open spec fn has_file_name(p: Seq<u8>) -> bool {
    file_name_of(p).len() > 0
}

/// Computes `parent_of(p)`.
pub fn parent_dir(p: &[u8]) -> (r: Vec<u8>)
    ensures
        r@ == parent_of(p@),
    {
    proof {
        lemma_last_pos(p@, SLASH);
    }
    let plen = p.len();
    let found = rfind(p, SLASH);
    if let Some(k) = found {
        if k > 0 {
            proof {
                assert(k < p@.len());
            }
            let r = slice_to_vec(&p[0..k]);
            proof {
                assert(r@ =~= parent_of(p@));
            }
            return r;
        }
    }
    let mut v: Vec<u8> = Vec::new();
    v.push(SLASH);
    proof {
        assert(v@ =~= seq![SLASH]);
    }
    v
}

/// Computes `file_name_of(p)`.
pub fn file_name(p: &[u8]) -> (r: Vec<u8>)
    ensures
        r@ == file_name_of(p@),
    {
    proof {
        lemma_last_pos(p@, SLASH);
    }
    let plen = p.len();
    let found = rfind(p, SLASH);
    let r = if let Some(k) = found {
        proof {
            assert(k < p@.len());
        }
        slice_to_vec(&p[k + 1..plen])
    } else {
        slice_to_vec(&p[0..plen])
    };
    proof {
        assert(r@ =~= file_name_of(p@));
    }
    r
}

/// Glues two byte strings together.
pub fn bytes_concat(a: &[u8], b: &[u8]) -> (r: Vec<u8>)
    ensures
        r@ == a@ + b@,
    {
    let mut out = slice_to_vec(a);
    let mut i: usize = 0;
    while i < b.len()
        invariant
            0 <= i <= b@.len(),
            out@ == a@ + b@.take(i as int),
        decreases b@.len() - i,
    {
        out.push(b[i]);
        proof {
            assert(a@ + b@.take(i + 1) =~= (a@ + b@.take(i as int)).push(b@[i as int]));
        }
        i = i + 1;
    }
    proof {
        assert(b@.take(b@.len() as int) =~= b@);
    }
    out
}

/// The canonical decimal digits of `n`, most significant first.
pub open spec fn dec_digits(n: int) -> Seq<u8>
    decreases n,
{
    if n < 10 {
        seq![(DIGIT_ZERO + if n >= 0 {
            n
        } else {
            0
        }) as u8]
    } else {
        dec_digits(n / 10).push((DIGIT_ZERO + n % 10) as u8)
    }
}

/// Writes `n` in decimal.
pub fn dec_bytes(n: u64) -> (r: Vec<u8>)
    ensures
        r@ == dec_digits(n as int),
    decreases n,
    {
    if n < 10 {
        let mut v: Vec<u8> = Vec::new();
        v.push(DIGIT_ZERO + n as u8);
        proof {
            assert(v@ =~= seq![(DIGIT_ZERO + n as int) as u8]);
        }
        v
    } else {
        let mut v = dec_bytes(n / 10);
        v.push(DIGIT_ZERO + (n % 10) as u8);
        v
    }
}

/// The chain of directories leading to `d`, shortest first, starting after
/// position `i`. Empty path segments (doubled slashes) contribute nothing.
pub open spec fn chain_from(d: Seq<u8>, i: int) -> Seq<Seq<u8>>
    decreases d.len() - i,
    via chain_from_decreases
{
    if i < 0 || i >= d.len() {
        Seq::empty()
    } else {
        let n = scan(d, i, pred_eq(SLASH));
        if n == i {
            chain_from(d, i + 1)
        } else if n >= d.len() {
            seq![d]
        } else {
            seq![d.take(n)] + chain_from(d, n + 1)
        }
    }
}

#[via_fn]
proof fn chain_from_decreases(d: Seq<u8>, i: int) {
    if 0 <= i < d.len() {
        lemma_scan(d, i, pred_eq(SLASH));
    }
}

/// Every directory that must exist for the absolute directory path `d`,
/// shortest first: for `/a/b` the chain is `/a`, `/a/b`; for `/` it is empty.
pub open spec fn dir_chain(d: Seq<u8>) -> Seq<Seq<u8>> {
    chain_from(d, 1)
}

/// Computes `dir_chain(d)`.
pub fn dir_chain_paths(d: &[u8]) -> (r: Vec<Vec<u8>>)
    ensures
        r@.map_values(|v: Vec<u8>| v@) == dir_chain(d@),
    {
    let mut out: Vec<Vec<u8>> = Vec::new();
    let mut i: usize = 1;
    proof {
        assert(out@.map_values(|v: Vec<u8>| v@) + chain_from(d@, 1) =~= chain_from(d@, 1));
    }
    while i < d.len()
        invariant
            1 <= i,
            dir_chain(d@) == out@.map_values(|v: Vec<u8>| v@) + chain_from(d@, i as int),
        decreases d@.len() - i,
    {
        let n = scan_eq(d, i, SLASH);
        if n == i {
            i = i + 1;
        } else if n >= d.len() {
            let whole = slice_to_vec(&d[0..d.len()]);
            out.push(whole);
            proof {
                assert(d@.subrange(0, d@.len() as int) =~= d@);
                assert(out@.map_values(|v: Vec<u8>| v@) =~= out@.drop_last().map_values(
                    |v: Vec<u8>| v@,
                ) + seq![d@]);
                assert(chain_from(d@, d@.len() as int) =~= Seq::<Seq<u8>>::empty());
                assert(out@.map_values(|v: Vec<u8>| v@) + chain_from(d@, d@.len() as int)
                    =~= out@.map_values(|v: Vec<u8>| v@));
            }
            i = d.len();
        } else {
            let prefix = slice_to_vec(&d[0..n]);
            out.push(prefix);
            proof {
                assert(d@.subrange(0, n as int) =~= d@.take(n as int));
                assert(out@.map_values(|v: Vec<u8>| v@) =~= out@.drop_last().map_values(
                    |v: Vec<u8>| v@,
                ) + seq![d@.take(n as int)]);
                assert(out@.map_values(|v: Vec<u8>| v@) + chain_from(d@, n + 1) =~= dir_chain(
                    d@,
                ));
            }
            i = n + 1;
        }
    }
    out
}

/// The bytes of `.img`, the scratch partition file suffix.
pub open spec fn img_suffix() -> Seq<u8> {
    seq![DOT, 105u8, 109u8, 103u8]
}

/// The name of one partition's scratch file: `<number>.img` beside the image.
pub open spec fn scratch_partition_file(workdir: Seq<u8>, number: int) -> Seq<u8> {
    workdir + seq![SLASH] + dec_digits(number) + img_suffix()
}

/// The device name a layout row carries: the image path with the partition
/// number appended.
pub open spec fn device_name_of(image: Seq<u8>, number: int) -> Seq<u8> {
    image + dec_digits(number)
}

/// Computes `device_name_of`.
pub fn device_name(image: &[u8], number: u64) -> (r: Vec<u8>)
    ensures
        r@ == device_name_of(image@, number as int),
    {
    let digits = dec_bytes(number);
    bytes_concat(image, digits.as_slice())
}

/// Computes `scratch_partition_file`.
pub fn scratch_partition_path(workdir: &[u8], number: u64) -> (r: Vec<u8>)
    ensures
        r@ == scratch_partition_file(workdir@, number as int),
    {
    let digits = dec_bytes(number);
    let mut out = slice_to_vec(workdir);
    out.push(SLASH);
    let out2 = bytes_concat(out.as_slice(), digits.as_slice());
    let mut suffix: Vec<u8> = Vec::new();
    suffix.push(DOT);
    suffix.push(105);
    suffix.push(109);
    suffix.push(103);
    let out3 = bytes_concat(out2.as_slice(), suffix.as_slice());
    proof {
        assert(suffix@ =~= img_suffix());
        assert(out@ =~= workdir@ + seq![SLASH]);
        assert(out3@ =~= scratch_partition_file(workdir@, number as int));
    }
    out3
}

} // verus!

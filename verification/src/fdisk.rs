//! Parsing of the layout listings that the disk-layout inspector prints.
//!
//! The inspector is queried twice: once for the full listing, whose
//! `Disklabel type:` line names the partition-table format, and once for a
//! `Device,Start,End` column listing, whose row for a device carries the
//! partition's start sector and the field passed on as its sector count.
//!
//! The count handed to the sector copier is the row's third column taken
//! literally, exactly as the surrounding tooling has always consumed it; it
//! is not reduced by the start column.

use vstd::prelude::*;

verus! {

use vstd::string::StringSliceAdditionalSpecFns;
use crate::Error;
use crate::bytes::{
    lines_of,
    fields_of,
    lines,
    fields,
    starts_with,
    check_starts_with,
    bytes_eq,
    all_digits,
    dec_value,
    parse_u64,
};
use crate::partition::DisklabelType;

/// One partition's place in the image, in 512-byte sector units: its start
/// sector and the count field handed to the sector copier.
#[derive(Clone, Copy, Debug, PartialEq, Eq, Structural)]
pub struct PartitionRange {
    /// First sector of the partition.
    pub start: u64,
    /// The listing's third column, passed on literally as the sector count.
    pub count: u64,
}

/// Matches the line that names the disklabel type.
pub open spec fn disklabel_pred() -> spec_fn(Seq<u8>) -> bool {
    |l: Seq<u8>| starts_with(l, "Disklabel type:".spec_bytes())
}

/// The lines of the listing that name the disklabel type.
pub open spec fn disklabel_lines(out: Seq<u8>) -> Seq<Seq<u8>> {
    lines_of(out).filter(disklabel_pred())
}

/// What the listing says the disklabel type is: the last field of the one
/// `Disklabel type:` line. Anything else — no such line, several of them, or
/// an unknown format name — is a format error.
pub open spec fn disklabel_of(out: Seq<u8>) -> Result<DisklabelType, Error> {
    if disklabel_lines(out).len() == 1 {
        let fs = fields_of(disklabel_lines(out)[0]);
        if fs.len() > 0 && fs.last() == "gpt".spec_bytes() {
            Ok(DisklabelType::Gpt)
        } else if fs.len() > 0 && fs.last() == "dos".spec_bytes() {
            Ok(DisklabelType::Dos)
        } else {
            Err(Error::Format)
        }
    } else {
        Err(Error::Format)
    }
}

proof fn lemma_filter_empty(s: Seq<Seq<u8>>, pred: spec_fn(Seq<u8>) -> bool)
    requires
        forall|k: int| 0 <= k < s.len() ==> !pred(s[k]),
    ensures
        s.filter(pred) == Seq::<Seq<u8>>::empty(),
    decreases s.len(),
{
    reveal_with_fuel(Seq::filter, 1);
    if s.len() > 0 {
        assert(s.drop_last() =~= s.take(s.len() - 1));
        lemma_filter_empty(s.drop_last(), pred);
    }
}

proof fn lemma_filter_first(s: Seq<Seq<u8>>, pred: spec_fn(Seq<u8>) -> bool, i: int)
    requires
        0 <= i < s.len(),
        forall|k: int| 0 <= k < i ==> !pred(s[k]),
        pred(s[i]),
    ensures
        s.filter(pred).len() > 0,
        s.filter(pred)[0] == s[i],
    decreases s.len(),
{
    reveal_with_fuel(Seq::filter, 1);
    if i == s.len() - 1 {
        lemma_filter_empty(s.drop_last(), pred);
    } else {
        lemma_filter_first(s.drop_last(), pred, i);
    }
}

proof fn lemma_filter_singleton(x: Seq<u8>, pred: spec_fn(Seq<u8>) -> bool)
    ensures
        seq![x].filter(pred) == if pred(x) {
            seq![x]
        } else {
            Seq::<Seq<u8>>::empty()
        },
{
    reveal_with_fuel(Seq::filter, 2);
    assert(seq![x].drop_last() =~= Seq::<Seq<u8>>::empty());
}

/// Reads the disklabel type out of the full layout listing.
pub fn parse_disklabel(out: &[u8]) -> (r: Result<DisklabelType, Error>)
    ensures
        r == disklabel_of(out@),
    {
    broadcast use vstd::seq_lib::group_filter_ensures;

    let ls = lines(out);
    let ghost lsv = ls@.map_values(|v: Vec<u8>| v@);
    let mut found: Option<Vec<u8>> = None;
    let mut matched: usize = 0;
    let mut i: usize = 0;
    proof {
        assert(lsv.take(0) =~= Seq::<Seq<u8>>::empty());
        assert(Seq::<Seq<u8>>::empty().filter(disklabel_pred()) =~= Seq::<Seq<u8>>::empty())
            by {
            reveal_with_fuel(Seq::filter, 1);
        }
    }
    while i < ls.len()
        invariant
            0 <= i <= ls@.len(),
            lsv == ls@.map_values(|v: Vec<u8>| v@),
            matched == lsv.take(i as int).filter(disklabel_pred()).len(),
            matched > 0 ==> found is Some && found->0@ == lsv.take(i as int).filter(
                disklabel_pred(),
            )[0],
            matched == 0 ==> found is None,
        decreases ls@.len() - i,
    {
        let line = &ls[i];
        let is_match = check_starts_with(line.as_slice(), "Disklabel type:".as_bytes());
        proof {
            assert(lsv.take(i + 1) =~= lsv.take(i as int) + seq![lsv[i as int]]);
            Seq::filter_distributes_over_add(lsv.take(i as int), seq![lsv[i as int]],
                disklabel_pred());
            lemma_filter_singleton(lsv[i as int], disklabel_pred());
            assert(lsv[i as int] == line@);
            assert(disklabel_pred()(lsv[i as int]) == is_match);
        }
        if is_match {
            if found.is_none() {
                found = Some(line.clone());
                proof {
                    assert(lsv.take(i + 1).filter(disklabel_pred())[0] == lsv[i as int]);
                }
            }
            if matched < usize::MAX {
                matched = matched + 1;
            }
        }
        i = i + 1;
    }
    proof {
        assert(lsv.take(lsv.len() as int) =~= lsv);
    }
    if matched != 1 {
        return Err(Error::Format);
    }
    let line = found.unwrap();
    let fs = fields(line.as_slice());
    let ghost fsv = fs@.map_values(|v: Vec<u8>| v@);
    proof {
        assert(fsv == fields_of(disklabel_lines(out@)[0]));
    }
    if fs.len() == 0 {
        return Err(Error::Format);
    }
    let last = &fs[fs.len() - 1];
    proof {
        assert(last@ == fsv.last());
    }
    if bytes_eq(last.as_slice(), "gpt".as_bytes()) {
        Ok(DisklabelType::Gpt)
    } else if bytes_eq(last.as_slice(), "dos".as_bytes()) {
        Ok(DisklabelType::Dos)
    } else {
        Err(Error::Format)
    }
}

/// Matches a row whose device column (its first field) names `device`.
pub open spec fn row_pred(device: Seq<u8>) -> spec_fn(Seq<u8>) -> bool {
    |l: Seq<u8>| fields_of(l).len() > 0 && fields_of(l)[0] == device
}

/// The rows of the column listing whose device column names `device`.
pub open spec fn device_rows(out: Seq<u8>, device: Seq<u8>) -> Seq<Seq<u8>> {
    lines_of(out).filter(row_pred(device))
}

/// The range the column listing gives for `device`: the second and third
/// fields of its first row, both read as decimal sector numbers. A listing
/// with no such row, too few columns, or non-numeric columns is a format
/// error.
pub open spec fn range_of(out: Seq<u8>, device: Seq<u8>) -> Result<(int, int), Error> {
    let rows = device_rows(out, device);
    if rows.len() == 0 {
        Err(Error::Format)
    } else {
        let fs = fields_of(rows[0]);
        if fs.len() >= 3 && fs[1].len() > 0 && all_digits(fs[1]) && dec_value(fs[1]) <= u64::MAX
            && fs[2].len() > 0 && all_digits(fs[2]) && dec_value(fs[2]) <= u64::MAX {
            Ok((dec_value(fs[1]), dec_value(fs[2])))
        } else {
            Err(Error::Format)
        }
    }
}

/// Reads a partition's start and count columns out of the `Device,Start,End`
/// column listing.
#[verifier::rlimit(50)]
pub fn parse_partition_range(out: &[u8], device: &[u8]) -> (r: Result<PartitionRange, Error>)
    ensures
        match r {
            Ok(pr) => range_of(out@, device@) == Ok::<(int, int), Error>(
                (pr.start as int, pr.count as int),
            ),
            Err(e) => range_of(out@, device@) == Err::<(int, int), Error>(e),
        },
    {
    let ls = lines(out);
    let ghost lsv = ls@.map_values(|v: Vec<u8>| v@);
    proof {
        assert(lsv =~~= lines_of(out@));
    }
    let mut i: usize = 0;
    while i < ls.len()
        invariant
            0 <= i <= ls@.len(),
            lsv == ls@.map_values(|v: Vec<u8>| v@),
            lsv == lines_of(out@),
            forall|k: int| 0 <= k < i ==> !row_pred(device@)(lsv[k]),
        decreases ls@.len() - i,
    {
        let line = &ls[i];
        let fs = fields(line.as_slice());
        let ghost fsv = fs@.map_values(|v: Vec<u8>| v@);
        let is_match = if fs.len() > 0 {
            bytes_eq(fs[0].as_slice(), device)
        } else {
            false
        };
        proof {
            assert(lsv[i as int] == line@);
            assert(fsv =~~= fields_of(line@));
            if fs.len() > 0 {
                assert(fsv[0] == fs@[0]@);
            }
            assert(row_pred(device@)(lsv[i as int]) == is_match);
        }
        if is_match {
            proof {
                lemma_filter_first(lsv, row_pred(device@), i as int);
                assert(device_rows(out@, device@)[0] == line@);
            }
            if fs.len() < 3 {
                return Err(Error::Format);
            }
            let start = match parse_u64(fs[1].as_slice()) {
                Some(v) => v,
                None => {
                    return Err(Error::Format);
                },
            };
            let count = match parse_u64(fs[2].as_slice()) {
                Some(v) => v,
                None => {
                    return Err(Error::Format);
                },
            };
            proof {
                assert(fsv[1] == fs@[1]@);
                assert(fsv[2] == fs@[2]@);
                crate::bytes::lemma_dec_value_nonneg(fsv[1]);
                crate::bytes::lemma_dec_value_nonneg(fsv[2]);
            }
            return Ok(PartitionRange { start, count });
        }
        i = i + 1;
    }
    proof {
        lemma_filter_empty(lsv, row_pred(device@));
    }
    Err(Error::Format)
}

} // verus!

//! Byte-level scanning helpers shared by the request-string and layout-listing
//! parsers. The library models every path and every captured tool output as a
//! sequence of bytes.

use vstd::prelude::*;

verus! {

use vstd::slice::slice_to_vec;

/// ASCII ','
pub const COMMA: u8 = 44;

/// ASCII ':'
pub const COLON: u8 = 58;

/// ASCII '/'
pub const SLASH: u8 = 47;

/// ASCII '.'
pub const DOT: u8 = 46;

/// ASCII line feed
pub const NEWLINE: u8 = 10;

/// ASCII space
pub const SPACE: u8 = 32;

/// ASCII horizontal tab
pub const TAB: u8 = 9;

/// ASCII '0'
pub const DIGIT_ZERO: u8 = 48;

/// ASCII '9'
pub const DIGIT_NINE: u8 = 57;

/// Whitespace as the layout listing uses it: spaces and tabs between columns.
pub open spec fn is_ws(b: u8) -> bool {
    b == SPACE || b == TAB
}

/// A decimal digit.
pub open spec fn is_digit(b: u8) -> bool {
    DIGIT_ZERO <= b <= DIGIT_NINE
}

/// The index of the first byte at or after `i` that satisfies `p`, or
/// `s.len()` if no such byte exists.
pub open spec fn scan(s: Seq<u8>, i: int, p: spec_fn(u8) -> bool) -> int
    decreases s.len() - i,
{
    if i < 0 || i >= s.len() {
        s.len() as int
    } else if p(s[i]) {
        i
    } else {
        scan(s, i + 1, p)
    }
}

/// What `scan` returns: the first hit, with nothing satisfying `p` before it.
pub proof fn lemma_scan(s: Seq<u8>, i: int, p: spec_fn(u8) -> bool)
    requires
        0 <= i <= s.len(),
    ensures
        i <= scan(s, i, p) <= s.len(),
        forall|k: int| i <= k < scan(s, i, p) ==> !p(s[k]),
        scan(s, i, p) < s.len() ==> p(s[scan(s, i, p)]),
    decreases s.len() - i,
{
    if i < s.len() && !p(s[i]) {
        lemma_scan(s, i + 1, p);
    }
}

/// The predicate that matches exactly the byte `t`.
pub open spec fn pred_eq(t: u8) -> spec_fn(u8) -> bool {
    |b: u8| b == t
}

/// The predicate that matches a request-string field separator.
pub open spec fn pred_sep() -> spec_fn(u8) -> bool {
    |b: u8| b == COMMA || b == COLON
}

/// The predicate that matches column whitespace.
pub open spec fn pred_ws() -> spec_fn(u8) -> bool {
    |b: u8| is_ws(b)
}

/// The predicate that matches everything but column whitespace.
pub open spec fn pred_non_ws() -> spec_fn(u8) -> bool {
    |b: u8| !is_ws(b)
}

/// Finds the first occurrence of the byte `t` at or after `from`.
pub fn scan_eq(s: &[u8], from: usize, t: u8) -> (r: usize)
    requires
        from <= s@.len(),
    ensures
        r == scan(s@, from as int, pred_eq(t)),
        from <= r <= s@.len(),
    {
    let mut i = from;
    proof {
        lemma_scan(s@, from as int, pred_eq(t));
    }
    while i < s.len()
        invariant
            from <= i <= s@.len(),
            scan(s@, from as int, pred_eq(t)) == scan(s@, i as int, pred_eq(t)),
        decreases s@.len() - i,
    {
        if s[i] == t {
            proof {
                assert(pred_eq(t)(s@[i as int]));
            }
            return i;
        }
        proof {
            assert(!pred_eq(t)(s@[i as int]));
        }
        i = i + 1;
    }
    i
}

/// Finds the first field separator at or after `from`.
pub fn scan_sep(s: &[u8], from: usize) -> (r: usize)
    requires
        from <= s@.len(),
    ensures
        r == scan(s@, from as int, pred_sep()),
        from <= r <= s@.len(),
    {
    let mut i = from;
    proof {
        lemma_scan(s@, from as int, pred_sep());
    }
    while i < s.len()
        invariant
            from <= i <= s@.len(),
            scan(s@, from as int, pred_sep()) == scan(s@, i as int, pred_sep()),
        decreases s@.len() - i,
    {
        if s[i] == COMMA || s[i] == COLON {
            proof {
                assert(pred_sep()(s@[i as int]));
            }
            return i;
        }
        proof {
            assert(!pred_sep()(s@[i as int]));
        }
        i = i + 1;
    }
    i
}

/// Finds the first whitespace byte at or after `from`.
pub fn scan_ws(s: &[u8], from: usize) -> (r: usize)
    requires
        from <= s@.len(),
    ensures
        r == scan(s@, from as int, pred_ws()),
        from <= r <= s@.len(),
    {
    let mut i = from;
    proof {
        lemma_scan(s@, from as int, pred_ws());
    }
    while i < s.len()
        invariant
            from <= i <= s@.len(),
            scan(s@, from as int, pred_ws()) == scan(s@, i as int, pred_ws()),
        decreases s@.len() - i,
    {
        if s[i] == SPACE || s[i] == TAB {
            proof {
                assert(pred_ws()(s@[i as int]));
            }
            return i;
        }
        proof {
            assert(!pred_ws()(s@[i as int]));
        }
        i = i + 1;
    }
    i
}

/// Finds the first non-whitespace byte at or after `from`.
pub fn scan_non_ws(s: &[u8], from: usize) -> (r: usize)
    requires
        from <= s@.len(),
    ensures
        r == scan(s@, from as int, pred_non_ws()),
        from <= r <= s@.len(),
    {
    let mut i = from;
    proof {
        lemma_scan(s@, from as int, pred_non_ws());
    }
    while i < s.len()
        invariant
            from <= i <= s@.len(),
            scan(s@, from as int, pred_non_ws()) == scan(s@, i as int, pred_non_ws()),
        decreases s@.len() - i,
    {
        if !(s[i] == SPACE || s[i] == TAB) {
            proof {
                assert(pred_non_ws()(s@[i as int]));
            }
            return i;
        }
        proof {
            assert(!pred_non_ws()(s@[i as int]));
        }
        i = i + 1;
    }
    i
}

/// Scanning a suffix is scanning the whole sequence from an offset.
pub proof fn lemma_scan_shift(s: Seq<u8>, a: int, i: int, p: spec_fn(u8) -> bool)
    requires
        0 <= a,
        0 <= i,
        a + i <= s.len(),
    ensures
        scan(s, a + i, p) == a + scan(s.subrange(a, s.len() as int), i, p),
    decreases s.len() - a - i,
{
    let sub = s.subrange(a, s.len() as int);
    if a + i >= s.len() {
        assert(i >= sub.len());
    } else if p(s[a + i]) {
        assert(sub[i] == s[a + i]);
    } else {
        assert(sub[i] == s[a + i]);
        lemma_scan_shift(s, a, i + 1, p);
    }
}

/// Byte-for-byte equality of two slices.
pub fn bytes_eq(a: &[u8], b: &[u8]) -> (r: bool)
    ensures
        r == (a@ == b@),
    {
    if a.len() != b.len() {
        proof {
            assert(a@.len() != b@.len());
        }
        return false;
    }
    let mut i: usize = 0;
    while i < a.len()
        invariant
            0 <= i <= a@.len(),
            a@.len() == b@.len(),
            forall|k: int| 0 <= k < i ==> a@[k] == b@[k],
        decreases a@.len() - i,
    {
        if a[i] != b[i] {
            return false;
        }
        i = i + 1;
    }
    proof {
        assert(a@ =~= b@);
    }
    true
}

/// Whether `s` begins with `p`.
pub open spec fn starts_with(s: Seq<u8>, p: Seq<u8>) -> bool {
    p.len() <= s.len() && s.subrange(0, p.len() as int) == p
}

/// Checks whether `s` begins with `p`.
pub fn check_starts_with(s: &[u8], p: &[u8]) -> (r: bool)
    ensures
        r == starts_with(s@, p@),
    {
    if p.len() > s.len() {
        return false;
    }
    let head: &[u8] = &s[0..p.len()];
    bytes_eq(head, p)
}

/// The lines of a captured tool output, cut at every line feed. A trailing
/// line feed yields a final empty line, which no caller ever matches.
pub open spec fn lines_of(s: Seq<u8>) -> Seq<Seq<u8>>
    decreases s.len(),
    via lines_of_decreases
{
    let n = scan(s, 0, pred_eq(NEWLINE));
    if n == s.len() {
        seq![s]
    } else {
        seq![s.subrange(0, n)] + lines_of(s.subrange(n + 1, s.len() as int))
    }
}

#[via_fn]
proof fn lines_of_decreases(s: Seq<u8>) {
    lemma_scan(s, 0, pred_eq(NEWLINE));
}

/// Cuts a captured tool output into its lines.
pub fn lines(s: &[u8]) -> (r: Vec<Vec<u8>>)
    ensures
        r@.map_values(|v: Vec<u8>| v@) == lines_of(s@),
    {
    let mut out: Vec<Vec<u8>> = Vec::new();
    let mut pos: usize = 0;
    proof {
        assert(s@.subrange(0, s@.len() as int) =~= s@);
        assert(out@.map_values(|v: Vec<u8>| v@) + lines_of(s@) =~= lines_of(s@));
    }
    loop
        invariant
            pos <= s@.len(),
            lines_of(s@) == out@.map_values(|v: Vec<u8>| v@) + lines_of(
                s@.subrange(pos as int, s@.len() as int),
            ),
        decreases s@.len() - pos,
    {
        let ghost sub = s@.subrange(pos as int, s@.len() as int);
        let n = scan_eq(s, pos, NEWLINE);
        proof {
            lemma_scan_shift(s@, pos as int, 0, pred_eq(NEWLINE));
        }
        if n == s.len() {
            proof {
                assert(scan(sub, 0, pred_eq(NEWLINE)) == sub.len());
                assert(lines_of(sub) == seq![sub]);
            }
            let line = slice_to_vec(&s[pos..s.len()]);
            out.push(line);
            proof {
                assert(out@.map_values(|v: Vec<u8>| v@) =~= out@.drop_last().map_values(
                    |v: Vec<u8>| v@,
                ) + seq![sub]);
            }
            return out;
        } else {
            proof {
                assert(scan(sub, 0, pred_eq(NEWLINE)) == n - pos);
                assert(n - pos < sub.len());
                assert(lines_of(sub) == seq![sub.subrange(0, n - pos)] + lines_of(
                    sub.subrange(n - pos + 1, sub.len() as int),
                ));
                assert(sub.subrange(0, n - pos) =~= s@.subrange(pos as int, n as int));
                assert(sub.subrange(n - pos + 1, sub.len() as int) =~= s@.subrange(
                    n + 1,
                    s@.len() as int,
                ));
            }
            let line = slice_to_vec(&s[pos..n]);
            out.push(line);
            proof {
                assert(out@.map_values(|v: Vec<u8>| v@) =~= out@.drop_last().map_values(
                    |v: Vec<u8>| v@,
                ) + seq![s@.subrange(pos as int, n as int)]);
                assert(out@.map_values(|v: Vec<u8>| v@) + lines_of(
                    s@.subrange(n + 1, s@.len() as int),
                ) =~= lines_of(s@));
            }
            pos = n + 1;
        }
    }
}

/// The whitespace-separated fields of one line of a captured tool output.
pub open spec fn fields_of(s: Seq<u8>) -> Seq<Seq<u8>>
    decreases s.len(),
    via fields_of_decreases
{
    let a = scan(s, 0, pred_non_ws());
    if a == s.len() {
        Seq::empty()
    } else {
        let e = scan(s, a, pred_ws());
        seq![s.subrange(a, e)] + fields_of(s.subrange(e, s.len() as int))
    }
}

#[via_fn]
proof fn fields_of_decreases(s: Seq<u8>) {
    lemma_scan(s, 0, pred_non_ws());
    let a = scan(s, 0, pred_non_ws());
    if a < s.len() {
        lemma_scan(s, a + 1, pred_ws());
        assert(pred_non_ws()(s[a]));
        assert(!pred_ws()(s[a]));
        assert(scan(s, a, pred_ws()) == scan(s, a + 1, pred_ws()));
    }
}

/// Cuts one line into its whitespace-separated fields.
pub fn fields(s: &[u8]) -> (r: Vec<Vec<u8>>)
    ensures
        r@.map_values(|v: Vec<u8>| v@) == fields_of(s@),
    {
    let mut out: Vec<Vec<u8>> = Vec::new();
    let mut pos: usize = 0;
    proof {
        assert(s@.subrange(0, s@.len() as int) =~= s@);
        assert(out@.map_values(|v: Vec<u8>| v@) + fields_of(s@) =~= fields_of(s@));
    }
    loop
        invariant
            pos <= s@.len(),
            fields_of(s@) == out@.map_values(|v: Vec<u8>| v@) + fields_of(
                s@.subrange(pos as int, s@.len() as int),
            ),
        decreases s@.len() - pos,
    {
        let ghost sub = s@.subrange(pos as int, s@.len() as int);
        let a = scan_non_ws(s, pos);
        proof {
            lemma_scan_shift(s@, pos as int, 0, pred_non_ws());
        }
        if a == s.len() {
            proof {
                assert(scan(sub, 0, pred_non_ws()) == sub.len());
                assert(fields_of(sub) == Seq::<Seq<u8>>::empty());
                assert(out@.map_values(|v: Vec<u8>| v@) + fields_of(sub) =~= out@.map_values(
                    |v: Vec<u8>| v@,
                ));
            }
            return out;
        }
        let e = scan_ws(s, a);
        proof {
            lemma_scan(s@, pos as int, pred_non_ws());
            assert(pred_non_ws()(s@[a as int]));
            assert(!pred_ws()(s@[a as int]));
            assert(scan(s@, a as int, pred_ws()) == scan(s@, a + 1, pred_ws()));
            lemma_scan(s@, a + 1, pred_ws());
            assert(e > a);
            lemma_scan_shift(s@, pos as int, a - pos, pred_ws());
            assert(scan(sub, 0, pred_non_ws()) == a - pos);
            assert(scan(sub, a - pos, pred_ws()) == e - pos);
            assert(fields_of(sub) == seq![sub.subrange(a - pos, e - pos)] + fields_of(
                sub.subrange(e - pos, sub.len() as int),
            ));
            assert(sub.subrange(a - pos, e - pos) =~= s@.subrange(a as int, e as int));
            assert(sub.subrange(e - pos, sub.len() as int) =~= s@.subrange(
                e as int,
                s@.len() as int,
            ));
        }
        let field = slice_to_vec(&s[a..e]);
        out.push(field);
        proof {
            assert(out@.map_values(|v: Vec<u8>| v@) =~= out@.drop_last().map_values(|v: Vec<u8>| v@)
                + seq![s@.subrange(a as int, e as int)]);
            assert(out@.map_values(|v: Vec<u8>| v@) + fields_of(s@.subrange(e as int, s@.len() as int))
                =~= fields_of(s@));
        }
        pos = e;
    }
}

/// Whether every byte of `s` is a decimal digit.
pub open spec fn all_digits(s: Seq<u8>) -> bool {
    forall|k: int| 0 <= k < s.len() ==> is_digit(s[k])
}

/// The numeric value of a decimal digit string.
pub open spec fn dec_value(s: Seq<u8>) -> int
    decreases s.len(),
{
    if s.len() == 0 {
        0
    } else {
        dec_value(s.drop_last()) * 10 + (s.last() - DIGIT_ZERO)
    }
}

/// A digit string's value never shrinks as the string grows to the right.
pub proof fn lemma_dec_value_prefix(s: Seq<u8>, i: int)
    requires
        0 <= i <= s.len(),
        all_digits(s),
    ensures
        0 <= dec_value(s.take(i)) <= dec_value(s),
    decreases s.len() - i,
{
    if i == s.len() {
        assert(s.take(i) =~= s);
        lemma_dec_value_nonneg(s);
    } else {
        lemma_dec_value_prefix(s, i + 1);
        lemma_dec_value_nonneg(s.take(i));
        assert(s.take(i + 1).drop_last() =~= s.take(i));
        assert(s.take(i + 1).last() == s[i]);
    }
}

/// A digit string's value is never negative.
pub proof fn lemma_dec_value_nonneg(s: Seq<u8>)
    requires
        all_digits(s),
    ensures
        dec_value(s) >= 0,
    decreases s.len(),
{
    if s.len() > 0 {
        assert(all_digits(s.drop_last()));
        lemma_dec_value_nonneg(s.drop_last());
    }
}

/// Parses an unsigned decimal number, exactly when `s` is a non-empty digit
/// string whose value fits.
pub fn parse_u64(s: &[u8]) -> (r: Option<u64>)
    ensures
        r == (if s@.len() > 0 && all_digits(s@) && dec_value(s@) <= u64::MAX {
            Some(dec_value(s@) as u64)
        } else {
            None::<u64>
        }),
    {
    if s.len() == 0 {
        return None;
    }
    let mut acc: u64 = 0;
    let mut i: usize = 0;
    while i < s.len()
        invariant
            0 < s@.len(),
            0 <= i <= s@.len(),
            all_digits(s@.take(i as int)),
            acc == dec_value(s@.take(i as int)),
        decreases s@.len() - i,
    {
        let b = s[i];
        if b < DIGIT_ZERO || b > DIGIT_NINE {
            assert(!all_digits(s@));
            return None;
        }
        proof {
            assert(s@.take(i + 1).drop_last() =~= s@.take(i as int));
            assert(s@.take(i + 1).last() == s@[i as int]);
            assert(all_digits(s@.take(i + 1)));
        }
        let step = match acc.checked_mul(10) {
            Some(x) => x,
            None => {
                proof {
                    if all_digits(s@) {
                        lemma_dec_value_prefix(s@, i + 1);
                        assert(dec_value(s@.take(i + 1)) == acc * 10 + (s@[i as int]
                            - DIGIT_ZERO));
                        assert(dec_value(s@) > u64::MAX);
                    }
                }
                return None;
            },
        };
        let acc2 = match step.checked_add((b - DIGIT_ZERO) as u64) {
            Some(x) => x,
            None => {
                proof {
                    if all_digits(s@) {
                        lemma_dec_value_prefix(s@, i + 1);
                        assert(dec_value(s@.take(i + 1)) == acc * 10 + (s@[i as int]
                            - DIGIT_ZERO));
                        assert(dec_value(s@) > u64::MAX);
                    }
                }
                return None;
            },
        };
        proof {
            assert(dec_value(s@.take(i + 1)) == acc * 10 + (s@[i as int] - DIGIT_ZERO));
        }
        acc = acc2;
        i = i + 1;
    }
    proof {
        assert(s@.take(s@.len() as int) =~= s@);
    }
    Some(acc)
}

} // verus!

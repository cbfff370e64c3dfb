use vstd::prelude::*;
use vstd::string::StringExecFns;

use crate::digest::{concat_decimal, dec_bytes, dec_chars, push_decimal};
use crate::range::Range;
use crate::textparse::{
    bytes_eq, digits_val, file_lines, is_digits, parse_u32_dec, spec_file_lines, spec_is_comment,
    spec_split, spec_trimmed_len, split_bytes, split_fields, spec_fields, is_comment_line,
    trim_end_ws,
};

verus! {

/// The uid or gid map to install on a new user namespace: either the
/// single invoking id, or a list of `(inside, outside, count)` ranges.
#[derive(Clone, Debug)]
pub enum Uidmap {
    Singleton(u32, u32),
    Ranges(Vec<(u32, u32, u32)>, Vec<(u32, u32, u32)>),
}

/// A range usable in a kernel map: closed, and short of `u32::MAX` so
/// that lengths and shifts stay in range.
pub open spec fn wf_range(r: Range) -> bool {
    r.start <= r.end < u32::MAX
}

pub open spec fn wf_ranges(rs: Seq<Range>) -> bool {
    forall|i: int| 0 <= i < rs.len() ==> wf_range(#[trigger] rs[i])
}

// ------------------------------------------------------------------
// Parsing of /etc/subuid and /etc/subgid
// ------------------------------------------------------------------
/// How one line of a subuid file reads.
pub enum SubidLine {
    /// First non-blank byte is `#`.
    Comment,
    /// A syntactically valid entry for some other user.
    Other,
    /// A valid entry for the requested user: the allocated range.
    Entry(Range),
    /// Anything else.
    Bad,
}

/// A digit field that denotes a `u32`.
pub open spec fn valid_u32_field(s: Seq<u8>) -> bool {
    is_digits(s) && digits_val(s) <= u32::MAX
}

/// Reading of one `user:start:count` line.
pub open spec fn spec_subid_line(line: Seq<u8>, user: Seq<u8>) -> SubidLine {
    if spec_is_comment(line) {
        SubidLine::Comment
    } else {
        let parts = spec_split(line, 58);
        if parts.len() != 3 {
            SubidLine::Bad
        } else {
            let count_part = parts[2].take(spec_trimmed_len(parts[2]));
            if !valid_u32_field(parts[1]) || !valid_u32_field(count_part) {
                SubidLine::Bad
            } else if parts[0] == user {
                let start = digits_val(parts[1]) as int;
                let count = digits_val(count_part) as int;
                if 1 <= count && start + count - 1 < u32::MAX {
                    SubidLine::Entry(
                        Range { start: start as u32, end: (start + count - 1) as u32 },
                    )
                } else {
                    SubidLine::Bad
                }
            } else {
                SubidLine::Other
            }
        }
    }
}

/// Parse one subuid line.
pub fn parse_subid_line(line: &Vec<u8>, user: &Vec<u8>) -> (r: SubidLine)
    ensures
        r == spec_subid_line(line@, user@),
{
    if is_comment_line(line) {
        return SubidLine::Comment;
    }
    let parts = split_bytes(line.as_slice(), 58);
    if parts.len() != 3 {
        return SubidLine::Bad;
    }
    proof {
        assert(parts.deep_view()[0] == parts@[0]@);
        assert(parts.deep_view()[1] == parts@[1]@);
        assert(parts.deep_view()[2] == parts@[2]@);
    }
    let count_part = trim_end_ws(&parts[2]);
    let start = parse_u32_dec(parts[1].as_slice());
    let count = parse_u32_dec(count_part.as_slice());
    match (start, count) {
        (Some(start), Some(count)) => {
            if bytes_eq(&parts[0], user) {
                if count >= 1 && start <= u32::MAX - count {
                    SubidLine::Entry(Range { start, end: start + count - 1 })
                } else {
                    SubidLine::Bad
                }
            } else {
                SubidLine::Other
            }
        },
        _ => SubidLine::Bad,
    }
}

/// The ranges allocated to `user` by a whole subuid file, or `None` when
/// some line is malformed.
pub open spec fn spec_subid_ranges(lines: Seq<Seq<u8>>, user: Seq<u8>) -> Option<Seq<Range>>
    decreases lines.len(),
{
    if lines.len() == 0 {
        Some(Seq::<Range>::empty())
    } else {
        match spec_subid_ranges(lines.drop_last(), user) {
            None => None,
            Some(acc) => match spec_subid_line(lines.last(), user) {
                SubidLine::Comment => Some(acc),
                SubidLine::Other => Some(acc),
                SubidLine::Entry(rng) => Some(acc + seq![rng]),
                SubidLine::Bad => None,
            },
        }
    }
}

proof fn lemma_subid_none(lines: Seq<Seq<u8>>, user: Seq<u8>, i: int)
    requires
        0 <= i <= lines.len(),
        spec_subid_ranges(lines.take(i), user) is None,
    ensures
        spec_subid_ranges(lines, user) is None,
    decreases lines.len() - i,
{
    if i < lines.len() {
        assert(lines.take(i + 1).drop_last() =~= lines.take(i));
        lemma_subid_none(lines, user, i + 1);
    } else {
        assert(lines.take(i) =~= lines);
    }
}

/// Parse a subuid or subgid file and return the ranges allocated to the
/// given user, in file order.  Every line must be a comment or a
/// well-formed `user:start:count` entry.
pub fn read_uid_map(data: &Vec<u8>, username: &Vec<u8>) -> (r: Result<Vec<Range>, String>)
    ensures
        match r {
            Ok(v) => spec_subid_ranges(spec_file_lines(data@), username@) == Some(v@),
            Err(e) => spec_subid_ranges(spec_file_lines(data@), username@) is None && e@
                == "Bad syntax in subuid file"@,
        },
{
    let lines = file_lines(data);
    let mut res: Vec<Range> = Vec::new();
    let mut i: usize = 0;
    proof {
        assert(lines.deep_view().take(0) =~= Seq::<Seq<u8>>::empty());
    }
    while i < lines.len()
        invariant
            i <= lines.len(),
            lines.deep_view() == spec_file_lines(data@),
            spec_subid_ranges(lines.deep_view().take(i as int), username@) == Some(res@),
        decreases lines.len() - i,
    {
        proof {
            assert(lines.deep_view().take(i + 1).drop_last() =~= lines.deep_view().take(i as int));
            assert(lines.deep_view().take(i + 1).last() == lines@[i as int]@);
        }
        match parse_subid_line(&lines[i], username) {
            SubidLine::Comment => {},
            SubidLine::Other => {},
            SubidLine::Entry(rng) => {
                res.push(rng);
            },
            SubidLine::Bad => {
                proof {
                    lemma_subid_none(lines.deep_view(), username@, i + 1);
                }
                return Err(String::from_str("Bad syntax in subuid file"));
            },
        }
        i += 1;
    }
    proof {
        assert(lines.deep_view().take(lines@.len() as int) =~= lines.deep_view());
    }
    Ok(res)
}

// ------------------------------------------------------------------
// Parsing of /proc/self/uid_map and gid_map
// ------------------------------------------------------------------
/// Reading of one `inside outside count` line of a kernel map file.
pub open spec fn spec_proc_line(line: Seq<u8>, read_inside: bool) -> Option<Range> {
    let fields = spec_fields(line);
    if fields.len() < 3 {
        None
    } else if !valid_u32_field(fields[0]) || !valid_u32_field(fields[1]) || !valid_u32_field(
        fields[2],
    ) {
        None
    } else {
        let base = if read_inside {
            digits_val(fields[0]) as int
        } else {
            digits_val(fields[1]) as int
        };
        let count = digits_val(fields[2]) as int;
        if 1 <= count && base + count - 1 < u32::MAX {
            Some(Range { start: base as u32, end: (base + count - 1) as u32 })
        } else {
            None
        }
    }
}

/// The ranges of a whole kernel map file, or `None` when a line is
/// malformed.
pub open spec fn spec_proc_ranges(lines: Seq<Seq<u8>>, read_inside: bool) -> Option<Seq<Range>>
    decreases lines.len(),
{
    if lines.len() == 0 {
        Some(Seq::<Range>::empty())
    } else {
        match spec_proc_ranges(lines.drop_last(), read_inside) {
            None => None,
            Some(acc) => match spec_proc_line(lines.last(), read_inside) {
                Some(rng) => Some(acc + seq![rng]),
                None => None,
            },
        }
    }
}

proof fn lemma_proc_none(lines: Seq<Seq<u8>>, read_inside: bool, i: int)
    requires
        0 <= i <= lines.len(),
        spec_proc_ranges(lines.take(i), read_inside) is None,
    ensures
        spec_proc_ranges(lines, read_inside) is None,
    decreases lines.len() - i,
{
    if i < lines.len() {
        assert(lines.take(i + 1).drop_last() =~= lines.take(i));
        lemma_proc_none(lines, read_inside, i + 1);
    } else {
        assert(lines.take(i) =~= lines);
    }
}

/// Parse a `/proc/<pid>/uid_map`-format file: one `inside outside count`
/// line per mapped range.
pub fn read_uid_ranges(data: &Vec<u8>, read_inside: bool) -> (r: Result<Vec<Range>, String>)
    ensures
        match r {
            Ok(v) => spec_proc_ranges(spec_file_lines(data@), read_inside) == Some(v@),
            Err(e) => spec_proc_ranges(spec_file_lines(data@), read_inside) is None && e@
                == "uid/gid map format error"@,
        },
{
    let lines = file_lines(data);
    let mut res: Vec<Range> = Vec::new();
    let mut i: usize = 0;
    proof {
        assert(lines.deep_view().take(0) =~= Seq::<Seq<u8>>::empty());
    }
    while i < lines.len()
        invariant
            i <= lines.len(),
            lines.deep_view() == spec_file_lines(data@),
            spec_proc_ranges(lines.deep_view().take(i as int), read_inside) == Some(res@),
        decreases lines.len() - i,
    {
        proof {
            assert(lines.deep_view().take(i + 1).drop_last() =~= lines.deep_view().take(i as int));
            assert(lines.deep_view().take(i + 1).last() == lines@[i as int]@);
        }
        let fields = split_fields(&lines[i]);
        if fields.len() < 3 {
            proof {
                lemma_proc_none(lines.deep_view(), read_inside, i + 1);
            }
            return Err(String::from_str("uid/gid map format error"));
        }
        proof {
            assert(fields.deep_view()[0] == fields@[0]@);
            assert(fields.deep_view()[1] == fields@[1]@);
            assert(fields.deep_view()[2] == fields@[2]@);
        }
        let inside = parse_u32_dec(fields[0].as_slice());
        let outside = parse_u32_dec(fields[1].as_slice());
        let count = parse_u32_dec(fields[2].as_slice());
        match (inside, outside, count) {
            (Some(inside), Some(outside), Some(count)) => {
                let base = if read_inside {
                    inside
                } else {
                    outside
                };
                if count >= 1 && base <= u32::MAX - count {
                    res.push(Range { start: base, end: base + count - 1 });
                } else {
                    proof {
                        lemma_proc_none(lines.deep_view(), read_inside, i + 1);
                    }
                    return Err(String::from_str("uid/gid map format error"));
                }
            },
            _ => {
                proof {
                    lemma_proc_none(lines.deep_view(), read_inside, i + 1);
                }
                return Err(String::from_str("uid/gid map format error"));
            },
        }
        i += 1;
    }
    proof {
        assert(lines.deep_view().take(lines@.len() as int) =~= lines.deep_view());
    }
    Ok(res)
}


// ------------------------------------------------------------------
// Greedy matching of requested ranges against allowed ranges
// ------------------------------------------------------------------
/// One pass of the greedy matcher, in spec form.  `creq`/`callow` are the
/// fronts of the current requested and allowed ranges; `reqs`/`allows`
/// what remains.  Inside id 0 is never mapped from the ranges (it is
/// reserved for the invoker), so a leading 0 is skipped on both sides.
pub open spec fn spec_match_loop(
    creq: Range,
    reqs: Seq<Range>,
    callow: Range,
    allows: Seq<Range>,
    acc: Seq<(u32, u32, u32)>,
) -> Option<Seq<(u32, u32, u32)>>
    decreases reqs.len(), allows.len(),
{
    let creq1 = if creq.start == 0 {
        creq.spec_shift(1)
    } else {
        creq
    };
    let callow1 = if callow.start == 0 {
        callow.spec_shift(1)
    } else {
        callow
    };
    let clen = if creq1.spec_len() < callow1.spec_len() {
        creq1.spec_len()
    } else {
        callow1.spec_len()
    };
    let acc1 = if clen > 0 {
        acc.push((creq1.start, callow1.start, clen as u32))
    } else {
        acc
    };
    let creq2 = creq1.spec_shift(clen);
    let callow2 = callow1.spec_shift(clen);
    if creq2.spec_len() == 0 {
        if reqs.len() == 0 {
            Some(acc1)
        } else if callow2.spec_len() == 0 {
            if allows.len() == 0 {
                None
            } else {
                spec_match_loop(
                    reqs.first(),
                    reqs.drop_first(),
                    allows.first(),
                    allows.drop_first(),
                    acc1,
                )
            }
        } else {
            spec_match_loop(reqs.first(), reqs.drop_first(), callow2, allows, acc1)
        }
    } else if callow2.spec_len() == 0 {
        if allows.len() == 0 {
            None
        } else {
            spec_match_loop(creq2, reqs, allows.first(), allows.drop_first(), acc1)
        }
    } else {
        None
    }
}

/// The matcher never removes mappings: whatever is in the accumulator
/// stays a prefix of the result.
pub proof fn lemma_match_prefix(
    creq: Range,
    reqs: Seq<Range>,
    callow: Range,
    allows: Seq<Range>,
    acc: Seq<(u32, u32, u32)>,
    v: Seq<(u32, u32, u32)>,
)
    requires
        spec_match_loop(creq, reqs, callow, allows, acc) == Some(v),
    ensures
        v.len() >= acc.len(),
        forall|i: int| 0 <= i < acc.len() ==> v[i] == acc[i],
    decreases reqs.len(), allows.len(),
{
    let creq1 = if creq.start == 0 {
        creq.spec_shift(1)
    } else {
        creq
    };
    let callow1 = if callow.start == 0 {
        callow.spec_shift(1)
    } else {
        callow
    };
    let clen = if creq1.spec_len() < callow1.spec_len() {
        creq1.spec_len()
    } else {
        callow1.spec_len()
    };
    let acc1 = if clen > 0 {
        acc.push((creq1.start, callow1.start, clen as u32))
    } else {
        acc
    };
    let creq2 = creq1.spec_shift(clen);
    let callow2 = callow1.spec_shift(clen);
    if creq2.spec_len() == 0 {
        if reqs.len() == 0 {
        } else if callow2.spec_len() == 0 {
            lemma_match_prefix(
                reqs.first(),
                reqs.drop_first(),
                allows.first(),
                allows.drop_first(),
                acc1,
                v,
            );
        } else {
            lemma_match_prefix(reqs.first(), reqs.drop_first(), callow2, allows, acc1, v);
        }
    } else if callow2.spec_len() == 0 {
        lemma_match_prefix(creq2, reqs, allows.first(), allows.drop_first(), acc1, v);
    }
}

/// A range the matcher can hold as current: well formed, or consumed.
pub open spec fn cur_ok(r: Range) -> bool {
    wf_range(r) || r == (Range { start: 1, end: 0 })
}

/// Greedily match the container's requested id ranges against the
/// allocated ones.  The result always begins with `(0, own_id, 1)`: id 0
/// inside the namespace maps to the invoking user.  `Err` means the
/// allocation is too small for the request.
pub fn match_ranges(req: &Vec<Range>, allowed: &Vec<Range>, own_id: u32) -> (r: Result<
    Vec<(u32, u32, u32)>,
    (),
>)
    requires
        req@.len() > 0,
        allowed@.len() > 0,
        wf_ranges(req@),
        wf_ranges(allowed@),
    ensures
        match r {
            Ok(v) => spec_match_loop(
                req@[0],
                req@.skip(1),
                allowed@[0],
                allowed@.skip(1),
                seq![(0u32, own_id, 1u32)],
            ) == Some(v@) && v@.len() >= 1 && v@[0] == (0u32, own_id, 1u32),
            Err(()) => spec_match_loop(
                req@[0],
                req@.skip(1),
                allowed@[0],
                allowed@.skip(1),
                seq![(0u32, own_id, 1u32)],
            ) is None,
        },
{
    let ghost target = spec_match_loop(
        req@[0],
        req@.skip(1),
        allowed@[0],
        allowed@.skip(1),
        seq![(0u32, own_id, 1u32)],
    );
    let mut res: Vec<(u32, u32, u32)> = Vec::new();
    res.push((0, own_id, 1));
    let mut creq = req[0];
    let mut callow = allowed[0];
    let mut ri: usize = 1;
    let mut ai: usize = 1;
    proof {
        assert(res@ =~= seq![(0u32, own_id, 1u32)]);
    }
    loop
        invariant
            1 <= ri <= req@.len(),
            1 <= ai <= allowed@.len(),
            wf_ranges(req@),
            wf_ranges(allowed@),
            cur_ok(creq),
            cur_ok(callow),
            res@.len() >= 1 && res@[0] == (0u32, own_id, 1u32),
            target == spec_match_loop(
                req@[0],
                req@.skip(1),
                allowed@[0],
                allowed@.skip(1),
                seq![(0u32, own_id, 1u32)],
            ),
            spec_match_loop(creq, req@.skip(ri as int), callow, allowed@.skip(ai as int), res@)
                == target,
        decreases req@.len() - ri, allowed@.len() - ai,
    {
        let ghost st_creq = creq;
        let ghost st_callow = callow;
        let ghost st_acc = res@;
        let ghost st_rs = req@.skip(ri as int);
        let ghost st_as = allowed@.skip(ai as int);
        if creq.start() == 0 {
            creq = creq.shift(1);
        }
        if callow.start() == 0 {
            callow = callow.shift(1);
        }
        let ghost g_creq1 = creq;
        let ghost g_callow1 = callow;
        let rl = creq.len();
        let al = callow.len();
        let clen = if rl < al {
            rl
        } else {
            al
        };
        if clen > 0 {
            res.push((creq.start(), callow.start(), clen as u32));
        }
        creq = creq.shift(clen);
        callow = callow.shift(clen);
        let ghost g_clen = clen as int;
        proof {
            assert(g_creq1 == if st_creq.start == 0 {
                st_creq.spec_shift(1)
            } else {
                st_creq
            });
            assert(g_callow1 == if st_callow.start == 0 {
                st_callow.spec_shift(1)
            } else {
                st_callow
            });
            assert(g_clen == if g_creq1.spec_len() < g_callow1.spec_len() {
                g_creq1.spec_len()
            } else {
                g_callow1.spec_len()
            });
            assert(g_creq1.spec_len() <= u32::MAX && g_callow1.spec_len() <= u32::MAX);
            assert(res@ == if g_clen > 0 {
                st_acc.push((g_creq1.start, g_callow1.start, g_clen as u32))
            } else {
                st_acc
            });
            assert(creq == g_creq1.spec_shift(g_clen));
            assert(callow == g_callow1.spec_shift(g_clen));
            assert(creq.spec_len() == 0 || callow.spec_len() == 0);
        }
        if creq.len() == 0 {
            if ri == req.len() {
                proof {
                    assert(st_rs.len() == 0);
                    assert(target == Some(res@));
                    lemma_match_prefix(st_creq, st_rs, st_callow, st_as, st_acc, res@);
                }
                return Ok(res);
            }
            proof {
                assert(st_rs.first() == req@[ri as int]);
                assert(st_rs.drop_first() =~= req@.skip(ri + 1));
            }
            creq = req[ri];
            ri += 1;
        }
        if callow.len() == 0 {
            if ai == allowed.len() {
                proof {
                    assert(target is None);
                }
                return Err(());
            }
            proof {
                assert(allowed@.skip(ai as int).first() == allowed@[ai as int]);
                assert(allowed@.skip(ai as int).drop_first() =~= allowed@.skip(ai + 1));
            }
            callow = allowed[ai];
            ai += 1;
        }
    }
}


// ------------------------------------------------------------------
// Building the widest available map
// ------------------------------------------------------------------
/// Identity triples for already-mapped kernel ranges.
pub open spec fn spec_identity_triples(rs: Seq<Range>) -> Seq<(u32, u32, u32)> {
    Seq::new(rs.len(), |i: int| (rs[i].start, rs[i].start, rs[i].spec_len() as u32))
}

/// The triples contributed by one allocated range when the invoker's own
/// id lies at its start: that id is dropped, since 0 inside already maps
/// to it.
pub open spec fn spec_own_entry(own: u32, rng: Range) -> Seq<(u32, u32, u32)> {
    if rng.start <= own <= rng.end {
        let shifted = rng.spec_shift(1);
        if shifted.spec_len() == 0 {
            Seq::<(u32, u32, u32)>::empty()
        } else {
            seq![(shifted.start, shifted.start, shifted.spec_len() as u32)]
        }
    } else {
        seq![(rng.start, rng.start, rng.spec_len() as u32)]
    }
}

/// The full map for one id kind: `(0, own, 1)` first, then the
/// allocated ranges mapped onto themselves.
pub open spec fn spec_own_triples(own: u32, rs: Seq<Range>) -> Seq<(u32, u32, u32)>
    decreases rs.len(),
{
    if rs.len() == 0 {
        seq![(0u32, own, 1u32)]
    } else {
        spec_own_triples(own, rs.drop_last()) + spec_own_entry(own, rs.last())
    }
}

fn own_triples(own: u32, rs: &Vec<Range>) -> (r: Vec<(u32, u32, u32)>)
    requires
        wf_ranges(rs@),
        forall|i: int|
            0 <= i < rs@.len() ==> (#[trigger] rs@[i].start <= own <= rs@[i].end ==> own
                == rs@[i].start),
    ensures
        r@ == spec_own_triples(own, rs@),
{
    let mut r: Vec<(u32, u32, u32)> = Vec::new();
    r.push((0, own, 1));
    let mut i: usize = 0;
    proof {
        assert(rs@.take(0) =~= Seq::<Range>::empty());
        assert(r@ =~= spec_own_triples(own, rs@.take(0)));
    }
    while i < rs.len()
        invariant
            i <= rs@.len(),
            wf_ranges(rs@),
            forall|j: int|
                0 <= j < rs@.len() ==> (#[trigger] rs@[j].start <= own <= rs@[j].end ==> own
                    == rs@[j].start),
            r@ == spec_own_triples(own, rs@.take(i as int)),
        decreases rs@.len() - i,
    {
        proof {
            assert(rs@.take(i + 1).drop_last() =~= rs@.take(i as int));
            assert(rs@.take(i + 1).last() == rs@[i as int]);
        }
        let rng = rs[i];
        if rng.start() <= own && own <= rng.end() {
            let shifted = rng.shift(1);
            if shifted.len() > 0 {
                r.push((shifted.start(), shifted.start(), shifted.len() as u32));
            }
        } else {
            r.push((rng.start(), rng.start(), rng.len() as u32));
        }
        proof {
            assert(r@ =~= spec_own_triples(own, rs@.take(i + 1)));
        }
        i += 1;
    }
    proof {
        assert(rs@.take(rs@.len() as int) =~= rs@);
    }
    r
}

fn identity_triples(rs: &Vec<Range>) -> (r: Vec<(u32, u32, u32)>)
    requires
        wf_ranges(rs@),
    ensures
        r@ == spec_identity_triples(rs@),
{
    let mut r: Vec<(u32, u32, u32)> = Vec::new();
    let mut i: usize = 0;
    while i < rs.len()
        invariant
            i <= rs@.len(),
            wf_ranges(rs@),
            r@ == spec_identity_triples(rs@).take(i as int),
        decreases rs@.len() - i,
    {
        let rng = rs[i];
        r.push((rng.start(), rng.start(), rng.len() as u32));
        proof {
            assert(r@ =~= spec_identity_triples(rs@).take(i + 1));
        }
        i += 1;
    }
    proof {
        assert(spec_identity_triples(rs@).take(rs@.len() as int) =~= spec_identity_triples(rs@));
    }
    r
}

/// Build the widest uid/gid map available to the invoker.
///
/// With no readable subuid/subgid allocation the map degrades to the
/// single invoking id.  When both allocations are empty and the invoker
/// is already root, the kernel's existing map is reused unchanged.
/// Otherwise id 0 maps to the invoker and every allocated range maps
/// onto itself.
pub fn get_max_uidmap(
    uid: u32,
    gid: u32,
    subids: &Option<(Vec<Range>, Vec<Range>)>,
    proc_uid_ranges: &Vec<Range>,
    proc_gid_ranges: &Vec<Range>,
) -> (r: Uidmap)
    requires
        wf_ranges(proc_uid_ranges@),
        wf_ranges(proc_gid_ranges@),
        match subids {
            Some(maps) => wf_ranges(maps.0@) && wf_ranges(maps.1@) && (forall|i: int|
                0 <= i < maps.0@.len() ==> (#[trigger] maps.0@[i].start <= uid <= maps.0@[i].end
                    ==> uid == maps.0@[i].start)) && (forall|i: int|
                0 <= i < maps.1@.len() ==> (#[trigger] maps.1@[i].start <= gid <= maps.1@[i].end
                    ==> gid == maps.1@[i].start)),
            None => true,
        },
    ensures
        match subids {
            None => r matches Uidmap::Singleton(u, g) && u == uid && g == gid,
            Some(maps) => {
                if maps.0@.len() == 0 && maps.1@.len() == 0 && uid == 0 {
                    r matches Uidmap::Ranges(us, gs) && us@ == spec_identity_triples(
                        proc_uid_ranges@,
                    ) && gs@ == spec_identity_triples(proc_gid_ranges@)
                } else {
                    r matches Uidmap::Ranges(us, gs) && us@ == spec_own_triples(uid, maps.0@)
                        && gs@ == spec_own_triples(gid, maps.1@)
                }
            },
        },
{
    match subids {
        None => Uidmap::Singleton(uid, gid),
        Some(maps) => {
            if maps.0.len() == 0 && maps.1.len() == 0 && uid == 0 {
                Uidmap::Ranges(
                    identity_triples(proc_uid_ranges),
                    identity_triples(proc_gid_ranges),
                )
            } else {
                Uidmap::Ranges(own_triples(uid, &maps.0), own_triples(gid, &maps.1))
            }
        },
    }
}

// ------------------------------------------------------------------
// Mapping a container's requested ranges
// ------------------------------------------------------------------
/// The default id request when a container names none: just id 0.
pub open spec fn spec_effective_ranges(rs: Seq<Range>) -> Seq<Range> {
    if rs.len() == 0 {
        seq![Range { start: 0u32, end: 0u32 }]
    } else {
        rs
    }
}

fn copy_triples(ts: &Vec<(u32, u32, u32)>) -> (r: Vec<(u32, u32, u32)>)
    ensures
        r@ == ts@,
{
    let mut r: Vec<(u32, u32, u32)> = Vec::new();
    let mut i: usize = 0;
    while i < ts.len()
        invariant
            i <= ts@.len(),
            r@ == ts@.take(i as int),
        decreases ts@.len() - i,
    {
        r.push(ts[i]);
        proof {
            assert(r@ =~= ts@.take(i + 1));
        }
        i += 1;
    }
    proof {
        assert(ts@.take(ts@.len() as int) =~= ts@);
    }
    r
}


/// One range as text: `start-end`.
pub open spec fn spec_range_text(r: Range) -> Seq<char> {
    dec_chars(r.start as nat) + "-"@ + dec_chars(r.end as nat)
}

/// A comma-separated range list, as the error messages print it.
pub open spec fn spec_ranges_text(rs: Seq<Range>) -> Seq<char>
    decreases rs.len(),
{
    if rs.len() == 0 {
        Seq::<char>::empty()
    } else if rs.len() == 1 {
        spec_range_text(rs.last())
    } else {
        spec_ranges_text(rs.drop_last()) + ", "@ + spec_range_text(rs.last())
    }
}

/// Render a range list for an error message.
pub fn render_ranges(rs: &Vec<Range>) -> (r: String)
    ensures
        r@ == spec_ranges_text(rs@),
{
    let mut r = String::new();
    let mut i: usize = 0;
    proof {
        assert(rs@.take(0) =~= Seq::<Range>::empty());
        assert(r@ =~= spec_ranges_text(rs@.take(0)));
    }
    while i < rs.len()
        invariant
            i <= rs@.len(),
            r@ == spec_ranges_text(rs@.take(i as int)),
        decreases rs@.len() - i,
    {
        proof {
            assert(rs@.take(i + 1).drop_last() =~= rs@.take(i as int));
            assert(rs@.take(i + 1).last() == rs@[i as int]);
        }
        if i > 0 {
            r = r.concat(", ");
        }
        r = concat_decimal(r, rs[i].start as u64);
        r = r.concat("-");
        r = concat_decimal(r, rs[i].end as u64);
        proof {
            assert(r@ =~= spec_ranges_text(rs@.take(i + 1)));
        }
        i += 1;
    }
    proof {
        assert(rs@.take(rs@.len() as int) =~= rs@);
    }
    r
}

/// The message when an id kind's allocation cannot satisfy a request.
pub open spec fn spec_short_alloc_msg(
    kind: Seq<char>,
    req: Seq<Range>,
    allowed: Seq<Range>,
) -> Seq<char> {
    "Number of allowed "@ + kind + " is too small. Required: ["@ + spec_ranges_text(req)
        + "], allowed: ["@ + spec_ranges_text(allowed) + "]"@
}

fn short_alloc_msg(kind: &str, req: &Vec<Range>, allowed: &Vec<Range>) -> (r: String)
    ensures
        r@ == spec_short_alloc_msg(kind@, req@, allowed@),
{
    let r = String::from_str("Number of allowed ").concat(kind).concat(
        " is too small. Required: [",
    ).concat(render_ranges(req).as_str()).concat("], allowed: [").concat(
        render_ranges(allowed).as_str(),
    ).concat("]");
    proof {
        assert(r@ =~= spec_short_alloc_msg(kind@, req@, allowed@));
    }
    r
}

/// Combine a container's requested uid and gid ranges with the ranges
/// the current process has mapped.  A configured override is taken as
/// is; otherwise each request is matched greedily, and a request that
/// does not fit yields an error naming the subuid or subgid shortfall.
pub fn map_users(
    override_map: &Option<(Vec<(u32, u32, u32)>, Vec<(u32, u32, u32)>)>,
    uids: &Vec<Range>,
    gids: &Vec<Range>,
    proc_uid_ranges: &Vec<Range>,
    proc_gid_ranges: &Vec<Range>,
) -> (r: Result<Uidmap, String>)
    requires
        wf_ranges(uids@),
        wf_ranges(gids@),
        // the kernel maps are read only when no override is configured
        override_map is None ==> wf_ranges(proc_uid_ranges@) && wf_ranges(proc_gid_ranges@)
            && proc_uid_ranges@.len() > 0 && proc_gid_ranges@.len() > 0,
    ensures
        match override_map {
            Some(maps) => r matches Ok(Uidmap::Ranges(us, gs)) && us@ == maps.0@ && gs@
                == maps.1@,
            None => {
                let ureq = spec_effective_ranges(uids@);
                let greq = spec_effective_ranges(gids@);
                let um = spec_match_loop(
                    ureq[0],
                    ureq.skip(1),
                    proc_uid_ranges@[0],
                    proc_uid_ranges@.skip(1),
                    seq![(0u32, 0u32, 1u32)],
                );
                let gm = spec_match_loop(
                    greq[0],
                    greq.skip(1),
                    proc_gid_ranges@[0],
                    proc_gid_ranges@.skip(1),
                    seq![(0u32, 0u32, 1u32)],
                );
                match (um, gm) {
                    (Some(uv), Some(gv)) => r matches Ok(Uidmap::Ranges(us, gs)) && us@ == uv
                        && gs@ == gv,
                    (None, _) => r matches Err(e) && e@ == spec_short_alloc_msg(
                        "subuids"@,
                        ureq,
                        proc_uid_ranges@,
                    ),
                    (Some(_), None) => r matches Err(e) && e@ == spec_short_alloc_msg(
                        "subgids"@,
                        greq,
                        proc_gid_ranges@,
                    ),
                }
            },
        },
{
    match override_map {
        Some(maps) => Ok(Uidmap::Ranges(copy_triples(&maps.0), copy_triples(&maps.1))),
        None => {
            let default_ids = vec![Range { start: 0, end: 0 }];
            let ureq = if uids.len() > 0 {
                uids
            } else {
                &default_ids
            };
            let greq = if gids.len() > 0 {
                gids
            } else {
                &default_ids
            };
            proof {
                assert(default_ids@ =~= seq![Range { start: 0u32, end: 0u32 }]);
                assert(ureq@ == spec_effective_ranges(uids@));
                assert(greq@ == spec_effective_ranges(gids@));
            }
            let uid_map = match match_ranges(ureq, proc_uid_ranges, 0) {
                Ok(v) => v,
                Err(()) => {
                    return Err(short_alloc_msg("subuids", ureq, proc_uid_ranges));
                },
            };
            let gid_map = match match_ranges(greq, proc_gid_ranges, 0) {
                Ok(v) => v,
                Err(()) => {
                    return Err(short_alloc_msg("subgids", greq, proc_gid_ranges));
                },
            };
            Ok(Uidmap::Ranges(uid_map, gid_map))
        },
    }
}

// ------------------------------------------------------------------
// Rendering a map for the kernel
// ------------------------------------------------------------------
/// The text of a kernel map file: one `inside outside count` line per
/// triple.
pub open spec fn spec_triple_lines(ts: Seq<(u32, u32, u32)>) -> Seq<u8>
    decreases ts.len(),
{
    if ts.len() == 0 {
        Seq::<u8>::empty()
    } else {
        spec_triple_lines(ts.drop_last()) + dec_bytes(ts.last().0 as nat) + seq![32u8]
            + dec_bytes(ts.last().1 as nat) + seq![32u8] + dec_bytes(ts.last().2 as nat) + seq![
            10u8,
        ]
    }
}

fn render_triples(ts: &Vec<(u32, u32, u32)>) -> (r: Vec<u8>)
    ensures
        r@ == spec_triple_lines(ts@),
{
    let mut r: Vec<u8> = Vec::new();
    let mut i: usize = 0;
    proof {
        assert(ts@.take(0) =~= Seq::<(u32, u32, u32)>::empty());
    }
    while i < ts.len()
        invariant
            i <= ts@.len(),
            r@ == spec_triple_lines(ts@.take(i as int)),
        decreases ts@.len() - i,
    {
        proof {
            assert(ts@.take(i + 1).drop_last() =~= ts@.take(i as int));
            assert(ts@.take(i + 1).last() == ts@[i as int]);
        }
        let t = ts[i];
        push_decimal(&mut r, t.0 as u64);
        r.push(32);
        push_decimal(&mut r, t.1 as u64);
        r.push(32);
        push_decimal(&mut r, t.2 as u64);
        r.push(10);
        proof {
            assert(r@ =~= spec_triple_lines(ts@.take(i + 1)));
        }
        i += 1;
    }
    proof {
        assert(ts@.take(ts@.len() as int) =~= ts@);
    }
    r
}

/// The contents to write into a new namespace's `uid_map` and `gid_map`
/// files for the given map.
pub fn render_uidmap(map: &Uidmap) -> (r: (Vec<u8>, Vec<u8>))
    ensures
        match map {
            Uidmap::Singleton(u, g) => r.0@ == spec_triple_lines(seq![(0u32, *u, 1u32)]) && r.1@
                == spec_triple_lines(seq![(0u32, *g, 1u32)]),
            Uidmap::Ranges(us, gs) => r.0@ == spec_triple_lines(us@) && r.1@ == spec_triple_lines(
                gs@,
            ),
        },
{
    match map {
        Uidmap::Singleton(u, g) => {
            let us = vec![(0u32, *u, 1u32)];
            let gs = vec![(0u32, *g, 1u32)];
            proof {
                assert(us@ =~= seq![(0u32, *u, 1u32)]);
                assert(gs@ =~= seq![(0u32, *g, 1u32)]);
            }
            (render_triples(&us), render_triples(&gs))
        },
        Uidmap::Ranges(us, gs) => (render_triples(us), render_triples(gs)),
    }
}


// ------------------------------------------------------------------
// The no-overlap guarantees
// ------------------------------------------------------------------
/// The inside ranges of a triple list are in increasing order and
/// pairwise disjoint.
pub open spec fn spec_triples_disjoint(ts: Seq<(u32, u32, u32)>) -> bool {
    forall|a: int, b: int| 0 <= a < b < ts.len() ==> ts[a].0 + ts[a].2 <= ts[b].0
}

/// Allocated ranges in strictly increasing, disjoint order, as a
/// well-formed subuid file yields them.
pub open spec fn spec_sorted_disjoint(rs: Seq<Range>) -> bool {
    forall|i: int, j: int| 0 <= i < j < rs.len() ==> rs[i].end < rs[j].start
}

/// Law: the widest map never overlaps itself.  With the allocated
/// ranges sorted, disjoint and away from id 0, the triples of
/// `get_max_uidmap`'s own-range branch — `(0, own, 1)` first, then one
/// per allocation — have pairwise disjoint inside ranges, each also
/// bounded by the last allocation's end.
pub proof fn lemma_own_triples_disjoint(own: u32, rs: Seq<Range>)
    requires
        wf_ranges(rs),
        spec_sorted_disjoint(rs),
        forall|i: int| 0 <= i < rs.len() ==> (#[trigger] rs[i]).start >= 1,
    ensures
        spec_triples_disjoint(spec_own_triples(own, rs)),
        forall|k: int|
            0 <= k < spec_own_triples(own, rs).len() ==> (#[trigger] spec_own_triples(own, rs)[k]).0
                + spec_own_triples(own, rs)[k].2 <= (if rs.len() == 0 {
                1int
            } else {
                rs.last().end + 1
            }),
    decreases rs.len(),
{
    if rs.len() == 0 {
    } else {
        let init = rs.drop_last();
        assert forall|i: int, j: int| 0 <= i < j < init.len() implies init[i].end
            < init[j].start by {
            assert(init[i] == rs[i] && init[j] == rs[j]);
        }
        assert forall|i: int| 0 <= i < init.len() implies (#[trigger] init[i]).start >= 1 by {
            assert(init[i] == rs[i]);
        }
        lemma_own_triples_disjoint(own, init);
        let prev = spec_own_triples(own, init);
        let entry = spec_own_entry(own, rs.last());
        if init.len() > 0 {
            assert(init.last().end < rs.last().start);
        }
        assert forall|k: int|
            0 <= k < prev.len() implies (#[trigger] prev[k]).0 + prev[k].2
            <= rs.last().start by {}
        assert(spec_own_triples(own, rs) == prev + entry);
    }
}

/// Law: the root branch of the widest map never overlaps itself
/// either: identity triples of sorted disjoint kernel ranges are
/// disjoint.
pub proof fn lemma_identity_triples_disjoint(rs: Seq<Range>)
    requires
        wf_ranges(rs),
        spec_sorted_disjoint(rs),
    ensures
        spec_triples_disjoint(spec_identity_triples(rs)),
{
    assert forall|a: int, b: int|
        0 <= a < b < spec_identity_triples(rs).len() implies (#[trigger] spec_identity_triples(
        rs,
    )[a]).0 + spec_identity_triples(rs)[a].2 <= (#[trigger] spec_identity_triples(rs)[b]).0 by {
        assert(rs[a].end < rs[b].start);
    }
}


/// Every range of `rs` lies strictly above the current range.
pub open spec fn spec_chain_after(c: Range, rs: Seq<Range>) -> bool {
    forall|i: int| 0 <= i < rs.len() ==> (c.spec_len() == 0 || c.end < (#[trigger] rs[i]).start)
}

/// A lower bound on the inside id of any triple the matcher may still
/// push; above every id when nothing is left to match.
pub open spec fn spec_push_floor(creq: Range, reqs: Seq<Range>) -> int {
    if creq.spec_len() > 0 {
        if creq.start == 0 {
            1
        } else {
            creq.start as int
        }
    } else if reqs.len() > 0 {
        if reqs[0].start == 0 {
            1
        } else {
            reqs[0].start as int
        }
    } else {
        0x1_0000_0000
    }
}

proof fn lemma_match_loop_disjoint(
    creq: Range,
    reqs: Seq<Range>,
    callow: Range,
    allows: Seq<Range>,
    acc: Seq<(u32, u32, u32)>,
    v: Seq<(u32, u32, u32)>,
)
    requires
        spec_match_loop(creq, reqs, callow, allows, acc) == Some(v),
        cur_ok(creq),
        wf_ranges(reqs),
        spec_sorted_disjoint(reqs),
        spec_chain_after(creq, reqs),
        spec_triples_disjoint(acc),
        forall|k: int|
            0 <= k < acc.len() ==> (#[trigger] acc[k]).0 + acc[k].2 <= spec_push_floor(
                creq,
                reqs,
            ),
    ensures
        spec_triples_disjoint(v),
    decreases reqs.len(), allows.len(),
{
    let creq1 = if creq.start == 0 {
        creq.spec_shift(1)
    } else {
        creq
    };
    let callow1 = if callow.start == 0 {
        callow.spec_shift(1)
    } else {
        callow
    };
    let clen = if creq1.spec_len() < callow1.spec_len() {
        creq1.spec_len()
    } else {
        callow1.spec_len()
    };
    let acc1 = if clen > 0 {
        acc.push((creq1.start, callow1.start, clen as u32))
    } else {
        acc
    };
    let creq2 = creq1.spec_shift(clen);
    let callow2 = callow1.spec_shift(clen);
    assert(spec_triples_disjoint(acc1));
    // whatever this pass pushed ends at creq2's start or below the
    // next range's start
    assert forall|k: int|
        0 <= k < acc1.len() implies (#[trigger] acc1[k]).0 + acc1[k].2 <= spec_push_floor(
        creq2,
        reqs,
    ) by {
        if creq2.spec_len() > 0 {
        } else if reqs.len() > 0 {
            assert(creq.spec_len() == 0 || creq.end < reqs[0].start);
        }
    }
    if creq2.spec_len() == 0 {
        if reqs.len() == 0 {
            assert(v == acc1);
        } else if callow2.spec_len() == 0 {
            if allows.len() == 0 {
            } else {
                assert forall|i: int, j: int|
                    0 <= i < j < reqs.drop_first().len() implies reqs.drop_first()[i].end
                    < reqs.drop_first()[j].start by {
                    assert(reqs.drop_first()[i] == reqs[i + 1]);
                    assert(reqs.drop_first()[j] == reqs[j + 1]);
                }
                assert forall|i: int|
                    0 <= i < reqs.drop_first().len() implies (reqs.first().spec_len() == 0
                    || reqs.first().end < (#[trigger] reqs.drop_first()[i]).start) by {
                    assert(reqs.drop_first()[i] == reqs[i + 1]);
                }
                lemma_match_loop_disjoint(
                    reqs.first(),
                    reqs.drop_first(),
                    allows.first(),
                    allows.drop_first(),
                    acc1,
                    v,
                );
            }
        } else {
            assert forall|i: int, j: int|
                0 <= i < j < reqs.drop_first().len() implies reqs.drop_first()[i].end
                < reqs.drop_first()[j].start by {
                assert(reqs.drop_first()[i] == reqs[i + 1]);
                assert(reqs.drop_first()[j] == reqs[j + 1]);
            }
            assert forall|i: int|
                0 <= i < reqs.drop_first().len() implies (reqs.first().spec_len() == 0
                || reqs.first().end < (#[trigger] reqs.drop_first()[i]).start) by {
                assert(reqs.drop_first()[i] == reqs[i + 1]);
            }
            lemma_match_loop_disjoint(reqs.first(), reqs.drop_first(), callow2, allows, acc1, v);
        }
    } else if callow2.spec_len() == 0 {
        if allows.len() == 0 {
        } else {
            lemma_match_loop_disjoint(creq2, reqs, allows.first(), allows.drop_first(), acc1, v);
        }
    }
}

/// Law: the matched map never overlaps itself and reserves id 0.  With
/// the requested ranges sorted and disjoint — as the configuration
/// validator guarantees — the triples `match_ranges` returns have
/// strictly increasing, pairwise disjoint inside ranges, starting with
/// `(0, own_id, 1)`.
pub proof fn lemma_match_ranges_disjoint(
    req: Seq<Range>,
    allowed: Seq<Range>,
    own_id: u32,
    v: Seq<(u32, u32, u32)>,
)
    requires
        req.len() > 0,
        allowed.len() > 0,
        wf_ranges(req),
        spec_sorted_disjoint(req),
        spec_match_loop(
            req[0],
            req.skip(1),
            allowed[0],
            allowed.skip(1),
            seq![(0u32, own_id, 1u32)],
        ) == Some(v),
    ensures
        spec_triples_disjoint(v),
{
    assert forall|i: int, j: int|
        0 <= i < j < req.skip(1).len() implies req.skip(1)[i].end < req.skip(1)[j].start by {
        assert(req.skip(1)[i] == req[i + 1]);
        assert(req.skip(1)[j] == req[j + 1]);
    }
    assert forall|i: int|
        0 <= i < req.skip(1).len() implies (req[0].spec_len() == 0 || req[0].end < (
        #[trigger] req.skip(1)[i]).start) by {
        assert(req.skip(1)[i] == req[i + 1]);
    }
    assert forall|i: int| 0 <= i < req.skip(1).len() implies wf_range(#[trigger] req.skip(1)[i]) by {
        assert(req.skip(1)[i] == req[i + 1]);
    }
    let acc0 = seq![(0u32, own_id, 1u32)];
    assert(spec_triples_disjoint(acc0));
    assert(forall|k: int|
        0 <= k < acc0.len() ==> (#[trigger] acc0[k]).0 + acc0[k].2 <= spec_push_floor(
            req[0],
            req.skip(1),
        ));
    lemma_match_loop_disjoint(req[0], req.skip(1), allowed[0], allowed.skip(1), acc0, v);
}


/// The id is inside one of the map's triples.
pub open spec fn spec_covered(ts: Seq<(u32, u32, u32)>, id: int) -> bool {
    exists|k: int| 0 <= k < ts.len() && (#[trigger] ts[k]).0 <= id < ts[k].0 + ts[k].2
}

/// The id is inside one of the ranges.
pub open spec fn spec_in_ranges(rs: Seq<Range>, id: int) -> bool {
    exists|i: int| 0 <= i < rs.len() && (#[trigger] rs[i]).start <= id && id <= rs[i].end
}

proof fn lemma_match_loop_covers(
    creq: Range,
    reqs: Seq<Range>,
    callow: Range,
    allows: Seq<Range>,
    acc: Seq<(u32, u32, u32)>,
    v: Seq<(u32, u32, u32)>,
    id: int,
)
    requires
        spec_match_loop(creq, reqs, callow, allows, acc) == Some(v),
        cur_ok(creq),
        wf_ranges(reqs),
        1 <= id,
        (creq.spec_len() > 0 && creq.start <= id && id <= creq.end) || spec_in_ranges(reqs, id),
    ensures
        spec_covered(v, id),
    decreases reqs.len(), allows.len(),
{
    let creq1 = if creq.start == 0 {
        creq.spec_shift(1)
    } else {
        creq
    };
    let callow1 = if callow.start == 0 {
        callow.spec_shift(1)
    } else {
        callow
    };
    let clen = if creq1.spec_len() < callow1.spec_len() {
        creq1.spec_len()
    } else {
        callow1.spec_len()
    };
    let acc1 = if clen > 0 {
        acc.push((creq1.start, callow1.start, clen as u32))
    } else {
        acc
    };
    let creq2 = creq1.spec_shift(clen);
    let callow2 = callow1.spec_shift(clen);
    let in_creq = creq.spec_len() > 0 && creq.start <= id && id <= creq.end;
    if in_creq {
        // id survives the normalization: only inside id 0 is dropped
        assert(creq1.spec_len() > 0 && creq1.start <= id && id <= creq1.end);
    }
    if in_creq && id < creq1.start + clen {
        // this pass's triple covers the id; it stays in the result
        assert(clen > 0);
        assert(acc1[acc.len() as int].0 <= id < acc1[acc.len() as int].0
            + acc1[acc.len() as int].2);
        if creq2.spec_len() == 0 {
            if reqs.len() == 0 {
                assert(v == acc1);
                assert(spec_covered(v, id));
            } else if callow2.spec_len() == 0 {
                if allows.len() > 0 {
                    lemma_match_prefix(
                        reqs.first(),
                        reqs.drop_first(),
                        allows.first(),
                        allows.drop_first(),
                        acc1,
                        v,
                    );
                    assert(v[acc.len() as int] == acc1[acc.len() as int]);
                    assert(spec_covered(v, id));
                }
            } else {
                lemma_match_prefix(reqs.first(), reqs.drop_first(), callow2, allows, acc1, v);
                assert(v[acc.len() as int] == acc1[acc.len() as int]);
                assert(spec_covered(v, id));
            }
        } else {
            assert(callow2.spec_len() == 0);
            if allows.len() > 0 {
                lemma_match_prefix(creq2, reqs, allows.first(), allows.drop_first(), acc1, v);
                assert(v[acc.len() as int] == acc1[acc.len() as int]);
                assert(spec_covered(v, id));
            }
        }
    } else {
        // the id still lies ahead: in what remains of the current
        // range, or in a later one
        let ahead = if in_creq {
            creq2.spec_len() > 0 && creq2.start <= id && id <= creq2.end
        } else {
            spec_in_ranges(reqs, id)
        };
        assert(ahead);
        if creq2.spec_len() == 0 {
            assert(!in_creq);
            if reqs.len() == 0 {
            } else {
                let i = choose|i: int|
                    0 <= i < reqs.len() && (#[trigger] reqs[i]).start <= id && id <= reqs[i].end;
                if i > 0 {
                    assert(reqs.drop_first()[i - 1] == reqs[i]);
                    assert(spec_in_ranges(reqs.drop_first(), id));
                }
                assert forall|j: int|
                    0 <= j < reqs.drop_first().len() implies wf_range(
                    #[trigger] reqs.drop_first()[j],
                ) by {
                    assert(reqs.drop_first()[j] == reqs[j + 1]);
                }
                if callow2.spec_len() == 0 {
                    if allows.len() > 0 {
                        lemma_match_loop_covers(
                            reqs.first(),
                            reqs.drop_first(),
                            allows.first(),
                            allows.drop_first(),
                            acc1,
                            v,
                            id,
                        );
                    }
                } else {
                    lemma_match_loop_covers(
                        reqs.first(),
                        reqs.drop_first(),
                        callow2,
                        allows,
                        acc1,
                        v,
                        id,
                    );
                }
            }
        } else {
            assert(callow2.spec_len() == 0);
            if allows.len() > 0 {
                lemma_match_loop_covers(
                    creq2,
                    reqs,
                    allows.first(),
                    allows.drop_first(),
                    acc1,
                    v,
                    id,
                );
            }
        }
    }
}

/// Law: the matched map covers every requested id.  On success, each
/// id of the requested ranges is inside one of the returned triples —
/// id 0 through the reserved `(0, own_id, 1)` head, every other id
/// through the greedy mapping — so the inside ranges cover all of
/// `[0..max_required]` that the container asked for.
pub proof fn lemma_match_ranges_covers(
    req: Seq<Range>,
    allowed: Seq<Range>,
    own_id: u32,
    v: Seq<(u32, u32, u32)>,
    id: int,
)
    requires
        req.len() > 0,
        allowed.len() > 0,
        wf_ranges(req),
        spec_match_loop(
            req[0],
            req.skip(1),
            allowed[0],
            allowed.skip(1),
            seq![(0u32, own_id, 1u32)],
        ) == Some(v),
        id == 0 || spec_in_ranges(req, id),
        0 <= id,
    ensures
        spec_covered(v, id),
{
    let acc0 = seq![(0u32, own_id, 1u32)];
    if id == 0 {
        lemma_match_prefix(req[0], req.skip(1), allowed[0], allowed.skip(1), acc0, v);
        assert(v[0] == acc0[0]);
        assert(spec_covered(v, 0));
    } else {
        let i = choose|i: int|
            0 <= i < req.len() && (#[trigger] req[i]).start <= id && id <= req[i].end;
        if i > 0 {
            assert(req.skip(1)[i - 1] == req[i]);
            assert(spec_in_ranges(req.skip(1), id));
        }
        assert forall|j: int| 0 <= j < req.skip(1).len() implies wf_range(
            #[trigger] req.skip(1)[j],
        ) by {
            assert(req.skip(1)[j] == req[j + 1]);
        }
        lemma_match_loop_covers(req[0], req.skip(1), allowed[0], allowed.skip(1), acc0, v, id);
    }
}

} // verus!

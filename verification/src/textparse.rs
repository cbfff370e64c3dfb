use vstd::prelude::*;

verus! {

/// Split a byte sequence on a separator; there is always at least one
/// part, parts never contain the separator, and joining the parts with
/// the separator gives back the input.
pub open spec fn spec_split(data: Seq<u8>, sep: u8) -> Seq<Seq<u8>>
    decreases data.len(),
{
    if data.len() == 0 {
        seq![Seq::<u8>::empty()]
    } else {
        let init = spec_split(data.drop_last(), sep);
        if data.last() == sep {
            init + seq![Seq::<u8>::empty()]
        } else {
            init.drop_last() + seq![init.last() + seq![data.last()]]
        }
    }
}

pub proof fn lemma_spec_split_len(data: Seq<u8>, sep: u8)
    ensures
        spec_split(data, sep).len() >= 1,
    decreases data.len(),
{
    if data.len() > 0 {
        lemma_spec_split_len(data.drop_last(), sep);
    }
}

/// Split `data` on `sep`.
pub fn split_bytes(data: &[u8], sep: u8) -> (r: Vec<Vec<u8>>)
    ensures
        r.deep_view() == spec_split(data@, sep),
{
    let mut parts: Vec<Vec<u8>> = Vec::new();
    let mut cur: Vec<u8> = Vec::new();
    let mut i: usize = 0;
    proof {
        assert(data@.take(0) =~= Seq::<u8>::empty());
        assert(parts.deep_view() + seq![cur@] =~~= spec_split(data@.take(0), sep));
    }
    while i < data.len()
        invariant
            i <= data.len(),
            parts.deep_view() + seq![cur@] == spec_split(data@.take(i as int), sep),
        decreases data.len() - i,
    {
        let ghost prev = spec_split(data@.take(i as int), sep);
        let ghost p0 = parts.deep_view();
        let ghost c0 = cur@;
        proof {
            assert(data@.take(i + 1).drop_last() =~= data@.take(i as int));
            assert(data@.take(i + 1).last() == data@[i as int]);
            lemma_spec_split_len(data@.take(i as int), sep);
            assert(prev.drop_last() =~= p0);
            assert(prev.last() == c0);
        }
        if data[i] == sep {
            parts.push(cur);
            cur = Vec::new();
            proof {
                assert(parts.deep_view() =~~= p0 + seq![c0]);
                assert(parts.deep_view() + seq![cur@] =~~= prev + seq![Seq::<u8>::empty()]);
            }
        } else {
            cur.push(data[i]);
            proof {
                assert(parts.deep_view() + seq![cur@] =~~= prev.drop_last() + seq![prev.last()
                    + seq![data@[i as int]]]);
            }
        }
        i += 1;
    }
    proof {
        assert(data@.take(data@.len() as int) =~= data@);
    }
    let ghost p0 = parts.deep_view();
    let ghost c0 = cur@;
    parts.push(cur);
    proof {
        assert(parts.deep_view() =~~= p0 + seq![c0]);
    }
    parts
}

/// An ASCII decimal digit.
pub open spec fn is_digit(b: u8) -> bool {
    48 <= b <= 57
}

/// A non-empty, all-digit byte sequence.
pub open spec fn is_digits(s: Seq<u8>) -> bool {
    s.len() > 0 && forall|i: int| 0 <= i < s.len() ==> is_digit(#[trigger] s[i])
}

/// The number denoted by a digit sequence.
pub open spec fn digits_val(s: Seq<u8>) -> nat
    decreases s.len(),
{
    if s.len() == 0 {
        0
    } else {
        (digits_val(s.drop_last()) * 10 + (s.last() - 48)) as nat
    }
}

proof fn lemma_digits_val_grows(s: Seq<u8>, i: int)
    requires
        0 <= i <= s.len(),
        forall|j: int| i <= j < s.len() ==> is_digit(#[trigger] s[j]),
    ensures
        digits_val(s.take(i)) <= digits_val(s),
    decreases s.len() - i,
{
    if i < s.len() {
        lemma_digits_val_grows(s, i + 1);
        assert(s.take(i + 1).drop_last() =~= s.take(i));
        let x = digits_val(s.take(i));
        let d = s[i];
        assert(s.take(i + 1).last() == d);
        assert(digits_val(s.take(i + 1)) == (x * 10 + (d - 48)) as nat);
        assert(x * 10 + (d - 48) >= x) by (nonlinear_arith)
            requires
                d >= 48,
                x >= 0,
        ;
    } else {
        assert(s.take(i) =~= s);
    }
}

/// Parse an unsigned decimal number that fits in a `u32`.
pub fn parse_u32_dec(bytes: &[u8]) -> (r: Option<u32>)
    ensures
        match r {
            Some(v) => is_digits(bytes@) && digits_val(bytes@) == v,
            None => !is_digits(bytes@) || digits_val(bytes@) > u32::MAX,
        },
{
    if bytes.len() == 0 {
        return None;
    }
    let mut acc: u32 = 0;
    let mut i: usize = 0;
    proof {
        assert(bytes@.take(0) =~= Seq::<u8>::empty());
    }
    while i < bytes.len()
        invariant
            i <= bytes.len(),
            bytes@.len() > 0,
            acc == digits_val(bytes@.take(i as int)),
            forall|j: int| 0 <= j < i ==> is_digit(#[trigger] bytes@[j]),
        decreases bytes.len() - i,
    {
        let b = bytes[i];
        if b < 48 || b > 57 {
            return None;
        }
        proof {
            assert(bytes@.take(i + 1).drop_last() =~= bytes@.take(i as int));
            assert(bytes@.take(i + 1).last() == bytes@[i as int]);
        }
        let d = (b - 48) as u32;
        if acc > (u32::MAX - d) / 10 {
            proof {
                assert(digits_val(bytes@.take(i + 1)) == acc * 10 + d);
                assert(acc * 10 + d > u32::MAX) by (nonlinear_arith)
                    requires
                        acc > (u32::MAX - d) / 10,
                        d < 10,
                ;
                if is_digits(bytes@) {
                    lemma_digits_val_grows(bytes@, i + 1);
                }
            }
            return None;
        }
        proof {
            assert(acc * 10 + d <= u32::MAX) by (nonlinear_arith)
                requires
                    acc <= (u32::MAX - d) / 10,
                    d < 10,
            ;
        }
        acc = acc * 10 + d;
        i += 1;
    }
    proof {
        assert(bytes@.take(bytes@.len() as int) =~= bytes@);
    }
    Some(acc)
}

/// An ASCII space or tab.
pub open spec fn is_ws(b: u8) -> bool {
    b == 32 || b == 9 || b == 13
}

/// Length of `s` once trailing whitespace is removed.
pub open spec fn spec_trimmed_len(s: Seq<u8>) -> int
    decreases s.len(),
{
    if s.len() == 0 {
        0
    } else if is_ws(s.last()) {
        spec_trimmed_len(s.drop_last())
    } else {
        s.len() as int
    }
}

/// Copy of `v` without trailing whitespace.
pub fn trim_end_ws(v: &Vec<u8>) -> (r: Vec<u8>)
    ensures
        r@ == v@.take(spec_trimmed_len(v@)),
{
    let mut end: usize = v.len();
    proof {
        assert(v@.take(v@.len() as int) =~= v@);
    }
    while end > 0 && (v[end - 1] == 32 || v[end - 1] == 9 || v[end - 1] == 13)
        invariant
            end <= v.len(),
            spec_trimmed_len(v@) == spec_trimmed_len(v@.take(end as int)),
        decreases end,
    {
        proof {
            assert(v@.take(end as int).last() == v@[end - 1]);
            assert(v@.take(end as int).drop_last() =~= v@.take(end - 1));
        }
        end -= 1;
    }
    proof {
        if end > 0 {
            assert(v@.take(end as int).last() == v@[end - 1]);
            assert(spec_trimmed_len(v@.take(end as int)) == end as int);
        } else {
            assert(v@.take(0) =~= Seq::<u8>::empty());
        }
    }
    let mut r: Vec<u8> = Vec::new();
    let mut i: usize = 0;
    while i < end
        invariant
            i <= end,
            end <= v.len(),
            r@ == v@.take(end as int).take(i as int),
        decreases end - i,
    {
        r.push(v[i]);
        proof {
            assert(v@.take(end as int).take(i + 1) =~= v@.take(end as int).take(i as int)
                + seq![v@[i as int]]);
        }
        i += 1;
    }
    proof {
        assert(v@.take(end as int).take(end as int) =~= v@.take(end as int));
        assert(spec_trimmed_len(v@) == end as int);
    }
    r
}

/// Whether the first non-whitespace byte of `s` is `#`.
pub open spec fn spec_is_comment(s: Seq<u8>) -> bool
    decreases s.len(),
{
    if s.len() == 0 {
        false
    } else if is_ws(s.first()) {
        spec_is_comment(s.drop_first())
    } else {
        s.first() == 35
    }
}

/// Whether the line's first non-whitespace byte is a `#`.
pub fn is_comment_line(v: &Vec<u8>) -> (r: bool)
    ensures
        r == spec_is_comment(v@),
{
    let mut i: usize = 0;
    proof {
        assert(v@.skip(0) =~= v@);
    }
    while i < v.len() && (v[i] == 32 || v[i] == 9 || v[i] == 13)
        invariant
            i <= v.len(),
            spec_is_comment(v@) == spec_is_comment(v@.skip(i as int)),
        decreases v.len() - i,
    {
        proof {
            assert(v@.skip(i as int).first() == v@[i as int]);
            assert(v@.skip(i as int).drop_first() =~= v@.skip(i + 1));
        }
        i += 1;
    }
    if i < v.len() {
        proof {
            assert(v@.skip(i as int).first() == v@[i as int]);
        }
        v[i] == 35
    } else {
        proof {
            assert(v@.skip(i as int).len() == 0);
        }
        false
    }
}

/// The lines of a text file: split on newlines, without the empty
/// fragment after a trailing newline.
pub open spec fn spec_file_lines(data: Seq<u8>) -> Seq<Seq<u8>> {
    let parts = spec_split(data, 10);
    if parts.last().len() == 0 {
        parts.drop_last()
    } else {
        parts
    }
}

/// Split file contents into lines, dropping the fragment after a final
/// newline.
pub fn file_lines(data: &Vec<u8>) -> (r: Vec<Vec<u8>>)
    ensures
        r.deep_view() == spec_file_lines(data@),
{
    let mut parts = split_bytes(data.as_slice(), 10);
    proof {
        lemma_spec_split_len(data@, 10);
    }
    let must_pop = parts[parts.len() - 1].len() == 0;
    proof {
        assert(parts.deep_view().last() == parts@[parts@.len() - 1].deep_view());
    }
    if must_pop {
        let _ = parts.pop();
        proof {
            assert(parts.deep_view() =~= spec_split(data@, 10).drop_last());
        }
    }
    parts
}


/// The whitespace-separated fields of a line, as `split_whitespace`
/// yields them: maximal runs of non-whitespace bytes.
pub open spec fn spec_fields(s: Seq<u8>) -> Seq<Seq<u8>>
    decreases s.len(),
{
    if s.len() == 0 {
        Seq::<Seq<u8>>::empty()
    } else {
        let init = spec_fields(s.drop_last());
        if is_ws(s.last()) {
            init
        } else if s.len() >= 2 && !is_ws(s[s.len() - 2]) {
            init.drop_last() + seq![init.last() + seq![s.last()]]
        } else {
            init + seq![seq![s.last()]]
        }
    }
}

/// Split a line into its whitespace-separated fields.
pub fn split_fields(data: &Vec<u8>) -> (r: Vec<Vec<u8>>)
    ensures
        r.deep_view() == spec_fields(data@),
{
    let mut parts: Vec<Vec<u8>> = Vec::new();
    let mut cur: Vec<u8> = Vec::new();
    let mut i: usize = 0;
    proof {
        assert(data@.take(0) =~= Seq::<u8>::empty());
    }
    while i < data.len()
        invariant
            i <= data.len(),
            cur@.len() > 0 <==> (i > 0 && !is_ws(data@[i - 1])),
            cur@.len() > 0 ==> parts.deep_view() + seq![cur@] == spec_fields(
                data@.take(i as int),
            ),
            cur@.len() == 0 ==> parts.deep_view() == spec_fields(data@.take(i as int)),
        decreases data.len() - i,
    {
        let ghost prev = spec_fields(data@.take(i as int));
        let ghost p0 = parts.deep_view();
        let ghost c0 = cur@;
        proof {
            assert(data@.take(i + 1).drop_last() =~= data@.take(i as int));
            assert(data@.take(i + 1).last() == data@[i as int]);
        }
        let b = data[i];
        if b == 32 || b == 9 || b == 13 {
            if cur.len() > 0 {
                parts.push(cur);
                cur = Vec::new();
                proof {
                    assert(parts.deep_view() =~~= p0 + seq![c0]);
                }
            }
        } else {
            cur.push(b);
            proof {
                if c0.len() > 0 {
                    assert(prev.drop_last() =~= p0);
                    assert(prev.last() == c0);
                    assert(parts.deep_view() + seq![cur@] =~~= prev.drop_last() + seq![prev.last()
                        + seq![data@[i as int]]]);
                } else {
                    assert(parts.deep_view() + seq![cur@] =~~= prev + seq![seq![data@[i as int]]]);
                }
            }
        }
        i += 1;
    }
    proof {
        assert(data@.take(data@.len() as int) =~= data@);
    }
    if cur.len() > 0 {
        let ghost p0 = parts.deep_view();
        let ghost c0 = cur@;
        parts.push(cur);
        proof {
            assert(parts.deep_view() =~~= p0 + seq![c0]);
        }
    }
    parts
}

/// Bytewise equality of two byte vectors.
pub fn bytes_eq(a: &Vec<u8>, b: &Vec<u8>) -> (r: bool)
    ensures
        r == (a@ == b@),
{
    if a.len() != b.len() {
        proof {
            assert(a@.len() != b@.len());
        }
        return false;
    }
    let mut i: usize = 0;
    while i < a.len()
        invariant
            i <= a.len(),
            a@.len() == b@.len(),
            forall|j: int| 0 <= j < i ==> a@[j] == b@[j],
        decreases a.len() - i,
    {
        if a[i] != b[i] {
            return false;
        }
        i += 1;
    }
    proof {
        assert(a@ =~= b@);
    }
    true
}

} // verus!

//! Byte-level text helpers for the sensor-file and process-output parsers:
//! ASCII whitespace handling, trimming, decimal parsing, tokenizing and
//! line splitting.  All specs are over byte sequences; the sensor files are
//! plain ASCII decimal text.

use vstd::prelude::*;
use vstd::string::StringSliceAdditionalSpecFns;
use vstd::string::StrSliceExecFns;

verus! {

/// ASCII whitespace byte.
pub open spec fn is_ws(b: u8) -> bool {
    b == 32 || b == 9 || b == 10 || b == 13 || b == 11 || b == 12
}

pub open spec fn is_digit(b: u8) -> bool {
    48 <= b <= 57
}

pub open spec fn all_digits(s: Seq<u8>) -> bool {
    forall|i: int| 0 <= i < s.len() ==> is_digit(s[i])
}

/// Numeric value of a digit string, most significant digit first.
pub open spec fn digits_value(s: Seq<u8>) -> int
    decreases s.len(),
{
    if s.len() == 0 {
        0
    } else {
        digits_value(s.drop_last()) * 10 + (s.last() - 48)
    }
}

pub(crate) proof fn lemma_digits_value_nonneg(s: Seq<u8>)
    requires
        all_digits(s),
    ensures
        digits_value(s) >= 0,
    decreases s.len(),
{
    if s.len() > 0 {
        assert(all_digits(s.drop_last()));
        lemma_digits_value_nonneg(s.drop_last());
    }
}

/// Appending digits never shrinks the value.
proof fn lemma_digits_value_prefix_le(s: Seq<u8>, k: int)
    requires
        all_digits(s),
        0 <= k <= s.len(),
    ensures
        digits_value(s.subrange(0, k)) <= digits_value(s),
    decreases s.len() - k,
{
    if k < s.len() {
        let t = s.subrange(0, k + 1);
        assert(t.drop_last() =~= s.subrange(0, k));
        assert(all_digits(t));
        lemma_digits_value_nonneg(s.subrange(0, k));
        assert(digits_value(t) == digits_value(s.subrange(0, k)) * 10 + (s[k] - 48));
        assert(digits_value(s.subrange(0, k)) <= digits_value(t));
        lemma_digits_value_prefix_le(s, k + 1);
        assert(s.subrange(0, s.len() as int) =~= s);
    } else {
        assert(s.subrange(0, k) =~= s);
    }
}

/// Value denoted by an unsigned decimal as `u64::from_str` reads it: an
/// optional leading plus sign, then at least one digit, the value fitting
/// the type.
pub open spec fn spec_parse_u64(s: Seq<u8>) -> Option<u64> {
    let ds = if s.len() > 0 && s[0] == 43 {
        s.drop_first()
    } else {
        s
    };
    if ds.len() > 0 && all_digits(ds) && digits_value(ds) <= u64::MAX {
        Some(digits_value(ds) as u64)
    } else {
        None
    }
}

/// Value denoted by a signed decimal as `i32::from_str` reads it.
pub open spec fn spec_parse_i32(s: Seq<u8>) -> Option<i32> {
    if s.len() > 0 && s[0] == 45 {
        let ds = s.drop_first();
        if ds.len() > 0 && all_digits(ds) && -digits_value(ds) >= i32::MIN {
            Some((-digits_value(ds)) as i32)
        } else {
            None
        }
    } else {
        let ds = if s.len() > 0 && s[0] == 43 {
            s.drop_first()
        } else {
            s
        };
        if ds.len() > 0 && all_digits(ds) && digits_value(ds) <= i32::MAX {
            Some(digits_value(ds) as i32)
        } else {
            None
        }
    }
}

/// Parse the digit run `bytes[from..to]` as an unsigned value, `None` on a
/// non-digit, an empty range, or overflow.
pub(crate) fn parse_digits_u64(bytes: &[u8], from: usize, to: usize) -> (r: Option<u64>)
    requires
        from <= to <= bytes@.len(),
    ensures
        r == {
            let ds = bytes@.subrange(from as int, to as int);
            if ds.len() > 0 && all_digits(ds) && digits_value(ds) <= u64::MAX {
                Some(digits_value(ds) as u64)
            } else {
                None::<u64>
            }
        },
        r matches Some(v) ==> digits_value(bytes@.subrange(from as int, to as int)) == v,
{
    let ghost ds = bytes@.subrange(from as int, to as int);
    if from == to {
        return None;
    }
    let mut acc: u64 = 0;
    let mut i: usize = from;
    while i < to
        invariant
            from <= i <= to <= bytes@.len(),
            ds == bytes@.subrange(from as int, to as int),
            all_digits(ds.subrange(0, i - from)),
            acc == digits_value(ds.subrange(0, i - from)),
        decreases to - i,
    {
        let b = bytes[i];
        if b < 48 || b > 57 {
            assert(ds[i - from] == b);
            return None;
        }
        let d = (b - 48) as u64;
        proof {
            assert(ds.subrange(0, i + 1 - from).drop_last() =~= ds.subrange(0, i - from));
            assert(ds.subrange(0, i + 1 - from).last() == ds[i - from]);
            assert(ds[i - from] == b);
        }
        if acc > (u64::MAX - d) / 10 {
            proof {
                let k = i + 1 - from;
                assert(10 * ((u64::MAX - d) / 10) + 10 >= u64::MAX - d + 1) by (nonlinear_arith)
                    requires
                        0 <= d <= 9,
                ;
                assert(acc * 10 >= ((u64::MAX - d) / 10) * 10 + 10) by (nonlinear_arith)
                    requires
                        acc >= (u64::MAX - d) / 10 + 1,
                ;
                assert(digits_value(ds.subrange(0, k)) > u64::MAX);
                assert(forall|j: int| 0 <= j < k ==> is_digit(ds.subrange(0, k)[j]));
                if all_digits(ds) {
                    lemma_digits_value_prefix_le(ds, k);
                }
            }
            return None;
        }
        acc = acc * 10 + d;
        i = i + 1;
    }
    proof {
        assert(ds.subrange(0, to - from) =~= ds);
    }
    Some(acc)
}

/// Leading and trailing ASCII whitespace removed.
pub open spec fn spec_trim(s: Seq<u8>) -> Seq<u8>
    decreases s.len(),
{
    if s.len() == 0 {
        s
    } else if is_ws(s[0]) {
        spec_trim(s.drop_first())
    } else if is_ws(s.last()) {
        spec_trim(s.drop_last())
    } else {
        s
    }
}

proof fn lemma_trim_all_ws(s: Seq<u8>)
    requires
        forall|k: int| 0 <= k < s.len() ==> is_ws(s[k]),
    ensures
        spec_trim(s) == Seq::<u8>::empty(),
    decreases s.len(),
{
    if s.len() > 0 {
        assert(forall|k: int|
            0 <= k < s.drop_first().len() ==> is_ws(#[trigger] s.drop_first()[k]));
        lemma_trim_all_ws(s.drop_first());
    } else {
        assert(s =~= Seq::<u8>::empty());
    }
}

proof fn lemma_trim_subrange(s: Seq<u8>, i: int, j: int)
    requires
        0 <= i < j <= s.len(),
        forall|k: int| 0 <= k < i ==> is_ws(s[k]),
        forall|k: int| j <= k < s.len() ==> is_ws(s[k]),
        !is_ws(s[i]),
        !is_ws(s[j - 1]),
    ensures
        spec_trim(s) == s.subrange(i, j),
    decreases s.len(),
{
    if i > 0 {
        let t = s.drop_first();
        assert(forall|k: int| 0 <= k < i - 1 ==> is_ws(#[trigger] t[k]));
        assert(forall|k: int| j - 1 <= k < t.len() ==> is_ws(#[trigger] t[k]));
        lemma_trim_subrange(t, i - 1, j - 1);
        assert(t.subrange(i - 1, j - 1) =~= s.subrange(i, j));
    } else if j < s.len() {
        let t = s.drop_last();
        assert(is_ws(s.last()));
        assert(forall|k: int| j <= k < t.len() ==> is_ws(#[trigger] t[k]));
        lemma_trim_subrange(t, i, j);
        assert(t.subrange(i, j) =~= s.subrange(i, j));
    } else {
        assert(s.subrange(0, s.len() as int) =~= s);
    }
}

/// Bounds of the trimmed middle of `bytes`: the whitespace-free hull.
pub(crate) fn trim_bounds(bytes: &[u8]) -> (r: (usize, usize))
    ensures
        r.0 <= r.1 <= bytes@.len(),
        spec_trim(bytes@) == bytes@.subrange(r.0 as int, r.1 as int),
{
    let n = bytes.len();
    let mut i: usize = 0;
    while i < n && (bytes[i] == 32 || bytes[i] == 9 || bytes[i] == 10 || bytes[i] == 13 || bytes[i]
        == 11 || bytes[i] == 12)
        invariant
            i <= n == bytes@.len(),
            forall|k: int| 0 <= k < i ==> is_ws(bytes@[k]),
        decreases n - i,
    {
        i = i + 1;
    }
    if i == n {
        proof {
            lemma_trim_all_ws(bytes@);
            assert(bytes@.subrange(n as int, n as int) =~= Seq::<u8>::empty());
        }
        return (n, n);
    }
    let mut j: usize = n;
    while j > i + 1 && (bytes[j - 1] == 32 || bytes[j - 1] == 9 || bytes[j - 1] == 10 || bytes[j
        - 1] == 13 || bytes[j - 1] == 11 || bytes[j - 1] == 12)
        invariant
            i < j <= n == bytes@.len(),
            !is_ws(bytes@[i as int]),
            forall|k: int| j <= k < n ==> is_ws(bytes@[k]),
        decreases j,
    {
        j = j - 1;
    }
    proof {
        lemma_trim_subrange(bytes@, i as int, j as int);
    }
    (i, j)
}

/// Trimmed numeric file content as an unsigned integer, as the sensor-file
/// readers use it: `None` when the text is not a plain decimal.
pub fn read_u64(s: &str) -> (r: Option<u64>)
    ensures
        r == spec_parse_u64(spec_trim(s.spec_bytes())),
{
    let bytes = s.as_bytes();
    let (i, j) = trim_bounds(bytes);
    let ghost t = spec_trim(s.spec_bytes());
    if i == j {
        return None;
    }
    if bytes[i] == 43 {
        proof {
            assert(t.drop_first() =~= bytes@.subrange(i + 1, j as int));
        }
        parse_digits_u64(bytes, i + 1, j)
    } else {
        parse_digits_u64(bytes, i, j)
    }
}

/// Trimmed numeric file content as a signed integer (millidegrees and the
/// like): `None` when the text is not a plain decimal.
pub fn read_i32(s: &str) -> (r: Option<i32>)
    ensures
        r == spec_parse_i32(spec_trim(s.spec_bytes())),
{
    let bytes = s.as_bytes();
    let (i, j) = trim_bounds(bytes);
    let ghost t = spec_trim(s.spec_bytes());
    if i == j {
        return None;
    }
    if bytes[i] == 45 {
        proof {
            assert(t.drop_first() =~= bytes@.subrange(i + 1, j as int));
        }
        let m = parse_digits_u64(bytes, i + 1, j);
        match m {
            Some(v) => {
                if v <= 2_147_483_648 {
                    proof {
                        let ds = t.drop_first();
                        lemma_digits_value_nonneg(ds);
                    }
                    if v == 2_147_483_648 {
                        Some(i32::MIN)
                    } else {
                        Some(-(v as i32))
                    }
                } else {
                    None
                }
            },
            None => None,
        }
    } else {
        let ghost ds = if t.len() > 0 && t[0] == 43 {
            t.drop_first()
        } else {
            t
        };
        if bytes[i] == 43 {
            proof {
                assert(t.drop_first() =~= bytes@.subrange(i + 1, j as int));
            }
            let m = parse_digits_u64(bytes, i + 1, j);
            match m {
                Some(v) => if v <= i32::MAX as u64 {
                    Some(v as i32)
                } else {
                    None
                },
                None => None,
            }
        } else {
            let m = parse_digits_u64(bytes, i, j);
            match m {
                Some(v) => if v <= i32::MAX as u64 {
                    Some(v as i32)
                } else {
                    None
                },
                None => None,
            }
        }
    }
}

/// Whole token as an unsigned decimal (optional plus sign, digits, value
/// in range), as `u64::from_str` reads it.
pub fn parse_u64_token(bytes: &[u8]) -> (r: Option<u64>)
    ensures
        r == spec_parse_u64(bytes@),
{
    let n = bytes.len();
    proof {
        assert(bytes@.subrange(0, n as int) =~= bytes@);
    }
    if n > 0 && bytes[0] == 43 {
        proof {
            assert(bytes@.drop_first() =~= bytes@.subrange(1, n as int));
        }
        parse_digits_u64(bytes, 1, n)
    } else {
        parse_digits_u64(bytes, 0, n)
    }
}

/// Value denoted by an unsigned decimal that must fit `usize`, as
/// `usize::from_str` reads it.
pub open spec fn spec_parse_usize(s: Seq<u8>) -> Option<usize> {
    let ds = if s.len() > 0 && s[0] == 43 {
        s.drop_first()
    } else {
        s
    };
    if ds.len() > 0 && all_digits(ds) && digits_value(ds) <= usize::MAX {
        Some(digits_value(ds) as usize)
    } else {
        None
    }
}

/// The range `bytes[from..to]` as a `usize`, as `usize::from_str` reads
/// it.
pub fn parse_usize_range(bytes: &[u8], from: usize, to: usize) -> (r: Option<usize>)
    requires
        from <= to <= bytes@.len(),
    ensures
        r == spec_parse_usize(bytes@.subrange(from as int, to as int)),
{
    let ghost s = bytes@.subrange(from as int, to as int);
    proof {
        let ds = if s.len() > 0 && s[0] == 43 {
            s.drop_first()
        } else {
            s
        };
        if ds.len() > 0 && all_digits(ds) {
            lemma_digits_value_nonneg(ds);
        }
    }
    let m = if from < to && bytes[from] == 43 {
        proof {
            assert(s.drop_first() =~= bytes@.subrange(from + 1, to as int));
        }
        parse_digits_u64(bytes, from + 1, to)
    } else {
        parse_digits_u64(bytes, from, to)
    };
    match m {
        Some(v) => if v <= usize::MAX as u64 {
            Some(v as usize)
        } else {
            None
        },
        None => None,
    }
}

/// Whitespace-separated tokens of `s[i..]`, with `cur` the token under
/// construction: the accumulator form of splitting on ASCII whitespace.
pub open spec fn spec_tokens_acc(s: Seq<u8>, i: int, cur: Seq<u8>) -> Seq<Seq<u8>>
    decreases s.len() - i,
{
    if i < 0 || i >= s.len() {
        if cur.len() > 0 {
            seq![cur]
        } else {
            Seq::empty()
        }
    } else if is_ws(s[i]) {
        if cur.len() > 0 {
            seq![cur] + spec_tokens_acc(s, i + 1, Seq::empty())
        } else {
            spec_tokens_acc(s, i + 1, Seq::empty())
        }
    } else {
        spec_tokens_acc(s, i + 1, cur.push(s[i]))
    }
}

/// Maximal whitespace-free runs of `s`, in order.
pub open spec fn spec_tokens(s: Seq<u8>) -> Seq<Seq<u8>> {
    spec_tokens_acc(s, 0, Seq::empty())
}

fn is_ws_byte(b: u8) -> (r: bool)
    ensures
        r == is_ws(b),
{
    b == 32 || b == 9 || b == 10 || b == 13 || b == 11 || b == 12
}

/// Split into whitespace-separated tokens.
pub fn split_ws_tokens(bytes: &[u8]) -> (r: Vec<Vec<u8>>)
    ensures
        r@.len() == spec_tokens(bytes@).len(),
        forall|k: int| 0 <= k < r@.len() ==> #[trigger] r@[k]@ == spec_tokens(bytes@)[k],
{
    let n = bytes.len();
    let mut out: Vec<Vec<u8>> = Vec::new();
    let mut cur: Vec<u8> = Vec::new();
    let ghost mut gout: Seq<Seq<u8>> = Seq::empty();
    let mut i: usize = 0;
    while i < n
        invariant
            i <= n == bytes@.len(),
            gout.len() == out@.len(),
            forall|k: int| 0 <= k < gout.len() ==> #[trigger] out@[k]@ == gout[k],
            gout + spec_tokens_acc(bytes@, i as int, cur@) == spec_tokens(bytes@),
        decreases n - i,
    {
        let b = bytes[i];
        if is_ws_byte(b) {
            if cur.len() > 0 {
                proof {
                    assert(spec_tokens_acc(bytes@, i as int, cur@) == seq![cur@]
                        + spec_tokens_acc(bytes@, i + 1, Seq::empty()));
                    assert((gout + (seq![cur@] + spec_tokens_acc(bytes@, i + 1, Seq::empty())))
                        =~= (gout.push(cur@) + spec_tokens_acc(bytes@, i + 1, Seq::empty())));
                    gout = gout.push(cur@);
                }
                out.push(cur);
                cur = Vec::new();
                proof {
                    assert(cur@ =~= Seq::<u8>::empty());
                }
            } else {
                proof {
                    assert(cur@ =~= Seq::<u8>::empty());
                    assert(spec_tokens_acc(bytes@, i as int, cur@) == spec_tokens_acc(
                        bytes@,
                        i + 1,
                        Seq::empty(),
                    ));
                }
            }
        } else {
            proof {
                assert(spec_tokens_acc(bytes@, i as int, cur@) == spec_tokens_acc(
                    bytes@,
                    i + 1,
                    cur@.push(bytes@[i as int]),
                ));
            }
            cur.push(b);
        }
        i = i + 1;
    }
    if cur.len() > 0 {
        proof {
            assert((gout + seq![cur@]) =~= gout.push(cur@));
            gout = gout.push(cur@);
        }
        out.push(cur);
    }
    proof {
        assert(gout =~= spec_tokens(bytes@));
    }
    out
}

/// The line under construction with a trailing carriage return removed.
pub open spec fn strip_cr(line: Seq<u8>) -> Seq<u8> {
    if line.len() > 0 && line.last() == 13 {
        line.drop_last()
    } else {
        line
    }
}

/// Lines of `s[i..]` with `cur` the line under construction: the
/// accumulator form of splitting on newlines, each line losing a trailing
/// carriage return, a final fragment kept only when non-empty.
pub open spec fn spec_lines_acc(s: Seq<u8>, i: int, cur: Seq<u8>) -> Seq<Seq<u8>>
    decreases s.len() - i,
{
    if i < 0 || i >= s.len() {
        if cur.len() > 0 {
            seq![strip_cr(cur)]
        } else {
            Seq::empty()
        }
    } else if s[i] == 10 {
        seq![strip_cr(cur)] + spec_lines_acc(s, i + 1, Seq::empty())
    } else {
        spec_lines_acc(s, i + 1, cur.push(s[i]))
    }
}

/// Lines of `s`, split at newlines, as `str::lines` yields them.
pub open spec fn spec_lines(s: Seq<u8>) -> Seq<Seq<u8>> {
    spec_lines_acc(s, 0, Seq::empty())
}

/// Split into lines at newline bytes, dropping one trailing carriage
/// return per line and any empty final fragment.
pub fn split_lines(bytes: &[u8]) -> (r: Vec<Vec<u8>>)
    ensures
        r@.len() == spec_lines(bytes@).len(),
        forall|k: int| 0 <= k < r@.len() ==> #[trigger] r@[k]@ == spec_lines(bytes@)[k],
{
    let n = bytes.len();
    let mut out: Vec<Vec<u8>> = Vec::new();
    let mut cur: Vec<u8> = Vec::new();
    let ghost mut gout: Seq<Seq<u8>> = Seq::empty();
    let mut i: usize = 0;
    while i < n
        invariant
            i <= n == bytes@.len(),
            gout.len() == out@.len(),
            forall|k: int| 0 <= k < gout.len() ==> #[trigger] out@[k]@ == gout[k],
            gout + spec_lines_acc(bytes@, i as int, cur@) == spec_lines(bytes@),
        decreases n - i,
    {
        let b = bytes[i];
        if b == 10 {
            let ghost precur = cur@;
            if cur.len() > 0 && cur[cur.len() - 1] == 13 {
                cur.pop();
            }
            proof {
                assert(cur@ =~= strip_cr(precur));
                assert((gout + (seq![strip_cr(precur)] + spec_lines_acc(
                    bytes@,
                    i + 1,
                    Seq::empty(),
                ))) =~= (gout.push(cur@) + spec_lines_acc(bytes@, i + 1, Seq::empty())));
                gout = gout.push(cur@);
            }
            out.push(cur);
            cur = Vec::new();
        } else {
            cur.push(b);
        }
        i = i + 1;
    }
    if cur.len() > 0 {
        let ghost precur = cur@;
        if cur[cur.len() - 1] == 13 {
            cur.pop();
        }
        proof {
            assert(cur@ =~= strip_cr(precur));
            assert((gout + seq![strip_cr(precur)]) =~= gout.push(cur@));
            gout = gout.push(cur@);
        }
        out.push(cur);
    }
    proof {
        assert(gout =~= spec_lines(bytes@));
    }
    out
}

/// Two characters equal up to ASCII case.
pub open spec fn eq_char_nocase(x: char, y: char) -> bool {
    (x == y) || (65 <= x as u32 <= 90 && y as u32 == x as u32 + 32) || (65 <= y as u32 <= 90 && x
        as u32 == y as u32 + 32)
}

/// Two texts equal up to ASCII case.
pub open spec fn spec_str_eq_nocase(a: Seq<char>, b: Seq<char>) -> bool {
    a.len() == b.len() && forall|i: int| 0 <= i < a.len() ==> eq_char_nocase(a[i], b[i])
}

/// Compare two texts ignoring ASCII case.
pub fn str_eq_nocase(a: &str, b: &str) -> (r: bool)
    ensures
        r == spec_str_eq_nocase(a@, b@),
{
    let na = a.unicode_len();
    let nb = b.unicode_len();
    if na != nb {
        return false;
    }
    let mut i: usize = 0;
    while i < na
        invariant
            i <= na == a@.len(),
            a@.len() == b@.len(),
            forall|k: int| 0 <= k < i ==> eq_char_nocase(a@[k], b@[k]),
        decreases na - i,
    {
        let ca = a.get_char(i);
        let cb = b.get_char(i);
        let ua = ca as u32;
        let ub = cb as u32;
        let same = ca == cb || (65 <= ua && ua <= 90 && ub == ua + 32) || (65 <= ub && ub <= 90
            && ua == ub + 32);
        if !same {
            return false;
        }
        i = i + 1;
    }
    true
}

/// ASCII whitespace character.
pub open spec fn is_ws_char(c: char) -> bool {
    c == ' ' || c == '\t' || c == '\n' || c == '\r' || c == '\x0b' || c == '\x0c'
}

fn is_ws_char_exec(c: char) -> (r: bool)
    ensures
        r == is_ws_char(c),
{
    c == ' ' || c == '\t' || c == '\n' || c == '\r' || c == '\x0b' || c == '\x0c'
}

/// Leading and trailing ASCII whitespace characters removed.
pub open spec fn spec_trim_chars(s: Seq<char>) -> Seq<char>
    decreases s.len(),
{
    if s.len() == 0 {
        s
    } else if is_ws_char(s[0]) {
        spec_trim_chars(s.drop_first())
    } else if is_ws_char(s.last()) {
        spec_trim_chars(s.drop_last())
    } else {
        s
    }
}

proof fn lemma_trim_chars_all_ws(s: Seq<char>)
    requires
        forall|k: int| 0 <= k < s.len() ==> is_ws_char(s[k]),
    ensures
        spec_trim_chars(s) == Seq::<char>::empty(),
    decreases s.len(),
{
    if s.len() > 0 {
        assert(forall|k: int|
            0 <= k < s.drop_first().len() ==> is_ws_char(#[trigger] s.drop_first()[k]));
        lemma_trim_chars_all_ws(s.drop_first());
    } else {
        assert(s =~= Seq::<char>::empty());
    }
}

proof fn lemma_trim_chars_subrange(s: Seq<char>, i: int, j: int)
    requires
        0 <= i < j <= s.len(),
        forall|k: int| 0 <= k < i ==> is_ws_char(s[k]),
        forall|k: int| j <= k < s.len() ==> is_ws_char(s[k]),
        !is_ws_char(s[i]),
        !is_ws_char(s[j - 1]),
    ensures
        spec_trim_chars(s) == s.subrange(i, j),
    decreases s.len(),
{
    if i > 0 {
        let t = s.drop_first();
        assert(forall|k: int| 0 <= k < i - 1 ==> is_ws_char(#[trigger] t[k]));
        assert(forall|k: int| j - 1 <= k < t.len() ==> is_ws_char(#[trigger] t[k]));
        lemma_trim_chars_subrange(t, i - 1, j - 1);
        assert(t.subrange(i - 1, j - 1) =~= s.subrange(i, j));
    } else if j < s.len() {
        let t = s.drop_last();
        assert(is_ws_char(s.last()));
        assert(forall|k: int| j <= k < t.len() ==> is_ws_char(#[trigger] t[k]));
        lemma_trim_chars_subrange(t, i, j);
        assert(t.subrange(i, j) =~= s.subrange(i, j));
    } else {
        assert(s.subrange(0, s.len() as int) =~= s);
    }
}

/// Bounds of the whitespace-trimmed middle of `s[from..to]` (character
/// indices).
pub fn trim_char_bounds(s: &str, from: usize, to: usize) -> (r: (usize, usize))
    requires
        from <= to <= s@.len(),
    ensures
        from <= r.0 <= r.1 <= to,
        spec_trim_chars(s@.subrange(from as int, to as int)) == s@.subrange(
            r.0 as int,
            r.1 as int,
        ),
{
    let ghost t = s@.subrange(from as int, to as int);
    let mut i: usize = from;
    while i < to && is_ws_char_exec(s.get_char(i))
        invariant
            from <= i <= to <= s@.len(),
            forall|k: int| from <= k < i ==> is_ws_char(s@[k]),
        decreases to - i,
    {
        i = i + 1;
    }
    if i == to {
        proof {
            assert(forall|k: int| 0 <= k < t.len() ==> is_ws_char(#[trigger] t[k]));
            lemma_trim_chars_all_ws(t);
            assert(s@.subrange(to as int, to as int) =~= Seq::<char>::empty());
        }
        return (to, to);
    }
    let mut j: usize = to;
    while j > i + 1 && is_ws_char_exec(s.get_char(j - 1))
        invariant
            i < j <= to <= s@.len(),
            !is_ws_char(s@[i as int]),
            forall|k: int| j <= k < to ==> is_ws_char(s@[k]),
        decreases j,
    {
        j = j - 1;
    }
    proof {
        assert(forall|k: int| 0 <= k < i - from ==> is_ws_char(#[trigger] t[k]));
        assert(forall|k: int| j - from <= k < t.len() ==> is_ws_char(#[trigger] t[k]));
        assert(!is_ws_char(t[i - from]));
        assert(!is_ws_char(t[j - from - 1]));
        lemma_trim_chars_subrange(t, i - from, j - from);
        assert(t.subrange(i - from, j - from) =~= s@.subrange(i as int, j as int));
    }
    (i, j)
}

/// First index at or after `i` holding `c`, or the length when absent.
pub open spec fn spec_idx_of_char(s: Seq<char>, i: int, c: char) -> int
    decreases s.len() - i,
{
    if i < 0 || i >= s.len() {
        s.len() as int
    } else if s[i] == c {
        i
    } else {
        spec_idx_of_char(s, i + 1, c)
    }
}

pub proof fn lemma_idx_of_char_props(s: Seq<char>, i: int, c: char)
    requires
        0 <= i <= s.len(),
    ensures
        i <= spec_idx_of_char(s, i, c) <= s.len(),
        spec_idx_of_char(s, i, c) < s.len() ==> s[spec_idx_of_char(s, i, c)] == c,
        forall|j: int| i <= j < spec_idx_of_char(s, i, c) ==> s[j] != c,
    decreases s.len() - i,
{
    if i < s.len() && s[i] != c {
        lemma_idx_of_char_props(s, i + 1, c);
    }
}

/// Find a character in `s[from..to]`; the result is `to` when absent.
pub fn find_char_in_range(s: &str, from: usize, to: usize, c: char) -> (r: usize)
    requires
        from <= to <= s@.len(),
    ensures
        from <= r <= to,
        r < to ==> s@[r as int] == c,
        forall|j: int| from <= j < r ==> s@[j] != c,
{
    let mut i: usize = from;
    while i < to
        invariant
            from <= i <= to <= s@.len(),
            forall|j: int| from <= j < i ==> s@[j] != c,
        decreases to - i,
    {
        if s.get_char(i) == c {
            return i;
        }
        i = i + 1;
    }
    to
}

/// Compare two texts exactly, character by character.
pub fn str_eq_chars(a: &str, b: &str) -> (r: bool)
    ensures
        r == (a@ == b@),
{
    let na = a.unicode_len();
    let nb = b.unicode_len();
    if na != nb {
        return false;
    }
    let mut i: usize = 0;
    while i < na
        invariant
            i <= na == a@.len(),
            a@.len() == b@.len(),
            forall|k: int| 0 <= k < i ==> a@[k] == b@[k],
        decreases na - i,
    {
        if s_neq_at(a, b, i) {
            return false;
        }
        i = i + 1;
    }
    proof {
        assert(a@ =~= b@);
    }
    true
}

fn s_neq_at(a: &str, b: &str, i: usize) -> (r: bool)
    requires
        i < a@.len(),
        i < b@.len(),
    ensures
        r == (a@[i as int] != b@[i as int]),
{
    a.get_char(i) != b.get_char(i)
}

/// Whitespace-separated tokens of the characters of `s[i..]`, with `cur`
/// the token under construction.
pub open spec fn spec_tokens_chars_acc(s: Seq<char>, i: int, cur: Seq<char>) -> Seq<Seq<char>>
    decreases s.len() - i,
{
    if i < 0 || i >= s.len() {
        if cur.len() > 0 {
            seq![cur]
        } else {
            Seq::empty()
        }
    } else if is_ws_char(s[i]) {
        if cur.len() > 0 {
            seq![cur] + spec_tokens_chars_acc(s, i + 1, Seq::empty())
        } else {
            spec_tokens_chars_acc(s, i + 1, Seq::empty())
        }
    } else {
        spec_tokens_chars_acc(s, i + 1, cur.push(s[i]))
    }
}

/// Maximal whitespace-free character runs of `s`, in order.
pub open spec fn spec_tokens_chars(s: Seq<char>) -> Seq<Seq<char>> {
    spec_tokens_chars_acc(s, 0, Seq::empty())
}

/// Character ranges of the whitespace-separated tokens of `s`.
pub fn char_token_ranges(s: &str) -> (r: Vec<(usize, usize)>)
    ensures
        r@.len() == spec_tokens_chars(s@).len(),
        forall|k: int|
            0 <= k < r@.len() ==> (#[trigger] r@[k]).0 <= r@[k].1 <= s@.len() && s@.subrange(
                r@[k].0 as int,
                r@[k].1 as int,
            ) == spec_tokens_chars(s@)[k],
{
    let n = s.unicode_len();
    let mut out: Vec<(usize, usize)> = Vec::new();
    let ghost mut gout: Seq<Seq<char>> = Seq::empty();
    let mut cs: usize = 0;
    let mut have = false;
    let mut i: usize = 0;
    while i < n
        invariant
            i <= n == s@.len(),
            gout.len() == out@.len(),
            forall|k: int|
                0 <= k < gout.len() ==> (#[trigger] out@[k]).0 <= out@[k].1 <= s@.len()
                    && s@.subrange(out@[k].0 as int, out@[k].1 as int) == gout[k],
            have ==> cs <= i,
            gout + spec_tokens_chars_acc(
                s@,
                i as int,
                if have {
                    s@.subrange(cs as int, i as int)
                } else {
                    Seq::empty()
                },
            ) == spec_tokens_chars(s@),
        decreases n - i,
    {
        let ghost cur = if have {
            s@.subrange(cs as int, i as int)
        } else {
            Seq::<char>::empty()
        };
        let c = s.get_char(i);
        if is_ws_char_exec(c) {
            if have {
                proof {
                    assert(cur.len() > 0 || cs == i);
                    if cur.len() == 0 {
                        assert(cur =~= Seq::<char>::empty());
                    }
                }
                if cs < i {
                    proof {
                        assert((gout + (seq![cur] + spec_tokens_chars_acc(s@, i + 1, Seq::empty())))
                            =~= (gout.push(cur) + spec_tokens_chars_acc(s@, i + 1, Seq::empty())));
                        gout = gout.push(cur);
                    }
                    out.push((cs, i));
                }
                have = false;
            }
        } else {
            if !have {
                cs = i;
                have = true;
            }
            proof {
                assert(s@.subrange(cs as int, i + 1) =~= cur.push(s@[i as int]));
            }
        }
        i = i + 1;
    }
    if have && cs < n {
        let ghost cur = s@.subrange(cs as int, n as int);
        proof {
            assert((gout + seq![cur]) =~= gout.push(cur));
            gout = gout.push(cur);
        }
        out.push((cs, n));
    }
    proof {
        if !(have && cs < n) {
            assert(gout =~= spec_tokens_chars(s@));
        }
        assert(gout =~= spec_tokens_chars(s@));
    }
    out
}

/// The line under construction with one trailing carriage return removed.
pub open spec fn strip_cr_chars(line: Seq<char>) -> Seq<char> {
    if line.len() > 0 && line.last() == '\r' {
        line.drop_last()
    } else {
        line
    }
}

/// Lines of the characters of `s[i..]` with `cur` the line under
/// construction, each line losing one trailing carriage return, an empty
/// final fragment dropped.
pub open spec fn spec_lines_chars_acc(s: Seq<char>, i: int, cur: Seq<char>) -> Seq<Seq<char>>
    decreases s.len() - i,
{
    if i < 0 || i >= s.len() {
        if cur.len() > 0 {
            seq![strip_cr_chars(cur)]
        } else {
            Seq::empty()
        }
    } else if s[i] == '\n' {
        seq![strip_cr_chars(cur)] + spec_lines_chars_acc(s, i + 1, Seq::empty())
    } else {
        spec_lines_chars_acc(s, i + 1, cur.push(s[i]))
    }
}

/// Lines of `s`, as `str::lines` yields them.
pub open spec fn spec_lines_chars(s: Seq<char>) -> Seq<Seq<char>> {
    spec_lines_chars_acc(s, 0, Seq::empty())
}

/// Character ranges of the lines of `s` (newline excluded, one trailing
/// carriage return per line excluded).
pub fn char_line_ranges(s: &str) -> (r: Vec<(usize, usize)>)
    ensures
        r@.len() == spec_lines_chars(s@).len(),
        forall|k: int|
            0 <= k < r@.len() ==> (#[trigger] r@[k]).0 <= r@[k].1 <= s@.len() && s@.subrange(
                r@[k].0 as int,
                r@[k].1 as int,
            ) == spec_lines_chars(s@)[k],
{
    let n = s.unicode_len();
    let mut out: Vec<(usize, usize)> = Vec::new();
    let ghost mut gout: Seq<Seq<char>> = Seq::empty();
    let mut cs: usize = 0;
    let mut i: usize = 0;
    proof {
        assert(s@.subrange(0, 0) =~= Seq::<char>::empty());
        assert((Seq::<Seq<char>>::empty() + spec_lines_chars_acc(s@, 0, Seq::empty()))
            =~= spec_lines_chars_acc(s@, 0, Seq::empty()));
    }
    while i < n
        invariant
            cs <= i <= n == s@.len(),
            gout.len() == out@.len(),
            forall|k: int|
                0 <= k < gout.len() ==> (#[trigger] out@[k]).0 <= out@[k].1 <= s@.len()
                    && s@.subrange(out@[k].0 as int, out@[k].1 as int) == gout[k],
            gout + spec_lines_chars_acc(s@, i as int, s@.subrange(cs as int, i as int))
                == spec_lines_chars(s@),
        decreases n - i,
    {
        let ghost cur = s@.subrange(cs as int, i as int);
        let c = s.get_char(i);
        if c == '\n' {
            let mut e = i;
            if cs < i && s.get_char(i - 1) == '\r' {
                e = i - 1;
            }
            proof {
                assert(s@.subrange(cs as int, e as int) =~= strip_cr_chars(cur));
                assert((gout + (seq![strip_cr_chars(cur)] + spec_lines_chars_acc(
                    s@,
                    i + 1,
                    Seq::empty(),
                ))) =~= (gout.push(strip_cr_chars(cur)) + spec_lines_chars_acc(
                    s@,
                    i + 1,
                    Seq::empty(),
                )));
                gout = gout.push(strip_cr_chars(cur));
            }
            out.push((cs, e));
            cs = i + 1;
            proof {
                assert(s@.subrange(cs as int, i + 1) =~= Seq::<char>::empty());
            }
        } else {
            proof {
                assert(s@.subrange(cs as int, i + 1) =~= cur.push(s@[i as int]));
            }
        }
        i = i + 1;
    }
    if cs < n {
        let ghost cur = s@.subrange(cs as int, n as int);
        let mut e = n;
        if s.get_char(n - 1) == '\r' {
            e = n - 1;
        }
        proof {
            assert(s@.subrange(cs as int, e as int) =~= strip_cr_chars(cur));
            assert((gout + seq![strip_cr_chars(cur)]) =~= gout.push(strip_cr_chars(cur)));
            gout = gout.push(strip_cr_chars(cur));
        }
        out.push((cs, e));
    }
    proof {
        if cs >= n {
            assert(s@.subrange(cs as int, n as int) =~= Seq::<char>::empty());
        }
        assert(gout =~= spec_lines_chars(s@));
    }
    out
}

pub open spec fn is_digit_char(c: char) -> bool {
    '0' <= c <= '9'
}

pub open spec fn all_digit_chars(s: Seq<char>) -> bool {
    forall|i: int| 0 <= i < s.len() ==> is_digit_char(s[i])
}

/// Numeric value of a digit character string, most significant first.
pub open spec fn digit_chars_value(s: Seq<char>) -> int
    decreases s.len(),
{
    if s.len() == 0 {
        0
    } else {
        digit_chars_value(s.drop_last()) * 10 + (s.last() as u32 - 48)
    }
}

pub(crate) proof fn lemma_digit_chars_value_nonneg(s: Seq<char>)
    requires
        all_digit_chars(s),
    ensures
        digit_chars_value(s) >= 0,
    decreases s.len(),
{
    if s.len() > 0 {
        assert(all_digit_chars(s.drop_last()));
        lemma_digit_chars_value_nonneg(s.drop_last());
    }
}

proof fn lemma_digit_chars_prefix_le(s: Seq<char>, k: int)
    requires
        all_digit_chars(s),
        0 <= k <= s.len(),
    ensures
        digit_chars_value(s.subrange(0, k)) <= digit_chars_value(s),
    decreases s.len() - k,
{
    if k < s.len() {
        let t = s.subrange(0, k + 1);
        assert(t.drop_last() =~= s.subrange(0, k));
        assert(all_digit_chars(t));
        lemma_digit_chars_value_nonneg(s.subrange(0, k));
        assert(digit_chars_value(t) == digit_chars_value(s.subrange(0, k)) * 10 + (s[k] as u32
            - 48));
        assert(digit_chars_value(s.subrange(0, k)) <= digit_chars_value(t));
        lemma_digit_chars_prefix_le(s, k + 1);
        assert(s.subrange(0, s.len() as int) =~= s);
    } else {
        assert(s.subrange(0, k) =~= s);
    }
}

/// Value denoted by an unsigned decimal in character form, as
/// `u64::from_str` reads it.
pub open spec fn spec_parse_u64_chars(s: Seq<char>) -> Option<u64> {
    let ds = if s.len() > 0 && s[0] == '+' {
        s.drop_first()
    } else {
        s
    };
    if ds.len() > 0 && all_digit_chars(ds) && digit_chars_value(ds) <= u64::MAX {
        Some(digit_chars_value(ds) as u64)
    } else {
        None
    }
}

fn parse_digit_chars(s: &str, from: usize, to: usize) -> (r: Option<u64>)
    requires
        from <= to <= s@.len(),
    ensures
        r == {
            let ds = s@.subrange(from as int, to as int);
            if ds.len() > 0 && all_digit_chars(ds) && digit_chars_value(ds) <= u64::MAX {
                Some(digit_chars_value(ds) as u64)
            } else {
                None::<u64>
            }
        },
{
    let ghost ds = s@.subrange(from as int, to as int);
    if from == to {
        return None;
    }
    let mut acc: u64 = 0;
    let mut i: usize = from;
    while i < to
        invariant
            from <= i <= to <= s@.len(),
            ds == s@.subrange(from as int, to as int),
            all_digit_chars(ds.subrange(0, i - from)),
            acc == digit_chars_value(ds.subrange(0, i - from)),
        decreases to - i,
    {
        let c = s.get_char(i);
        if c < '0' || c > '9' {
            assert(ds[i - from] == c);
            return None;
        }
        let d = (c as u32 - 48) as u64;
        proof {
            assert(ds.subrange(0, i + 1 - from).drop_last() =~= ds.subrange(0, i - from));
            assert(ds.subrange(0, i + 1 - from).last() == ds[i - from]);
            assert(ds[i - from] == c);
        }
        if acc > (u64::MAX - d) / 10 {
            proof {
                let k = i + 1 - from;
                assert(10 * ((u64::MAX - d) / 10) + 10 >= u64::MAX - d + 1) by (nonlinear_arith)
                    requires
                        0 <= d <= 9,
                ;
                assert(acc * 10 >= ((u64::MAX - d) / 10) * 10 + 10) by (nonlinear_arith)
                    requires
                        acc >= (u64::MAX - d) / 10 + 1,
                ;
                assert(digit_chars_value(ds.subrange(0, k)) > u64::MAX);
                assert(forall|j: int| 0 <= j < k ==> is_digit_char(ds.subrange(0, k)[j]));
                if all_digit_chars(ds) {
                    lemma_digit_chars_prefix_le(ds, k);
                }
            }
            return None;
        }
        acc = acc * 10 + d;
        i = i + 1;
    }
    proof {
        assert(ds.subrange(0, to - from) =~= ds);
    }
    Some(acc)
}

/// Parse the characters `s[from..to]` as an unsigned decimal.
pub fn parse_u64_chars(s: &str, from: usize, to: usize) -> (r: Option<u64>)
    requires
        from <= to <= s@.len(),
    ensures
        r == spec_parse_u64_chars(s@.subrange(from as int, to as int)),
{
    let ghost t = s@.subrange(from as int, to as int);
    if from < to && s.get_char(from) == '+' {
        proof {
            assert(t.drop_first() =~= s@.subrange(from + 1, to as int));
        }
        parse_digit_chars(s, from + 1, to)
    } else {
        parse_digit_chars(s, from, to)
    }
}

/// `s[a..b]` equals `t`, character for character.
pub fn range_eq_str(s: &str, a: usize, b: usize, t: &str) -> (r: bool)
    requires
        a <= b <= s@.len(),
    ensures
        r == (s@.subrange(a as int, b as int) == t@),
{
    let m = t.unicode_len();
    if b - a != m {
        proof {
            assert(s@.subrange(a as int, b as int).len() != t@.len());
        }
        return false;
    }
    let mut i: usize = 0;
    while i < m
        invariant
            i <= m == t@.len(),
            a + m <= b <= s@.len(),
            b - a == m,
            forall|k: int| 0 <= k < i ==> s@.subrange(a as int, b as int)[k] == t@[k],
        decreases m - i,
    {
        if s.get_char(a + i) != t.get_char(i) {
            return false;
        }
        i = i + 1;
    }
    proof {
        assert(s@.subrange(a as int, b as int) =~= t@);
    }
    true
}

} // verus!

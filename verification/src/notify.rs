//! Notification-watcher text helpers: shell argument escaping, the
//! package field of a notification listing line, and the listing snapshot
//! the watcher diffs between polls.  Running the platform commands is the
//! outer layer's business.

use vstd::prelude::*;
use vstd::string::{StrSliceExecFns, StringExecFns};
use crate::text::{
    char_line_ranges, find_char_in_range, lemma_idx_of_char_props, spec_idx_of_char,
    spec_lines_chars, spec_trim_chars, trim_char_bounds,
};

verus! {

/// The single-quote-safe form of `s[i..]`: each quote becomes the
/// quote-backslash-quote-quote sequence shells need inside a quoted
/// argument.
pub open spec fn spec_sh_escape_from(s: Seq<char>, i: int) -> Seq<char>
    decreases s.len() - i,
{
    if i < 0 || i >= s.len() {
        Seq::empty()
    } else {
        (if s[i] == '\'' {
            seq!['\'', '\\', '\'', '\'']
        } else {
            seq![s[i]]
        }) + spec_sh_escape_from(s, i + 1)
    }
}

pub open spec fn spec_sh_escape(s: Seq<char>) -> Seq<char> {
    spec_sh_escape_from(s, 0)
}

/// Escape single quotes for interpolation into a single-quoted shell
/// argument.
pub fn sh_escape_single_quotes(s: &str) -> (r: String)
    ensures
        r@ == spec_sh_escape(s@),
{
    let n = s.unicode_len();
    let mut out = String::new();
    let mut seg: usize = 0;
    let mut i: usize = 0;
    proof {
        assert(s@.subrange(0, 0) =~= Seq::<char>::empty());
        assert((Seq::<char>::empty() + Seq::<char>::empty() + spec_sh_escape_from(s@, 0))
            =~= spec_sh_escape_from(s@, 0));
    }
    while i < n
        invariant
            seg <= i <= n == s@.len(),
            out@ + s@.subrange(seg as int, i as int) + spec_sh_escape_from(s@, i as int)
                == spec_sh_escape(s@),
        decreases n - i,
    {
        let c = s.get_char(i);
        if c == '\'' {
            let pre = s.substring_char(seg, i);
            out.append(pre);
            out.append("'\\''");
            proof {
                reveal_strlit("'\\''");
                assert(("'\\''")@ =~= seq!['\'', '\\', '\'', '\'']);
                assert(s@.subrange(i + 1, i + 1) =~= Seq::<char>::empty());
                assert((out@ + Seq::<char>::empty() + spec_sh_escape_from(s@, i + 1)) =~= ((out@
                    + spec_sh_escape_from(s@, i + 1))));
                assert(spec_sh_escape_from(s@, i as int) == seq!['\'', '\\', '\'', '\'']
                    + spec_sh_escape_from(s@, i + 1));
                assert(out@ + spec_sh_escape_from(s@, i + 1) =~= spec_sh_escape(s@));
            }
            seg = i + 1;
        } else {
            proof {
                assert(s@.subrange(seg as int, i + 1) =~= s@.subrange(seg as int, i as int).push(
                    s@[i as int],
                ));
                assert(spec_sh_escape_from(s@, i as int) == seq![s@[i as int]]
                    + spec_sh_escape_from(s@, i + 1));
                assert((out@ + s@.subrange(seg as int, i + 1) + spec_sh_escape_from(s@, i + 1))
                    =~= (out@ + s@.subrange(seg as int, i as int) + spec_sh_escape_from(
                    s@,
                    i as int,
                )));
            }
        }
        i = i + 1;
    }
    let tail = s.substring_char(seg, n);
    out.append(tail);
    proof {
        assert(out@ =~= spec_sh_escape(s@));
    }
    out
}

/// The second pipe-separated field of a listing line (the posting
/// package), when the line has at least one pipe.
pub open spec fn spec_second_field(s: Seq<char>) -> Option<Seq<char>> {
    let b1 = spec_idx_of_char(s, 0, '|');
    if b1 < s.len() {
        let b2 = spec_idx_of_char(s, b1 + 1, '|');
        Some(s.subrange(b1 + 1, b2))
    } else {
        None
    }
}

/// Read the posting package out of one notification listing line.
pub fn pkg_from_line(line: &str) -> (r: Option<String>)
    ensures
        match r {
            Some(p) => spec_second_field(line@) == Some(p@),
            None => spec_second_field(line@) is None,
        },
{
    let n = line.unicode_len();
    let b1 = find_char_in_range(line, 0, n, '|');
    proof {
        lemma_idx_of_char_props(line@, 0, '|');
        assert(spec_idx_of_char(line@, 0, '|') == if b1 < n {
            b1 as int
        } else {
            n as int
        });
    }
    if b1 == n {
        return None;
    }
    let b2 = find_char_in_range(line, b1 + 1, n, '|');
    proof {
        lemma_idx_of_char_props(line@, b1 + 1, '|');
        assert(spec_idx_of_char(line@, b1 + 1, '|') == if b2 < n {
            b2 as int
        } else {
            n as int
        });
    }
    Some(line.substring_char(b1 + 1, b2).to_owned())
}

/// The trimmed, non-empty lines among `lines[i..]`.
pub open spec fn spec_kept_lines(lines: Seq<Seq<char>>, i: int) -> Seq<Seq<char>>
    decreases lines.len() - i,
{
    if i < 0 || i >= lines.len() {
        Seq::empty()
    } else {
        let t = spec_trim_chars(lines[i]);
        (if t.len() > 0 {
            seq![t]
        } else {
            Seq::<Seq<char>>::empty()
        }) + spec_kept_lines(lines, i + 1)
    }
}

/// The listing snapshot a diff works on: every trimmed, non-empty line of
/// the command output, in order.
pub open spec fn spec_snapshot(s: Seq<char>) -> Seq<Seq<char>> {
    spec_kept_lines(spec_lines_chars(s), 0)
}

/// Collect the trimmed, non-empty lines of a notification listing.  Lines
/// may repeat; the diff between two snapshots goes by membership.
pub fn snapshot(output: &str) -> (r: Vec<String>)
    ensures
        r@.len() == spec_snapshot(output@).len(),
        forall|k: int| 0 <= k < r@.len() ==> #[trigger] r@[k]@ == spec_snapshot(output@)[k],
{
    let ranges = char_line_ranges(output);
    let ghost glines = spec_lines_chars(output@);
    let mut out: Vec<String> = Vec::new();
    let ghost mut gout: Seq<Seq<char>> = Seq::empty();
    let m = ranges.len();
    let mut k: usize = 0;
    proof {
        assert((Seq::<Seq<char>>::empty() + spec_kept_lines(glines, 0)) =~= spec_kept_lines(
            glines,
            0,
        ));
    }
    while k < m
        invariant
            k <= m == ranges@.len(),
            ranges@.len() == glines.len(),
            glines == spec_lines_chars(output@),
            gout.len() == out@.len(),
            forall|x: int| 0 <= x < gout.len() ==> #[trigger] out@[x]@ == gout[x],
            forall|x: int|
                0 <= x < ranges@.len() ==> (#[trigger] ranges@[x]).0 <= ranges@[x].1
                    <= output@.len() && output@.subrange(ranges@[x].0 as int, ranges@[x].1 as int)
                    == glines[x],
            gout + spec_kept_lines(glines, k as int) == spec_snapshot(output@),
        decreases m - k,
    {
        let (a, b) = ranges[k];
        let ghost line = glines[k as int];
        let (ta, tb) = trim_char_bounds(output, a, b);
        proof {
            assert(output@.subrange(ta as int, tb as int) == spec_trim_chars(line));
        }
        if ta < tb {
            let t = output.substring_char(ta, tb).to_owned();
            proof {
                assert((gout + (seq![spec_trim_chars(line)] + spec_kept_lines(glines, k + 1)))
                    =~= (gout.push(spec_trim_chars(line)) + spec_kept_lines(glines, k + 1)));
                gout = gout.push(spec_trim_chars(line));
            }
            out.push(t);
        } else {
            proof {
                assert(spec_trim_chars(line).len() == 0);
                assert((gout + spec_kept_lines(glines, k + 1)) =~= (gout + ((
                if spec_trim_chars(line).len() > 0 {
                    seq![spec_trim_chars(line)]
                } else {
                    Seq::<Seq<char>>::empty()
                }) + spec_kept_lines(glines, k + 1))));
            }
        }
        k = k + 1;
    }
    proof {
        assert(gout =~= spec_snapshot(output@));
    }
    out
}

/// Whether `x` occurs in a snapshot.
pub fn snapshot_contains(snap: &Vec<String>, x: &str) -> (r: bool)
    ensures
        r == exists|i: int| 0 <= i < snap@.len() && snap@[i]@ == x@,
{
    let n = snap.len();
    let mut i: usize = 0;
    while i < n
        invariant
            i <= n == snap@.len(),
            forall|k: int| 0 <= k < i ==> snap@[k]@ != x@,
        decreases n - i,
    {
        if crate::text::str_eq_chars(snap[i].as_str(), x) {
            return true;
        }
        i = i + 1;
    }
    false
}

} // verus!

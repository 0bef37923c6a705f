//! Process-memory reporting: the parser for the resident-set-size line of
//! the kernel's per-process status text.  The outer layer reads the file.

use vstd::prelude::*;
use vstd::string::StrSliceExecFns;
use crate::text::{
    char_line_ranges, char_token_ranges, parse_u64_chars, spec_lines_chars, spec_parse_u64_chars,
    spec_tokens_chars,
};

verus! {

/// A status line reporting the resident set size: it starts with the six
/// characters `VmRSS:`.
pub open spec fn is_vmrss_line(line: Seq<char>) -> bool {
    line.len() >= 6 && line[0] == 'V' && line[1] == 'm' && line[2] == 'R' && line[3] == 'S'
        && line[4] == 'S' && line[5] == ':'
}

/// The value the first resident-set-size line denotes: its first numeric
/// field after the label (the unit field is ignored); `None` when the
/// first such line has no parseable field, or no line reports it.
pub open spec fn spec_vmrss_from(lines: Seq<Seq<char>>, k: int) -> Option<u64>
    decreases lines.len() - k,
{
    if k < 0 || k >= lines.len() {
        None
    } else if is_vmrss_line(lines[k]) {
        let toks = spec_tokens_chars(lines[k].skip(6));
        if toks.len() == 0 {
            None
        } else {
            spec_parse_u64_chars(toks[0])
        }
    } else {
        spec_vmrss_from(lines, k + 1)
    }
}

pub open spec fn spec_vmrss_kb(s: Seq<char>) -> Option<u64> {
    spec_vmrss_from(spec_lines_chars(s), 0)
}

/// Read the resident set size in kB out of the per-process status text.
pub fn read_vmrss_kb(content: &str) -> (r: Option<u64>)
    ensures
        r == spec_vmrss_kb(content@),
{
    let ranges = char_line_ranges(content);
    let ghost glines = spec_lines_chars(content@);
    let m = ranges.len();
    let mut k: usize = 0;
    while k < m
        invariant
            k <= m == ranges@.len(),
            ranges@.len() == glines.len(),
            glines == spec_lines_chars(content@),
            forall|x: int|
                0 <= x < ranges@.len() ==> (#[trigger] ranges@[x]).0 <= ranges@[x].1
                    <= content@.len() && content@.subrange(ranges@[x].0 as int, ranges@[x].1 as int)
                    == glines[x],
            spec_vmrss_from(glines, 0) == spec_vmrss_from(glines, k as int),
        decreases m - k,
    {
        let (a, b) = ranges[k];
        let ghost line = glines[k as int];
        let hit = b - a >= 6 && content.get_char(a) == 'V' && content.get_char(a + 1) == 'm'
            && content.get_char(a + 2) == 'R' && content.get_char(a + 3) == 'S' && content.get_char(
            a + 4,
        ) == 'S' && content.get_char(a + 5) == ':';
        if hit {
            let rest = content.substring_char(a + 6, b);
            proof {
                assert(rest@ =~= line.skip(6));
            }
            let toks = char_token_ranges(rest);
            if toks.len() == 0 {
                return None;
            }
            let (ta, tb) = toks[0];
            return parse_u64_chars(rest, ta, tb);
        }
        proof {
            assert(spec_vmrss_from(glines, k as int) == spec_vmrss_from(glines, k + 1));
        }
        k = k + 1;
    }
    proof {
        assert(spec_vmrss_from(glines, m as int) is None);
    }
    None
}

} // verus!

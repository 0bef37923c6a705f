//! Background-process watcher: the per-process statistics line parser and
//! the scan that picks the heaviest CPU consumer since the previous scan.
//!
//! The outer layer walks the process directory and reads each statistics
//! file; this module parses the lines and does the delta arithmetic.

use vstd::prelude::*;
use vstd::string::{StrSliceExecFns, StringExecFns};
use crate::actuator::ActuatorCache;
use crate::text::{
    char_line_ranges, char_token_ranges, find_char_in_range, lemma_idx_of_char_props,
    parse_u64_chars, spec_idx_of_char, spec_lines_chars, spec_parse_u64_chars, spec_tokens_chars,
};

verus! {

/// Last index of `c` in `s`, or -1 when absent.
pub open spec fn spec_rlast_idx(s: Seq<char>, c: char) -> int
    decreases s.len(),
{
    if s.len() == 0 {
        -1
    } else if s.last() == c {
        s.len() - 1
    } else {
        spec_rlast_idx(s.drop_last(), c)
    }
}

proof fn lemma_rlast_idx_props(s: Seq<char>, c: char)
    ensures
        -1 <= spec_rlast_idx(s, c) < s.len(),
        spec_rlast_idx(s, c) >= 0 ==> s[spec_rlast_idx(s, c)] == c,
        forall|j: int| spec_rlast_idx(s, c) < j < s.len() ==> s[j] != c,
    decreases s.len(),
{
    if s.len() > 0 && s.last() != c {
        lemma_rlast_idx_props(s.drop_last(), c);
        assert(forall|j: int| 0 <= j < s.len() - 1 ==> s.drop_last()[j] == s[j]);
    }
}

/// What one process statistics line denotes: the command name between the
/// first opening and the last closing parenthesis, and the saturating sum
/// of the utime and stime fields (the 11th and 12th whitespace fields
/// after the parenthesized name and the state).
pub open spec fn spec_parse_pid_stat(s: Seq<char>) -> Option<(Seq<char>, u64)> {
    let l = spec_idx_of_char(s, 0, '(');
    if l >= s.len() {
        None
    } else {
        let r = spec_rlast_idx(s, ')');
        if r <= l {
            None
        } else {
            let comm = s.subrange(l + 1, r);
            let toks = spec_tokens_chars(s.subrange(r + 1, s.len() as int));
            if toks.len() < 13 {
                None
            } else {
                match (spec_parse_u64_chars(toks[11]), spec_parse_u64_chars(toks[12])) {
                    (Some(ut), Some(st)) => Some((comm, ut.saturating_add(st))),
                    _ => None,
                }
            }
        }
    }
}

/// Parse one process statistics line into the command name and its total
/// consumed jiffies.
pub fn parse_pid_stat(line: &str) -> (r: Option<(String, u64)>)
    ensures
        match r {
            Some(p) => spec_parse_pid_stat(line@) == Some((p.0@, p.1)),
            None => spec_parse_pid_stat(line@) is None,
        },
{
    let n = line.unicode_len();
    let l = find_char_in_range(line, 0, n, '(');
    proof {
        lemma_idx_of_char_props(line@, 0, '(');
        assert(spec_idx_of_char(line@, 0, '(') == if l < n {
            l as int
        } else {
            n as int
        });
    }
    if l == n {
        return None;
    }

    let mut rj: usize = n;
    while rj > 0 && !char_is_rparen(line, rj - 1)
        invariant
            rj <= n == line@.len(),
            forall|k: int| rj <= k < n ==> line@[k] != ')',
        decreases rj,
    {
        rj = rj - 1;
    }
    proof {
        lemma_rlast_idx_props(line@, ')');
        let w = spec_rlast_idx(line@, ')');
        if rj == 0 {
            assert(w == -1);
        } else {
            assert(line@[rj - 1] == ')');
            assert(w == rj - 1);
        }
    }
    if rj == 0 {
        return None;
    }
    let rp = rj - 1;
    if rp <= l {
        return None;
    }

    let comm = line.substring_char(l + 1, rp).to_owned();
    let after = line.substring_char(rp + 1, n);
    let ranges = char_token_ranges(after);
    let ghost toks = spec_tokens_chars(line@.subrange(rp + 1, n as int));
    if ranges.len() < 13 {
        return None;
    }
    let (a1, b1) = ranges[11];
    let ut = match parse_u64_chars(after, a1, b1) {
        Some(v) => v,
        None => {
            return None;
        },
    };
    let (a2, b2) = ranges[12];
    let st = match parse_u64_chars(after, a2, b2) {
        Some(v) => v,
        None => {
            return None;
        },
    };
    Some((comm, ut.saturating_add(st)))
}

/// The per-process jiffy map a scan leaves behind: each entry's counter,
/// later duplicates winning.
pub open spec fn spec_ticks_map(procs: Seq<(u32, String, u64)>) -> Map<u64, u64>
    decreases procs.len(),
{
    if procs.len() == 0 {
        Map::empty()
    } else {
        spec_ticks_map(procs.drop_last()).insert(procs.last().0 as u64, procs.last().2)
    }
}

/// Jiffies an entry consumed since the previous scan: an unknown process
/// counts from its own counter, so its delta is zero.
pub open spec fn spec_proc_dt(p: (u32, String, u64), prev: Map<u64, u64>) -> u64 {
    let base: u64 = if prev.contains_key(p.0 as u64) {
        prev[p.0 as u64]
    } else {
        p.2
    };
    p.2.saturating_sub(base)
}

/// Watches which background process consumed the most CPU time between
/// scans.
pub struct ProcWatch {
    pub last_total: u64,
    pub last_ticks: ActuatorCache,
}

fn char_is_rparen(s: &str, i: usize) -> (r: bool)
    requires
        i < s@.len(),
    ensures
        r == (s@[i as int] == ')'),
{
    s.get_char(i) == ')'
}

impl ProcWatch {
    pub open spec fn wf(self) -> bool {
        self.last_ticks.wf()
    }

    /// Jiffy counters retained from the previous scan.
    pub open spec fn ticks(self) -> Map<u64, u64> {
        self.last_ticks@
    }

    pub fn new() -> (w: ProcWatch)
        ensures
            w.wf(),
            w.last_total == 0,
            w.ticks() == Map::<u64, u64>::empty(),
    {
        ProcWatch { last_total: 0, last_ticks: ActuatorCache::new() }
    }

    /// One scan over the parsed process entries `(pid, command, jiffies)`.
    /// The first scan only records the total; later scans report the entry
    /// with the largest jiffy delta (the earliest of equals) as a
    /// percentage of the total delta, clamped to 100, or nothing when no
    /// entry advanced.
    pub fn scan_top(&mut self, total: u64, procs: &Vec<(u32, String, u64)>) -> (r: Option<
        (u32, String, u8),
    >)
        requires
            old(self).wf(),
        ensures
            final(self).wf(),
            final(self).last_total == total,
            old(self).last_total == 0 ==> r is None && final(self).ticks() == old(self).ticks(),
            old(self).last_total != 0 && total.saturating_sub(old(self).last_total) == 0 ==> r
                is None && final(self).ticks() == old(self).ticks(),
            old(self).last_total != 0 && total.saturating_sub(old(self).last_total) != 0 ==> {
                &&& final(self).ticks() == spec_ticks_map(procs@)
                &&& (r is None <==> forall|i: int|
                    0 <= i < procs@.len() ==> spec_proc_dt(#[trigger] procs@[i], old(self).ticks())
                        == 0)
                &&& match r {
                    Some(t) => exists|i: int|
                        {
                            &&& 0 <= i < procs@.len()
                            &&& (#[trigger] procs@[i]).0 == t.0
                            &&& procs@[i].1@ == t.1@
                            &&& spec_proc_dt(procs@[i], old(self).ticks()) > 0
                            &&& (forall|j: int|
                                0 <= j < i ==> spec_proc_dt(
                                    #[trigger] procs@[j],
                                    old(self).ticks(),
                                ) < spec_proc_dt(procs@[i], old(self).ticks()))
                            &&& (forall|j: int|
                                0 <= j < procs@.len() ==> spec_proc_dt(
                                    #[trigger] procs@[j],
                                    old(self).ticks(),
                                ) <= spec_proc_dt(procs@[i], old(self).ticks()))
                            &&& t.2 as int == {
                                let dt = spec_proc_dt(procs@[i], old(self).ticks());
                                let dtotal = total.saturating_sub(old(self).last_total);
                                let pct = crate::domain::sat_mul_u64(dt, 100) as int
                                    / dtotal as int;
                                if pct >= 100 {
                                    100int
                                } else {
                                    pct
                                }
                            }
                        },
                    None => true,
                }
            },
    {
        if self.last_total == 0 {
            self.last_total = total;
            return None;
        }
        let dtotal = total.saturating_sub(self.last_total);
        self.last_total = total;
        if dtotal == 0 {
            return None;
        }

        let ghost prev = self.last_ticks@;
        let n = procs.len();
        let mut new_map = ActuatorCache::new();
        let mut best: Option<(usize, u64)> = None;
        let mut i: usize = 0;
        while i < n
            invariant
                i <= n == procs@.len(),
                new_map.wf(),
                new_map@ == spec_ticks_map(procs@.subrange(0, i as int)),
                self.last_ticks.wf(),
                self.last_ticks@ == prev,
                match best {
                    None => forall|j: int|
                        0 <= j < i ==> spec_proc_dt(#[trigger] procs@[j], prev) == 0,
                    Some((bi, bdt)) => {
                        &&& 0 <= bi < i
                        &&& bdt == spec_proc_dt(procs@[bi as int], prev)
                        &&& bdt > 0
                        &&& (forall|j: int|
                            0 <= j < bi ==> spec_proc_dt(#[trigger] procs@[j], prev) < bdt)
                        &&& (forall|j: int|
                            0 <= j < i ==> spec_proc_dt(#[trigger] procs@[j], prev) <= bdt)
                    },
                },
            decreases n - i,
        {
            proof {
                assert(procs@.subrange(0, i + 1).drop_last() =~= procs@.subrange(0, i as int));
                assert(procs@.subrange(0, i + 1).last() == procs@[i as int]);
            }
            let (pid, _, ticks) = &procs[i];
            let base = match self.last_ticks.get(*pid as u64) {
                Some(v) => v,
                None => *ticks,
            };
            let dt = ticks.saturating_sub(base);
            new_map.set(*pid as u64, *ticks);
            if dt > 0 {
                let replace = match best {
                    None => true,
                    Some((_, bdt)) => dt > bdt,
                };
                if replace {
                    best = Some((i, dt));
                }
            }
            i = i + 1;
        }
        proof {
            assert(procs@.subrange(0, n as int) =~= procs@);
        }
        self.last_ticks = new_map;

        match best {
            None => None,
            Some((bi, dt)) => {
                let scaled = match dt.checked_mul(100) {
                    Some(v) => v,
                    None => u64::MAX,
                };
                let pct_raw = scaled / dtotal;
                let pct: u8 = if pct_raw >= 100 {
                    100
                } else {
                    pct_raw as u8
                };
                let (pid, comm, _) = &procs[bi];
                Some((*pid, String::from_str(comm.as_str()), pct))
            },
        }
    }
}

/// Saturating sum of the parseable numeric tokens from position `j` on,
/// starting from `acc`.
pub open spec fn spec_jiffies_sum(toks: Seq<Seq<char>>, j: int, acc: u64) -> u64
    decreases toks.len() - j,
{
    if j < 0 || j >= toks.len() {
        acc
    } else {
        match spec_parse_u64_chars(toks[j]) {
            Some(v) => spec_jiffies_sum(toks, j + 1, acc.saturating_add(v)),
            None => spec_jiffies_sum(toks, j + 1, acc),
        }
    }
}

/// A statistics line for the aggregate processor: `cpu` followed by a
/// space.
pub open spec fn is_aggregate_cpu_line(line: Seq<char>) -> bool {
    line.len() >= 4 && line[0] == 'c' && line[1] == 'p' && line[2] == 'u' && line[3] == ' '
}

/// The total the first aggregate line of the statistics text denotes: the
/// saturating sum of its numeric fields.
pub open spec fn spec_total_jiffies_from(lines: Seq<Seq<char>>, k: int) -> Option<u64>
    decreases lines.len() - k,
{
    if k < 0 || k >= lines.len() {
        None
    } else if is_aggregate_cpu_line(lines[k]) {
        Some(spec_jiffies_sum(spec_tokens_chars(lines[k]), 1, 0))
    } else {
        spec_total_jiffies_from(lines, k + 1)
    }
}

pub open spec fn spec_total_cpu_jiffies(s: Seq<char>) -> Option<u64> {
    spec_total_jiffies_from(spec_lines_chars(s), 0)
}

/// Total jiffies of the aggregate processor line of the kernel statistics
/// text; `None` when the text has no such line.
pub fn total_cpu_jiffies(content: &str) -> (r: Option<u64>)
    ensures
        r == spec_total_cpu_jiffies(content@),
{
    let ranges = char_line_ranges(content);
    let ghost glines = spec_lines_chars(content@);
    let m = ranges.len();
    let mut k: usize = 0;
    while k < m
        invariant
            k <= m == ranges@.len(),
            ranges@.len() == glines.len(),
            glines == spec_lines_chars(content@),
            forall|x: int|
                0 <= x < ranges@.len() ==> (#[trigger] ranges@[x]).0 <= ranges@[x].1
                    <= content@.len() && content@.subrange(ranges@[x].0 as int, ranges@[x].1 as int)
                    == glines[x],
            spec_total_jiffies_from(glines, 0) == spec_total_jiffies_from(glines, k as int),
        decreases m - k,
    {
        let (a, b) = ranges[k];
        let ghost line = glines[k as int];
        let is_cpu = b - a >= 4 && content.get_char(a) == 'c' && content.get_char(a + 1) == 'p'
            && content.get_char(a + 2) == 'u' && content.get_char(a + 3) == ' ';
        if is_cpu {
            let sub = content.substring_char(a, b);
            let toks = char_token_ranges(sub);
            let ghost gtoks = spec_tokens_chars(line);
            let tn = toks.len();
            if tn == 0 {
                proof {
                    assert(spec_jiffies_sum(gtoks, 1, 0) == 0);
                }
                return Some(0);
            }
            let mut acc: u64 = 0;
            let mut j: usize = 1;
            while j < tn
                invariant
                    1 <= j <= tn == toks@.len(),
                    toks@.len() == gtoks.len(),
                    gtoks == spec_tokens_chars(line),
                    sub@ == line,
                    forall|x: int|
                        0 <= x < toks@.len() ==> (#[trigger] toks@[x]).0 <= toks@[x].1 <= sub@.len()
                            && sub@.subrange(toks@[x].0 as int, toks@[x].1 as int) == gtoks[x],
                    spec_jiffies_sum(gtoks, 1, 0) == spec_jiffies_sum(gtoks, j as int, acc),
                decreases tn - j,
            {
                let (ta, tb) = toks[j];
                match parse_u64_chars(sub, ta, tb) {
                    Some(v) => {
                        acc = acc.saturating_add(v);
                    },
                    None => {},
                }
                j = j + 1;
            }
            return Some(acc);
        }
        proof {
            assert(spec_total_jiffies_from(glines, k as int) == spec_total_jiffies_from(
                glines,
                k + 1,
            ));
        }
        k = k + 1;
    }
    proof {
        assert(spec_total_jiffies_from(glines, m as int) is None);
    }
    None
}

} // verus!

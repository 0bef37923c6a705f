//! CPU utilization sampling arithmetic and the per-core jiffies parser.
//!
//! The outer layer reads the kernel's per-core statistics file and hands its
//! content in as text; this module parses the per-core `(idle, total)`
//! jiffy counters and turns consecutive snapshots into utilization
//! percentages.  The first call always yields zeros; an unparseable
//! snapshot yields nothing and the caller treats it as "assume 0%".

use vstd::prelude::*;
use vstd::string::StringSliceAdditionalSpecFns;
use crate::text::{
    spec_lines, spec_tokens, spec_parse_u64, spec_parse_usize, split_lines, split_ws_tokens,
    parse_u64_token,
};

verus! {

/// One retained jiffies snapshot: per-core `(idle_all, total)` counters and
/// the monotonic time it was taken.
pub struct CpuStatSample {
    pub per_cpu: Vec<(u64, u64)>,
    pub t_ms: u64,
}

/// The parseable numeric prefix of the tokens from position `j` on.
pub open spec fn spec_vals_prefix(toks: Seq<Seq<u8>>, j: int) -> Seq<u64>
    decreases toks.len() - j,
{
    if j < 0 || j >= toks.len() {
        Seq::empty()
    } else {
        match spec_parse_u64(toks[j]) {
            Some(v) => seq![v] + spec_vals_prefix(toks, j + 1),
            None => Seq::empty(),
        }
    }
}

/// The `(idle_all, total)` pair a statistics line's numeric fields denote:
/// idle plus iowait, and the saturating sum of the first eight counters
/// (missing trailing counters count as zero).
pub open spec fn spec_stat_pair(vals: Seq<u64>) -> (u64, u64)
    recommends
        vals.len() >= 4,
{
    let user = vals[0];
    let nice = vals[1];
    let system = vals[2];
    let idle = vals[3];
    let iowait: u64 = if vals.len() > 4 {
        vals[4]
    } else {
        0
    };
    let irq: u64 = if vals.len() > 5 {
        vals[5]
    } else {
        0
    };
    let softirq: u64 = if vals.len() > 6 {
        vals[6]
    } else {
        0
    };
    let steal: u64 = if vals.len() > 7 {
        vals[7]
    } else {
        0
    };
    let idle_all = idle.saturating_add(iowait);
    let total = user.saturating_add(nice).saturating_add(system).saturating_add(
        idle,
    ).saturating_add(iowait).saturating_add(irq).saturating_add(softirq).saturating_add(steal);
    (idle_all, total)
}

/// `s` starts with the three bytes `cpu`.
pub open spec fn starts_with_cpu(s: Seq<u8>) -> bool {
    s.len() >= 3 && s[0] == 99 && s[1] == 112 && s[2] == 117
}

/// `s` starts with `cpu` followed by a space (the aggregate line).
pub open spec fn starts_with_cpu_space(s: Seq<u8>) -> bool {
    starts_with_cpu(s) && s.len() >= 4 && s[3] == 32
}

/// Slot `idx` of the accumulator set to `pair`, the accumulator first grown
/// with zero pairs as needed.
pub open spec fn spec_place(acc: Seq<(u64, u64)>, idx: int, pair: (u64, u64)) -> Seq<(u64, u64)> {
    let base = if acc.len() > idx {
        acc
    } else {
        acc + Seq::new((idx + 1 - acc.len()) as nat, |q: int| (0u64, 0u64))
    };
    base.update(idx, pair)
}

/// Effect of one line on the accumulator.  Lines not naming a single core
/// are skipped, as is a core line with fewer than four numeric fields; a
/// core line whose index does not parse (or cannot be indexed) aborts the
/// whole snapshot, mirroring a parser that gives up on malformed input.
pub open spec fn spec_stat_step(acc: Seq<(u64, u64)>, line: Seq<u8>) -> Option<Seq<(u64, u64)>> {
    if !starts_with_cpu(line) || starts_with_cpu_space(line) {
        Some(acc)
    } else {
        let toks = spec_tokens(line);
        if toks.len() == 0 {
            None
        } else {
            let label = toks[0];
            if label.len() < 3 {
                None
            } else {
                match spec_parse_usize(label.subrange(3, label.len() as int)) {
                    None => None,
                    Some(idx) => {
                        let vals = spec_vals_prefix(toks, 1);
                        if vals.len() < 4 {
                            Some(acc)
                        } else if idx == usize::MAX {
                            None
                        } else {
                            Some(spec_place(acc, idx as int, spec_stat_pair(vals)))
                        }
                    },
                }
            }
        }
    }
}

pub open spec fn spec_stat_fold(lines: Seq<Seq<u8>>, k: int, acc: Seq<(u64, u64)>) -> Option<
    Seq<(u64, u64)>,
>
    decreases lines.len() - k,
{
    if k < 0 || k >= lines.len() {
        Some(acc)
    } else {
        match spec_stat_step(acc, lines[k]) {
            None => None,
            Some(a2) => spec_stat_fold(lines, k + 1, a2),
        }
    }
}

/// Per-core `(idle_all, total)` pairs denoted by the whole statistics text,
/// `None` when nothing parses.
pub open spec fn spec_parse_proc_stat(s: Seq<u8>) -> Option<Seq<(u64, u64)>> {
    match spec_stat_fold(spec_lines(s), 0, Seq::empty()) {
        None => None,
        Some(v) => if v.len() == 0 {
            None
        } else {
            Some(v)
        },
    }
}

/// Parse per-core `(idle_all, total)` jiffy counters out of the kernel
/// statistics text.  Soft failure: `None` when no core line parses.
pub fn parse_proc_stat_percpu(content: &str) -> (r: Option<Vec<(u64, u64)>>)
    ensures
        r matches Some(v) ==> spec_parse_proc_stat(content.spec_bytes()) == Some(v@),
        r is None ==> spec_parse_proc_stat(content.spec_bytes()) is None,
{
    let bytes = content.as_bytes();
    let lines = split_lines(bytes);
    let ghost glines = spec_lines(content.spec_bytes());
    let mut out: Vec<(u64, u64)> = Vec::new();
    let mut k: usize = 0;
    let nlines = lines.len();
    while k < nlines
        invariant
            k <= nlines == lines@.len(),
            lines@.len() == glines.len(),
            forall|x: int| 0 <= x < glines.len() ==> #[trigger] lines@[x]@ == glines[x],
            glines == spec_lines(content.spec_bytes()),
            spec_stat_fold(glines, k as int, out@) == spec_stat_fold(glines, 0, Seq::empty()),
        decreases nlines - k,
    {
        let line = &lines[k];
        let ghost gline = glines[k as int];
        let nl = line.len();
        let is_cpu = nl >= 3 && line[0] == 99 && line[1] == 112 && line[2] == 117;
        let is_cpu_space = is_cpu && nl >= 4 && line[3] == 32;
        if !is_cpu || is_cpu_space {
            proof {
                assert(spec_stat_step(out@, gline) == Some(out@));
                assert(spec_stat_fold(glines, k as int, out@) == spec_stat_fold(
                    glines,
                    k + 1,
                    out@,
                ));
            }
            k = k + 1;
            continue ;
        }
        let toks = split_ws_tokens(line.as_slice());
        let ghost gtoks = spec_tokens(gline);
        if toks.len() == 0 {
            proof {
                assert(spec_stat_step(out@, gline) is None);
                assert(spec_stat_fold(glines, k as int, out@) is None);
            }
            return None;
        }
        let label = &toks[0];
        if label.len() < 3 {
            proof {
                assert(spec_stat_step(out@, gline) is None);
                assert(spec_stat_fold(glines, k as int, out@) is None);
            }
            return None;
        }
        let idx_opt = crate::text::parse_usize_range(label.as_slice(), 3, label.len());
        let idx = match idx_opt {
            Some(i0) => i0,
            None => {
                proof {
                    assert(spec_stat_step(out@, gline) is None);
                    assert(spec_stat_fold(glines, k as int, out@) is None);
                }
                return None;
            },
        };

        let ntoks = toks.len();
        let mut vals: Vec<u64> = Vec::new();
        let mut j: usize = 1;
        let mut stopped = false;
        while j < ntoks && !stopped
            invariant
                1 <= j <= ntoks == toks@.len(),
                gtoks.len() == toks@.len(),
                forall|x: int| 0 <= x < gtoks.len() ==> #[trigger] toks@[x]@ == gtoks[x],
                !stopped ==> spec_vals_prefix(gtoks, 1) == vals@ + spec_vals_prefix(
                    gtoks,
                    j as int,
                ),
                stopped ==> spec_vals_prefix(gtoks, 1) == vals@,
            decreases ntoks - j + (if stopped { 0int } else { 1int }),
        {
            match parse_u64_token(toks[j].as_slice()) {
                Some(v) => {
                    proof {
                        assert(spec_vals_prefix(gtoks, j as int) == seq![v] + spec_vals_prefix(
                            gtoks,
                            j + 1,
                        ));
                        assert((vals@ + (seq![v] + spec_vals_prefix(gtoks, j + 1))) =~= (
                        vals@.push(v) + spec_vals_prefix(gtoks, j + 1)));
                    }
                    vals.push(v);
                    j = j + 1;
                },
                None => {
                    proof {
                        assert(spec_vals_prefix(gtoks, j as int) =~= Seq::<u64>::empty());
                        assert((vals@ + Seq::<u64>::empty()) =~= vals@);
                    }
                    stopped = true;
                },
            }
        }
        proof {
            if !stopped {
                assert(spec_vals_prefix(gtoks, j as int) =~= Seq::<u64>::empty());
                assert((vals@ + Seq::<u64>::empty()) =~= vals@);
            }
            assert(vals@ == spec_vals_prefix(gtoks, 1));
        }

        if vals.len() < 4 {
            proof {
                assert(spec_stat_step(out@, gline) == Some(out@));
                assert(spec_stat_fold(glines, k as int, out@) == spec_stat_fold(
                    glines,
                    k + 1,
                    out@,
                ));
            }
            k = k + 1;
            continue ;
        }
        if idx == usize::MAX {
            proof {
                assert(spec_stat_step(out@, gline) is None);
                assert(spec_stat_fold(glines, k as int, out@) is None);
            }
            return None;
        }

        let user = vals[0];
        let nice = vals[1];
        let system = vals[2];
        let idle = vals[3];
        let iowait = if vals.len() > 4 {
            vals[4]
        } else {
            0
        };
        let irq = if vals.len() > 5 {
            vals[5]
        } else {
            0
        };
        let softirq = if vals.len() > 6 {
            vals[6]
        } else {
            0
        };
        let steal = if vals.len() > 7 {
            vals[7]
        } else {
            0
        };
        let idle_all = idle.saturating_add(iowait);
        let total = user.saturating_add(nice).saturating_add(system).saturating_add(
            idle,
        ).saturating_add(iowait).saturating_add(irq).saturating_add(softirq).saturating_add(steal);

        let ghost pre = out@;
        proof {
            assert(pre.subrange(0, pre.len() as int) =~= pre);
        }
        while out.len() <= idx
            invariant
                idx < usize::MAX,
                pre.len() <= out@.len(),
                pre.len() > idx ==> out@.len() == pre.len(),
                pre.len() <= idx ==> out@.len() <= idx + 1,
                out@.subrange(0, pre.len() as int) == pre,
                forall|q: int| pre.len() <= q < out@.len() ==> out@[q] == (0u64, 0u64),
            decreases idx + 1 - out@.len(),
        {
            out.push((0u64, 0u64));
            proof {
                assert(out@.subrange(0, pre.len() as int) =~= pre);
            }
        }
        out[idx] = (idle_all, total);
        proof {
            assert(spec_stat_pair(vals@) == (idle_all, total));
            if pre.len() > idx {
                assert(forall|q: int|
                    0 <= q < pre.len() && q != idx ==> out@[q] == #[trigger] pre[q]);
                assert(out@ =~= pre.update(idx as int, (idle_all, total)));
            } else {
                assert(out@ =~= (pre + Seq::new((idx + 1 - pre.len()) as nat, |q: int| (0u64, 0u64))).update(
                    idx as int,
                    (idle_all, total),
                ));
            }
            assert(out@ =~= spec_place(pre, idx as int, spec_stat_pair(spec_vals_prefix(gtoks, 1))));
            assert(spec_stat_step(pre, gline) == Some(out@));
            assert(spec_stat_fold(glines, k as int, pre) == spec_stat_fold(glines, k + 1, out@));
        }
        k = k + 1;
    }
    if out.len() == 0 {
        None
    } else {
        Some(out)
    }
}

/// Per-core utilization for one tick from the previous and current
/// snapshot pair: `100 x (total_delta - idle_delta) / total_delta`, clamped
/// to 0..100, and 0 when the total did not advance.
pub open spec fn spec_core_util(cur: (u64, u64), prev: (u64, u64)) -> u8 {
    let didle = cur.0.saturating_sub(prev.0);
    let dtotal = cur.1.saturating_sub(prev.1);
    if dtotal == 0 {
        0
    } else {
        let busy = dtotal.saturating_sub(didle);
        let pct = crate::domain::sat_mul_u64(busy, 100) as int / dtotal as int;
        if pct >= 100 {
            100
        } else {
            pct as u8
        }
    }
}

/// Turn the current parsed snapshot into per-core utilization percentages
/// against the retained previous snapshot (zeros on the first call, and for
/// cores absent from the previous snapshot the counters count from zero),
/// then retain the current snapshot.
pub fn cpu_utils_by_core(prev: &mut Option<CpuStatSample>, cur: Vec<(u64, u64)>, now_ms: u64) -> (r:
    Vec<u8>)
    ensures
        r@.len() == cur@.len(),
        *final(prev) matches Some(s) && s.per_cpu@ == cur@ && s.t_ms == now_ms,
        *old(prev) is None ==> forall|i: int| 0 <= i < r@.len() ==> r@[i] == 0,
        *old(prev) matches Some(p) ==> forall|i: int|
            0 <= i < cur@.len() ==> r@[i] == spec_core_util(
                cur@[i],
                if i < p.per_cpu@.len() {
                    p.per_cpu@[i]
                } else {
                    (0u64, 0u64)
                },
            ),
{
    let n = cur.len();
    let mut util: Vec<u8> = Vec::new();
    match prev {
        Some(p) => {
            let mut i: usize = 0;
            while i < n
                invariant
                    i <= n == cur@.len(),
                    util@.len() == i,
                    forall|x: int|
                        0 <= x < i ==> util@[x] == spec_core_util(
                            cur@[x],
                            if x < p.per_cpu@.len() {
                                p.per_cpu@[x]
                            } else {
                                (0u64, 0u64)
                            },
                        ),
                decreases n - i,
            {
                let (cidle, ctotal) = cur[i];
                let (pidle, ptotal) = if i < p.per_cpu.len() {
                    p.per_cpu[i]
                } else {
                    (0, 0)
                };
                let didle = cidle.saturating_sub(pidle);
                let dtotal = ctotal.saturating_sub(ptotal);
                let u: u8 = if dtotal == 0 {
                    0
                } else {
                    let busy = dtotal.saturating_sub(didle);
                    let scaled = match busy.checked_mul(100) {
                        Some(v) => v,
                        None => u64::MAX,
                    };
                    let pct = scaled / dtotal;
                    if pct >= 100 {
                        100
                    } else {
                        pct as u8
                    }
                };
                util.push(u);
                i = i + 1;
            }
        },
        None => {
            let mut i: usize = 0;
            while i < n
                invariant
                    i <= n,
                    util@.len() == i,
                    forall|x: int| 0 <= x < i ==> util@[x] == 0,
                decreases n - i,
            {
                util.push(0);
                i = i + 1;
            }
        },
    }
    *prev = Some(CpuStatSample { per_cpu: cur, t_ms: now_ms });
    util
}

/// Saturating sum of the utilization entries selected by `cpus` (absent
/// indices contribute nothing).
pub open spec fn spec_sel_sum(utils: Seq<u8>, cpus: Seq<usize>) -> int
    decreases cpus.len(),
{
    if cpus.len() == 0 {
        0
    } else {
        spec_sel_sum(utils, cpus.drop_last()) + (if (cpus.last() as int) < utils.len() {
            utils[cpus.last() as int] as int
        } else {
            0int
        })
    }
}

/// How many of the selected indices are present in the utilization list.
pub open spec fn spec_sel_cnt(utils: Seq<u8>, cpus: Seq<usize>) -> int
    decreases cpus.len(),
{
    if cpus.len() == 0 {
        0
    } else {
        spec_sel_cnt(utils, cpus.drop_last()) + (if (cpus.last() as int) < utils.len() {
            1int
        } else {
            0int
        })
    }
}

/// Average utilization over the cores of one cluster: the mean of the
/// readable entries, 0 when the cluster is empty or nothing is readable.
pub fn avg_util(utils: &Vec<u8>, cpus: &Vec<usize>) -> (r: u8)
    ensures
        r as int == if cpus@.len() == 0 || spec_sel_cnt(utils@, cpus@) == 0 {
            0
        } else {
            spec_sel_sum(utils@, cpus@) / spec_sel_cnt(utils@, cpus@)
        },
{
    if cpus.len() == 0 {
        return 0;
    }
    let m = cpus.len();
    let mut sum: u128 = 0;
    let mut cnt: u64 = 0;
    let mut i: usize = 0;
    while i < m
        invariant
            i <= m == cpus@.len(),
            sum == spec_sel_sum(utils@, cpus@.subrange(0, i as int)),
            cnt == spec_sel_cnt(utils@, cpus@.subrange(0, i as int)),
            sum <= 255 * cnt,
            cnt <= i,
        decreases m - i,
    {
        let c = cpus[i];
        proof {
            assert(cpus@.subrange(0, i + 1).drop_last() =~= cpus@.subrange(0, i as int));
            assert(cpus@.subrange(0, i + 1).last() == cpus@[i as int]);
        }
        if c < utils.len() {
            sum = sum + utils[c] as u128;
            cnt = cnt + 1;
        }
        i = i + 1;
    }
    proof {
        assert(cpus@.subrange(0, m as int) =~= cpus@);
    }
    if cnt == 0 {
        0
    } else {
        let avg = sum / cnt as u128;
        proof {
            assert(avg <= 255) by (nonlinear_arith)
                requires
                    avg == sum / (cnt as u128),
                    cnt >= 1,
                    sum <= 255 * cnt,
            ;
        }
        avg as u8
    }
}

} // verus!

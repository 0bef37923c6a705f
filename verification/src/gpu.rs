//! GPU utilization readers.
//!
//! The hardware offers a percentage node and a busy/total ratio node; the
//! percentage is preferred, but a reading of exactly 0 is cross-checked
//! against the ratio (a firmware quirk can report 0 while busy).  The outer
//! layer reads the files; this module parses their content.

use vstd::prelude::*;
use vstd::string::StringSliceAdditionalSpecFns;
use crate::text::{
    spec_tokens, spec_parse_u64, all_digits, digits_value, split_ws_tokens, parse_u64_token,
};
use crate::domain::sat_mul_u64;

verus! {

/// `s` with every trailing percent sign removed.
pub open spec fn strip_pct(s: Seq<u8>) -> Seq<u8>
    decreases s.len(),
{
    if s.len() > 0 && s.last() == 37 {
        strip_pct(s.drop_last())
    } else {
        s
    }
}

proof fn lemma_strip_pct_subrange(s: Seq<u8>, e: int)
    requires
        0 <= e <= s.len(),
        forall|k: int| e <= k < s.len() ==> s[k] == 37,
        e > 0 ==> s[e - 1] != 37,
    ensures
        strip_pct(s) == s.subrange(0, e),
    decreases s.len(),
{
    if e < s.len() {
        let t = s.drop_last();
        assert(forall|k: int| e <= k < t.len() ==> t[k] == s[k]);
        lemma_strip_pct_subrange(t, e);
        assert(t.subrange(0, e) =~= s.subrange(0, e));
    } else {
        assert(s.subrange(0, s.len() as int) =~= s);
    }
}

/// Value denoted by an unsigned decimal that must fit `u8`, as
/// `u8::from_str` reads it.
pub open spec fn spec_parse_u8(s: Seq<u8>) -> Option<u8> {
    let ds = if s.len() > 0 && s[0] == 43 {
        s.drop_first()
    } else {
        s
    };
    if ds.len() > 0 && all_digits(ds) && digits_value(ds) <= u8::MAX {
        Some(digits_value(ds) as u8)
    } else {
        None
    }
}

/// First whitespace token of `s` with trailing percent signs removed, as a
/// `u8`; `None` without a token or a parse.
pub open spec fn spec_u8_token(s: Seq<u8>) -> Option<u8> {
    let toks = spec_tokens(s);
    if toks.len() == 0 {
        None
    } else {
        spec_parse_u8(strip_pct(toks[0]))
    }
}

/// Read the first whitespace token, stripped of trailing percent signs, as
/// a small number.
pub fn parse_u8_token(s: &str) -> (r: Option<u8>)
    ensures
        r == spec_u8_token(s.spec_bytes()),
{
    let toks = split_ws_tokens(s.as_bytes());
    if toks.len() == 0 {
        return None;
    }
    let t = &toks[0];
    let n = t.len();
    let mut e: usize = n;
    while e > 0 && t[e - 1] == 37
        invariant
            e <= n == t@.len(),
            forall|k: int| e <= k < n ==> t@[k] == 37,
        decreases e,
    {
        e = e - 1;
    }
    proof {
        lemma_strip_pct_subrange(t@, e as int);
        let st = t@.subrange(0, e as int);
        let ds = if st.len() > 0 && st[0] == 43 {
            st.drop_first()
        } else {
            st
        };
        if ds.len() > 0 && all_digits(ds) {
            crate::text::lemma_digits_value_nonneg(ds);
        }
    }
    let v = if e > 0 && t[0] == 43 {
        proof {
            assert(t@.subrange(0, e as int).drop_first() =~= t@.subrange(1, e as int));
        }
        crate::text::parse_digits_u64(t.as_slice(), 1, e)
    } else {
        crate::text::parse_digits_u64(t.as_slice(), 0, e)
    };
    match v {
        Some(x) => if x <= u8::MAX as u64 {
            Some(x as u8)
        } else {
            None
        },
        None => None,
    }
}

/// Percentage-node content as a utilization percentage, clamped to 100.
pub open spec fn spec_gpu_busy_percent(s: Seq<u8>) -> Option<u8> {
    match spec_u8_token(s) {
        Some(v) => Some(if v <= 100 {
            v
        } else {
            100
        }),
        None => None,
    }
}

/// Parse the percentage node's content (a number, possibly with a percent
/// sign), clamped to 100.
pub fn read_gpu_util_from_busy_percentage(s: &str) -> (r: Option<u8>)
    ensures
        r == spec_gpu_busy_percent(s.spec_bytes()),
{
    match parse_u8_token(s) {
        Some(v) => Some(if v <= 100 {
            v
        } else {
            100
        }),
        None => None,
    }
}

/// Ratio-node content (busy and total cycle counters) as a percentage:
/// `busy * 100 / total` with a saturating product, clamped to 100; 0 when
/// the total is 0.
pub open spec fn spec_gpu_ratio(s: Seq<u8>) -> Option<u8> {
    let toks = spec_tokens(s);
    if toks.len() < 2 {
        None
    } else {
        match (spec_parse_u64(toks[0]), spec_parse_u64(toks[1])) {
            (Some(busy), Some(total)) => if total == 0 {
                Some(0)
            } else {
                let pct = sat_mul_u64(busy, 100) as int / total as int;
                Some(
                    if pct >= 100 {
                        100
                    } else {
                        pct as u8
                    },
                )
            },
            _ => None,
        }
    }
}

/// Parse the busy/total ratio node's content into a percentage.
pub fn read_gpu_util_from_gpubusy_ratio(s: &str) -> (r: Option<u8>)
    ensures
        r == spec_gpu_ratio(s.spec_bytes()),
{
    let toks = split_ws_tokens(s.as_bytes());
    if toks.len() < 2 {
        return None;
    }
    let busy = match parse_u64_token(toks[0].as_slice()) {
        Some(v) => v,
        None => {
            return None;
        },
    };
    let total = match parse_u64_token(toks[1].as_slice()) {
        Some(v) => v,
        None => {
            return None;
        },
    };
    if total == 0 {
        return Some(0);
    }
    let scaled = match busy.checked_mul(100) {
        Some(v) => v,
        None => u64::MAX,
    };
    let pct = scaled / total;
    if pct >= 100 {
        Some(100)
    } else {
        Some(pct as u8)
    }
}

pub open spec fn opt_bytes(o: Option<&str>) -> Option<Seq<u8>> {
    match o {
        Some(s) => Some(s.spec_bytes()),
        None => None,
    }
}

/// The utilization the combined reader yields from the two nodes' contents:
/// the percentage node when it parses and is nonzero; on a zero reading the
/// ratio node when it parses, else the zero; without a percentage node (or
/// parse) the ratio node, defaulting to 0.
pub open spec fn spec_gpu_util_any(busy_percent: Option<Seq<u8>>, gpubusy: Option<Seq<u8>>) -> u8 {
    let ratio: Option<u8> = match gpubusy {
        Some(g) => spec_gpu_ratio(g),
        None => None,
    };
    match busy_percent {
        Some(bp) => match spec_gpu_busy_percent(bp) {
            Some(v) => if v > 0 {
                v
            } else {
                match ratio {
                    Some(v2) => v2,
                    None => v,
                }
            },
            None => match ratio {
                Some(v2) => v2,
                None => 0,
            },
        },
        None => match ratio {
            Some(v2) => v2,
            None => 0,
        },
    }
}

/// Combined GPU utilization from the contents of the percentage node (if
/// present) and the ratio node (if readable).  Never fails: defaults to 0.
pub fn read_gpu_util_any(busy_percent: Option<&str>, gpubusy: Option<&str>) -> (r: u8)
    ensures
        r == spec_gpu_util_any(opt_bytes(busy_percent), opt_bytes(gpubusy)),
{
    let ratio = match gpubusy {
        Some(g) => read_gpu_util_from_gpubusy_ratio(g),
        None => None,
    };
    if let Some(p) = busy_percent {
        if let Some(v) = read_gpu_util_from_busy_percentage(p) {
            if v > 0 {
                return v;
            }
            return match ratio {
                Some(v2) => v2,
                None => v,
            };
        }
    }
    match ratio {
        Some(v2) => v2,
        None => 0,
    }
}

} // verus!

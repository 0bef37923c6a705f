//! Temperature aggregation: averaging the readable sensors of a group and
//! choosing the composite control temperature.
//!
//! The outer layer reads each sensor file and parses it (through
//! [`crate::text::read_i32`]); this module averages the readings and picks
//! the controlling side.  Temperatures are millidegrees Celsius.

use vstd::prelude::*;

verus! {

/// Sum of the present readings.
pub open spec fn spec_temp_sum(readings: Seq<Option<i32>>) -> int
    decreases readings.len(),
{
    if readings.len() == 0 {
        0
    } else {
        spec_temp_sum(readings.drop_last()) + (match readings.last() {
            Some(v) => v as int,
            None => 0,
        })
    }
}

/// Number of present readings.
pub open spec fn spec_temp_cnt(readings: Seq<Option<i32>>) -> int
    decreases readings.len(),
{
    if readings.len() == 0 {
        0
    } else {
        spec_temp_cnt(readings.drop_last()) + (match readings.last() {
            Some(v) => 1int,
            None => 0int,
        })
    }
}

/// Integer division truncating toward zero, as machine division does.
pub open spec fn trunc_div(a: int, b: int) -> int {
    if a >= 0 {
        a / b
    } else {
        -((-a) / b)
    }
}

/// Average the readable sensors of one group; "unknown" when none was
/// readable.  The mean truncates toward zero.
pub fn read_avg_temp_mc(readings: &Vec<Option<i32>>) -> (r: Option<i32>)
    ensures
        r == if spec_temp_cnt(readings@) == 0 {
            None::<i32>
        } else {
            Some(trunc_div(spec_temp_sum(readings@), spec_temp_cnt(readings@)) as i32)
        },
{
    let m = readings.len();
    let mut sum: i128 = 0;
    let mut cnt: u64 = 0;
    let mut i: usize = 0;
    while i < m
        invariant
            i <= m == readings@.len(),
            sum == spec_temp_sum(readings@.subrange(0, i as int)),
            cnt == spec_temp_cnt(readings@.subrange(0, i as int)),
            -2_147_483_648 * cnt <= sum <= 2_147_483_647 * cnt,
            cnt <= i,
        decreases m - i,
    {
        proof {
            assert(readings@.subrange(0, i + 1).drop_last() =~= readings@.subrange(0, i as int));
            assert(readings@.subrange(0, i + 1).last() == readings@[i as int]);
        }
        if let Some(v) = readings[i] {
            sum = sum + v as i128;
            cnt = cnt + 1;
        }
        i = i + 1;
    }
    proof {
        assert(readings@.subrange(0, m as int) =~= readings@);
    }
    if cnt == 0 {
        return None;
    }
    let avg: i128 = if sum >= 0 {
        let q = (sum as u128) / (cnt as u128);
        proof {
            assert(q <= 2_147_483_647) by (nonlinear_arith)
                requires
                    q == (sum as u128) / (cnt as u128),
                    cnt >= 1,
                    0 <= sum <= 2_147_483_647 * cnt,
            ;
        }
        q as i128
    } else {
        let neg = -sum;
        let q = (neg as u128) / (cnt as u128);
        proof {
            assert(q <= 2_147_483_648) by (nonlinear_arith)
                requires
                    q == (neg as u128) / (cnt as u128),
                    cnt >= 1,
                    0 <= neg <= 2_147_483_648 * cnt,
            ;
        }
        -(q as i128)
    };
    Some(avg as i32)
}

/// Composite control temperature: the hotter of the CPU and GPU averages,
/// falling back to whichever side is available.
pub fn read_soc_temp_mc(cpu_avg: Option<i32>, gpu_avg: Option<i32>) -> (r: Option<i32>)
    ensures
        r == match (cpu_avg, gpu_avg) {
            (Some(c), Some(g)) => Some(
                if c >= g {
                    c
                } else {
                    g
                },
            ),
            (Some(c), None) => Some(c),
            (None, Some(g)) => Some(g),
            (None, None) => None::<i32>,
        },
{
    match (cpu_avg, gpu_avg) {
        (Some(c), Some(g)) => Some(
            if c >= g {
                c
            } else {
                g
            },
        ),
        (Some(c), None) => Some(c),
        (None, Some(g)) => Some(g),
        (None, None) => None,
    }
}

} // verus!

//! Charging detection from power-supply readings.
//!
//! The outer layer scans the power-supply directory once at startup (that
//! shape is recorded in `ChargeProbe`) and on each check reads the `online`
//! nodes and the battery `status` node; this module decides whether the
//! device counts as charging.

use vstd::prelude::*;
use vstd::string::StringSliceAdditionalSpecFns;
use crate::text::spec_trim;

verus! {

/// ASCII letter folded to lower case; everything else unchanged.
pub open spec fn lower_byte(b: u8) -> u8 {
    if 65 <= b <= 90 {
        (b + 32) as u8
    } else {
        b
    }
}

/// Equal up to ASCII case.
pub open spec fn spec_eq_nocase(a: Seq<u8>, b: Seq<u8>) -> bool {
    a.len() == b.len() && forall|i: int| 0 <= i < a.len() ==> lower_byte(a[i]) == lower_byte(b[i])
}

pub open spec fn charging_word() -> Seq<u8> {
    seq![67u8, 104u8, 97u8, 114u8, 103u8, 105u8, 110u8, 103u8]
}

pub open spec fn full_word() -> Seq<u8> {
    seq![70u8, 117u8, 108u8, 108u8]
}

/// A battery status text that counts as charging: `Charging` or `Full`,
/// compared without case after trimming.
pub open spec fn spec_status_charging(s: Seq<u8>) -> bool {
    spec_eq_nocase(spec_trim(s), charging_word()) || spec_eq_nocase(spec_trim(s), full_word())
}

fn range_eq_nocase(bytes: &[u8], from: usize, to: usize, lit: &[u8]) -> (r: bool)
    requires
        from <= to <= bytes@.len(),
    ensures
        r == spec_eq_nocase(bytes@.subrange(from as int, to as int), lit@),
{
    let m = lit.len();
    if to - from != m {
        return false;
    }
    let mut i: usize = 0;
    while i < m
        invariant
            i <= m == lit@.len(),
            from + m <= to <= bytes@.len(),
            to - from == m,
            forall|k: int|
                0 <= k < i ==> lower_byte(bytes@.subrange(from as int, to as int)[k]) == lower_byte(
                    lit@[k],
                ),
        decreases m - i,
    {
        let a = bytes[from + i];
        let b = lit[i];
        let la = if 65 <= a && a <= 90 {
            a + 32
        } else {
            a
        };
        let lb = if 65 <= b && b <= 90 {
            b + 32
        } else {
            b
        };
        if la != lb {
            return false;
        }
        i = i + 1;
    }
    true
}

/// Shape of the power-supply probe found at startup: how many `online`
/// nodes exist and whether a battery `status` node was found.
#[derive(Debug)]
pub struct ChargeProbe {
    pub online_count: usize,
    pub has_battery_status: bool,
}

impl ChargeProbe {
    /// The device counts as charging when any supply's `online` reading is
    /// 1, or the battery status text says `Charging` or `Full` (case does
    /// not matter).  `online_values` holds one parsed reading per `online`
    /// node, unreadable nodes defaulting to 0.
    pub fn is_charging(&self, online_values: &Vec<u64>, battery_status: Option<&str>) -> (r: bool)
        requires
            online_values@.len() == self.online_count,
        ensures
            r == ((exists|i: int| 0 <= i < online_values@.len() && online_values@[i] == 1) || (
            match battery_status {
                Some(s) => spec_status_charging(s.spec_bytes()),
                None => false,
            })),
    {
        let n = online_values.len();
        let mut i: usize = 0;
        while i < n
            invariant
                i <= n == online_values@.len(),
                forall|k: int| 0 <= k < i ==> online_values@[k] != 1,
            decreases n - i,
        {
            if online_values[i] == 1 {
                return true;
            }
            i = i + 1;
        }
        if let Some(s) = battery_status {
            let bytes = s.as_bytes();
            let (a, b) = crate::text::trim_bounds(bytes);
            let charging_lit: [u8; 8] = [67, 104, 97, 114, 103, 105, 110, 103];
            let full_lit: [u8; 4] = [70, 117, 108, 108];
            proof {
                assert(charging_lit@ =~= charging_word());
                assert(full_lit@ =~= full_word());
            }
            if range_eq_nocase(bytes, a, b, charging_lit.as_slice()) {
                return true;
            }
            if range_eq_nocase(bytes, a, b, full_lit.as_slice()) {
                return true;
            }
            return false;
        }
        false
    }
}

} // verus!

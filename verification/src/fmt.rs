//! Verified decimal and hexadecimal rendering, and the human-readable
//! frequency and temperature strings used in the daemon's log lines.
//!
//! Fractions round half away from zero.

use vstd::prelude::*;
use vstd::string::StringExecFns;

verus! {

/// Decimal digit character for one digit value.
pub open spec fn digit_char(d: int) -> char {
    if d == 0 {
        '0'
    } else if d == 1 {
        '1'
    } else if d == 2 {
        '2'
    } else if d == 3 {
        '3'
    } else if d == 4 {
        '4'
    } else if d == 5 {
        '5'
    } else if d == 6 {
        '6'
    } else if d == 7 {
        '7'
    } else if d == 8 {
        '8'
    } else {
        '9'
    }
}

/// Decimal digits of a non-negative number, most significant first.
pub open spec fn spec_decimal(n: int) -> Seq<char>
    decreases n,
{
    if n < 10 {
        seq![digit_char(n)]
    } else {
        spec_decimal(n / 10) + seq![digit_char(n % 10)]
    }
}

fn digit_str(d: u64) -> (r: &'static str)
    requires
        d <= 9,
    ensures
        r@ == seq![digit_char(d as int)],
{
    let r = match d {
        0 => "0",
        1 => "1",
        2 => "2",
        3 => "3",
        4 => "4",
        5 => "5",
        6 => "6",
        7 => "7",
        8 => "8",
        _ => "9",
    };
    proof {
        reveal_strlit("0");
        reveal_strlit("1");
        reveal_strlit("2");
        reveal_strlit("3");
        reveal_strlit("4");
        reveal_strlit("5");
        reveal_strlit("6");
        reveal_strlit("7");
        reveal_strlit("8");
        reveal_strlit("9");
        assert(r@ =~= seq![digit_char(d as int)]);
    }
    r
}

/// Append the decimal digits of `n`.
pub fn push_decimal(out: &mut String, n: u64)
    ensures
        final(out)@ == old(out)@ + spec_decimal(n as int),
    decreases n,
{
    if n >= 10 {
        push_decimal(out, n / 10);
        out.append(digit_str(n % 10));
        proof {
            assert(old(out)@ + spec_decimal(n as int) =~= (old(out)@ + spec_decimal(n as int / 10))
                + seq![digit_char(n as int % 10)]);
        }
    } else {
        out.append(digit_str(n));
    }
}

/// The decimal digits of `n` as a string.
pub fn u64_to_string(n: u64) -> (r: String)
    ensures
        r@ == spec_decimal(n as int),
{
    let mut out = String::new();
    push_decimal(&mut out, n);
    proof {
        assert(Seq::<char>::empty() + spec_decimal(n as int) =~= spec_decimal(n as int));
    }
    out
}

/// Two decimal digits, zero padded.
pub open spec fn spec_two_digits(n: int) -> Seq<char> {
    seq![digit_char(n / 10), digit_char(n % 10)]
}

fn push_two_digits(out: &mut String, n: u64)
    requires
        n <= 99,
    ensures
        final(out)@ == old(out)@ + spec_two_digits(n as int),
{
    out.append(digit_str(n / 10));
    out.append(digit_str(n % 10));
    proof {
        assert(old(out)@ + spec_two_digits(n as int) =~= (old(out)@ + seq![
            digit_char(n as int / 10),
        ]) + seq![digit_char(n as int % 10)]);
    }
}

/// `n` scaled down by `div` and rounded half away from zero.
pub open spec fn spec_rounded(n: int, div: int) -> int {
    n / div + (if n % div >= div / 2 {
        1int
    } else {
        0int
    })
}

/// The gigahertz form: value over `div` with two decimals, then `GHz`.
pub open spec fn spec_ghz_form(n: int, div: int) -> Seq<char> {
    let r = spec_rounded(n, div / 100);
    spec_decimal(r / 100) + seq!['.'] + spec_two_digits(r % 100) + "GHz"@
}

/// The megahertz form: value over `div` with no decimals, then `MHz`.
pub open spec fn spec_mhz_form(n: int, div: int) -> Seq<char> {
    spec_decimal(spec_rounded(n, div)) + "MHz"@
}

/// A kilohertz frequency for humans: `GHz` with two decimals from one
/// million kHz up, else whole `MHz`.
pub open spec fn spec_fmt_khz(khz: int) -> Seq<char> {
    if khz >= 1_000_000 {
        spec_ghz_form(khz, 1_000_000)
    } else {
        spec_mhz_form(khz, 1_000)
    }
}

/// A hertz frequency for humans: `GHz` with two decimals from one billion
/// Hz up, else whole `MHz`.
pub open spec fn spec_fmt_hz(hz: int) -> Seq<char> {
    if hz >= 1_000_000_000 {
        spec_ghz_form(hz, 1_000_000_000)
    } else {
        spec_mhz_form(hz, 1_000_000)
    }
}

fn push_ghz_form(out: &mut String, n: u64, centi: u64)
    requires
        centi >= 2,
        centi % 2 == 0,
    ensures
        final(out)@ == old(out)@ + spec_ghz_form(n as int, 100 * centi as int),
{
    let q = n / centi;
    let rem = n % centi;
    proof {
        assert(n / centi + 1 <= u64::MAX) by (nonlinear_arith)
            requires
                centi >= 2,
                n <= u64::MAX,
        ;
    }
    let r = if rem >= centi / 2 {
        q + 1
    } else {
        q
    };
    proof {
        assert(r == spec_rounded(n as int, centi as int));
        assert((100 * centi as int) / 100 == centi as int) by (nonlinear_arith)
            requires
                centi >= 1,
        ;
    }
    push_decimal(out, r / 100);
    out.append(".");
    push_two_digits(out, r % 100);
    out.append("GHz");
    proof {
        reveal_strlit(".");
        assert((".")@ =~= seq!['.']);
        assert(old(out)@ + spec_ghz_form(n as int, 100 * centi as int) =~= (((old(out)@
            + spec_decimal(r as int / 100)) + (".")@) + spec_two_digits(r as int % 100)) + ("GHz")@);
    }
}

fn push_mhz_form(out: &mut String, n: u64, div: u64)
    requires
        div >= 2,
        div % 2 == 0,
    ensures
        final(out)@ == old(out)@ + spec_mhz_form(n as int, div as int),
{
    let q = n / div;
    let rem = n % div;
    proof {
        assert(n / div + 1 <= u64::MAX) by (nonlinear_arith)
            requires
                div >= 2,
                n <= u64::MAX,
        ;
    }
    let r = if rem >= div / 2 {
        q + 1
    } else {
        q
    };
    proof {
        assert(r == spec_rounded(n as int, div as int));
    }
    push_decimal(out, r);
    out.append("MHz");
    proof {
        assert(old(out)@ + spec_mhz_form(n as int, div as int) =~= (old(out)@ + spec_decimal(
            r as int,
        )) + ("MHz")@);
    }
}

/// Render a kilohertz frequency: `2.27GHz`, `940MHz`.
pub fn fmt_khz(khz: u64) -> (r: String)
    ensures
        r@ == spec_fmt_khz(khz as int),
{
    let mut out = String::new();
    if khz >= 1_000_000 {
        push_ghz_form(&mut out, khz, 10_000);
    } else {
        push_mhz_form(&mut out, khz, 1_000);
    }
    proof {
        assert(Seq::<char>::empty() + spec_fmt_khz(khz as int) =~= spec_fmt_khz(khz as int));
    }
    out
}

/// Render a hertz frequency: `0.92GHz`, `500MHz`.
pub fn fmt_hz(hz: u64) -> (r: String)
    ensures
        r@ == spec_fmt_hz(hz as int),
{
    let mut out = String::new();
    if hz >= 1_000_000_000 {
        push_ghz_form(&mut out, hz, 10_000_000);
    } else {
        push_mhz_form(&mut out, hz, 1_000_000);
    }
    proof {
        assert(Seq::<char>::empty() + spec_fmt_hz(hz as int) =~= spec_fmt_hz(hz as int));
    }
    out
}

/// A millidegree temperature with one decimal and a trailing `C`, the
/// fraction rounded half away from zero; negative values keep their sign.
pub open spec fn spec_fmt_c(mc: int) -> Seq<char> {
    let mag = if mc >= 0 {
        mc
    } else {
        -mc
    };
    let r = spec_rounded(mag, 100);
    let digits = spec_decimal(r / 10) + seq!['.', digit_char(r % 10)] + "C"@;
    if mc < 0 {
        seq!['-'] + digits
    } else {
        digits
    }
}

/// Render a millidegree temperature: `41.2C`, `-3.5C`.
pub fn fmt_c(mc: i32) -> (r: String)
    ensures
        r@ == spec_fmt_c(mc as int),
{
    let mut out = String::new();
    let mag: u64 = if mc >= 0 {
        mc as u64
    } else {
        (-(mc as i64)) as u64
    };
    if mc < 0 {
        out.append("-");
    }
    let q = mag / 100;
    let rem = mag % 100;
    proof {
        assert(mag / 100 + 1 <= u64::MAX) by (nonlinear_arith)
            requires
                mag <= u64::MAX,
        ;
    }
    let r = if rem >= 50 {
        q + 1
    } else {
        q
    };
    proof {
        assert(r == spec_rounded(mag as int, 100));
    }
    push_decimal(&mut out, r / 10);
    out.append(".");
    out.append(digit_str(r % 10));
    out.append("C");
    proof {
        reveal_strlit("-");
        reveal_strlit(".");
        assert(("-")@ =~= seq!['-']);
        let digits = spec_decimal(r as int / 10) + seq!['.', digit_char(r as int % 10)] + "C"@;
        if mc < 0 {
            assert(spec_fmt_c(mc as int) =~= seq!['-'] + digits);
            assert(out@ =~= spec_fmt_c(mc as int));
        } else {
            assert(out@ =~= spec_fmt_c(mc as int));
        }
    }
    out
}

/// Hexadecimal digit character for one digit value.
pub open spec fn hex_char(d: int) -> char {
    if d < 10 {
        digit_char(d)
    } else if d == 10 {
        'a'
    } else if d == 11 {
        'b'
    } else if d == 12 {
        'c'
    } else if d == 13 {
        'd'
    } else if d == 14 {
        'e'
    } else {
        'f'
    }
}

fn hex_digit_str(d: u64) -> (r: &'static str)
    requires
        d <= 15,
    ensures
        r@ == seq![hex_char(d as int)],
{
    if d <= 9 {
        digit_str(d)
    } else {
        let r = match d {
            10 => "a",
            11 => "b",
            12 => "c",
            13 => "d",
            14 => "e",
            _ => "f",
        };
        proof {
            reveal_strlit("a");
            reveal_strlit("b");
            reveal_strlit("c");
            reveal_strlit("d");
            reveal_strlit("e");
            reveal_strlit("f");
            assert(r@ =~= seq![hex_char(d as int)]);
        }
        r
    }
}

/// Two lowercase hex digits, zero padded (a byte as `%02x` prints it).
pub open spec fn spec_hex2(v: int) -> Seq<char> {
    seq![hex_char(v / 16), hex_char(v % 16)]
}

/// A byte as exactly two lowercase hex digits.
pub fn hex2(v: u8) -> (r: String)
    ensures
        r@ == spec_hex2(v as int),
{
    let mut out = String::new();
    out.append(hex_digit_str((v / 16) as u64));
    out.append(hex_digit_str((v % 16) as u64));
    proof {
        assert(out@ =~= spec_hex2(v as int));
    }
    out
}

/// Lowercase hex digits without padding, for values under 256 (as `%x`
/// prints them).
pub open spec fn spec_hex_short(v: int) -> Seq<char> {
    if v < 16 {
        seq![hex_char(v)]
    } else {
        seq![hex_char(v / 16), hex_char(v % 16)]
    }
}

/// A value under 256 as one or two lowercase hex digits.
pub fn hex_short(v: u16) -> (r: String)
    requires
        v < 256,
    ensures
        r@ == spec_hex_short(v as int),
{
    let mut out = String::new();
    if v < 16 {
        out.append(hex_digit_str(v as u64));
    } else {
        out.append(hex_digit_str((v / 16) as u64));
        out.append(hex_digit_str((v % 16) as u64));
    }
    proof {
        assert(out@ =~= spec_hex_short(v as int));
    }
    out
}

/// Path of one thermal zone's temperature node.
pub open spec fn spec_zone_temp_path(id: int) -> Seq<char> {
    "/sys/class/thermal/thermal_zone"@ + spec_decimal(id) + "/temp"@
}

/// Build the temperature-node path for a thermal zone id.
pub fn zone_temp_path(id: u32) -> (r: String)
    ensures
        r@ == spec_zone_temp_path(id as int),
{
    let mut out = String::from_str("/sys/class/thermal/thermal_zone");
    push_decimal(&mut out, id as u64);
    out.append("/temp");
    proof {
        assert(out@ =~= spec_zone_temp_path(id as int));
    }
    out
}

/// The zone paths selected by the `present` mask, in order.
pub open spec fn spec_build_paths(ids: Seq<u32>, present: Seq<bool>) -> Seq<Seq<char>>
    decreases ids.len(),
{
    if ids.len() == 0 || ids.len() != present.len() {
        Seq::empty()
    } else if present.last() {
        spec_build_paths(ids.drop_last(), present.drop_last()) + seq![
            spec_zone_temp_path(ids.last() as int),
        ]
    } else {
        spec_build_paths(ids.drop_last(), present.drop_last())
    }
}

/// Temperature-node paths for the zone ids whose node exists (the outer
/// layer probes existence and passes the mask).
pub fn build_paths(ids: &Vec<u32>, present: &Vec<bool>) -> (r: Vec<String>)
    requires
        ids@.len() == present@.len(),
    ensures
        r@.len() == spec_build_paths(ids@, present@).len(),
        forall|k: int|
            0 <= k < r@.len() ==> #[trigger] r@[k]@ == spec_build_paths(ids@, present@)[k],
{
    let n = ids.len();
    let mut out: Vec<String> = Vec::new();
    let ghost mut gout: Seq<Seq<char>> = Seq::empty();
    let mut i: usize = 0;
    while i < n
        invariant
            i <= n == ids@.len(),
            ids@.len() == present@.len(),
            gout.len() == out@.len(),
            forall|k: int| 0 <= k < gout.len() ==> #[trigger] out@[k]@ == gout[k],
            gout == spec_build_paths(ids@.subrange(0, i as int), present@.subrange(0, i as int)),
        decreases n - i,
    {
        proof {
            assert(ids@.subrange(0, i + 1).drop_last() =~= ids@.subrange(0, i as int));
            assert(present@.subrange(0, i + 1).drop_last() =~= present@.subrange(0, i as int));
            assert(ids@.subrange(0, i + 1).last() == ids@[i as int]);
            assert(present@.subrange(0, i + 1).last() == present@[i as int]);
        }
        if present[i] {
            let p = zone_temp_path(ids[i]);
            proof {
                gout = gout.push(p@);
                assert(gout =~= spec_build_paths(
                    ids@.subrange(0, i + 1),
                    present@.subrange(0, i + 1),
                ));
            }
            out.push(p);
        } else {
            proof {
                assert(gout =~= spec_build_paths(
                    ids@.subrange(0, i + 1),
                    present@.subrange(0, i + 1),
                ));
            }
        }
        i = i + 1;
    }
    proof {
        assert(ids@.subrange(0, n as int) =~= ids@);
        assert(present@.subrange(0, n as int) =~= present@);
    }
    out
}

} // verus!

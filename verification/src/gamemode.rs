//! Game detection helpers: the packaged game list and the parser that
//! extracts a package name from the output of the platform's
//! foreground-activity commands.  The outer layer runs the commands and
//! ships the list text in; everything here is pure text work.

use vstd::prelude::*;
use vstd::string::{StrSliceExecFns, StringExecFns};
use crate::text::{
    char_line_ranges, char_token_ranges, find_char_in_range, lemma_idx_of_char_props,
    spec_idx_of_char, spec_lines_chars, spec_tokens_chars, spec_trim_chars, str_eq_chars,
    trim_char_bounds,
};

verus! {

/// Separator between entries of the game list.
pub open spec fn is_list_sep(c: char) -> bool {
    c == '|' || c == '\n' || c == '\r' || c == ' ' || c == '\t'
}

fn is_list_sep_exec(c: char) -> (r: bool)
    ensures
        r == is_list_sep(c),
{
    c == '|' || c == '\n' || c == '\r' || c == ' ' || c == '\t'
}

/// Entries of the game-list text from position `i` on, with `cur` the
/// entry under construction: separator-free runs, trimmed, empty ones
/// dropped.
pub open spec fn spec_game_list_acc(s: Seq<char>, i: int, cur: Seq<char>) -> Seq<Seq<char>>
    decreases s.len() - i,
{
    if i < 0 || i >= s.len() {
        let t = spec_trim_chars(cur);
        if t.len() > 0 {
            seq![t]
        } else {
            Seq::empty()
        }
    } else if is_list_sep(s[i]) {
        let t = spec_trim_chars(cur);
        (if t.len() > 0 {
            seq![t]
        } else {
            Seq::<Seq<char>>::empty()
        }) + spec_game_list_acc(s, i + 1, Seq::empty())
    } else {
        spec_game_list_acc(s, i + 1, cur.push(s[i]))
    }
}

/// The package names the game-list text holds, in order of appearance.
pub open spec fn spec_game_list(s: Seq<char>) -> Seq<Seq<char>> {
    spec_game_list_acc(s, 0, Seq::empty())
}

/// Split the packaged game-list text into package names.  Entries may
/// repeat; membership is what the game check uses.
pub fn load_game_list(text: &str) -> (r: Vec<String>)
    ensures
        r@.len() == spec_game_list(text@).len(),
        forall|k: int| 0 <= k < r@.len() ==> #[trigger] r@[k]@ == spec_game_list(text@)[k],
{
    let n = text.unicode_len();
    let mut out: Vec<String> = Vec::new();
    let ghost mut gout: Seq<Seq<char>> = Seq::empty();
    let mut cs: usize = 0;
    let mut have = false;
    let mut i: usize = 0;
    proof {
        assert((Seq::<Seq<char>>::empty() + spec_game_list_acc(text@, 0, Seq::empty()))
            =~= spec_game_list_acc(text@, 0, Seq::empty()));
    }
    while i < n
        invariant
            i <= n == text@.len(),
            gout.len() == out@.len(),
            forall|k: int| 0 <= k < gout.len() ==> #[trigger] out@[k]@ == gout[k],
            have ==> cs <= i,
            gout + spec_game_list_acc(
                text@,
                i as int,
                if have {
                    text@.subrange(cs as int, i as int)
                } else {
                    Seq::empty()
                },
            ) == spec_game_list(text@),
        decreases n - i,
    {
        let ghost cur = if have {
            text@.subrange(cs as int, i as int)
        } else {
            Seq::<char>::empty()
        };
        let c = text.get_char(i);
        if is_list_sep_exec(c) {
            if have {
                let (a, b) = trim_char_bounds(text, cs, i);
                proof {
                    assert(text@.subrange(a as int, b as int) == spec_trim_chars(cur));
                }
                if a < b {
                    let tok = text.substring_char(a, b).to_owned();
                    proof {
                        assert((gout + (seq![spec_trim_chars(cur)] + spec_game_list_acc(
                            text@,
                            i + 1,
                            Seq::empty(),
                        ))) =~= (gout.push(spec_trim_chars(cur)) + spec_game_list_acc(
                            text@,
                            i + 1,
                            Seq::empty(),
                        )));
                        gout = gout.push(spec_trim_chars(cur));
                    }
                    out.push(tok);
                } else {
                    proof {
                        assert(spec_trim_chars(cur).len() == 0);
                        assert((gout + spec_game_list_acc(text@, i + 1, Seq::empty())) =~= (gout
                            + ((if spec_trim_chars(cur).len() > 0 {
                            seq![spec_trim_chars(cur)]
                        } else {
                            Seq::<Seq<char>>::empty()
                        }) + spec_game_list_acc(text@, i + 1, Seq::empty()))));
                    }
                }
                have = false;
            } else {
                proof {
                    assert(spec_trim_chars(Seq::<char>::empty()).len() == 0);
                    assert((gout + spec_game_list_acc(text@, i + 1, Seq::empty())) =~= (gout + ((
                    if spec_trim_chars(Seq::<char>::empty()).len() > 0 {
                        seq![spec_trim_chars(Seq::<char>::empty())]
                    } else {
                        Seq::<Seq<char>>::empty()
                    }) + spec_game_list_acc(text@, i + 1, Seq::empty()))));
                }
            }
        } else {
            if !have {
                cs = i;
                have = true;
            }
            proof {
                assert(text@.subrange(cs as int, i + 1) =~= cur.push(text@[i as int]));
            }
        }
        i = i + 1;
    }
    let ghost cur = if have {
        text@.subrange(cs as int, n as int)
    } else {
        Seq::<char>::empty()
    };
    if have {
        let (a, b) = trim_char_bounds(text, cs, n);
        if a < b {
            let tok = text.substring_char(a, b).to_owned();
            proof {
                assert((gout + seq![spec_trim_chars(cur)]) =~= gout.push(spec_trim_chars(cur)));
                gout = gout.push(spec_trim_chars(cur));
            }
            out.push(tok);
        }
    }
    proof {
        assert(gout =~= spec_game_list(text@));
    }
    out
}

/// Whether the list holds this package name.
pub fn game_list_contains(list: &Vec<String>, pkg: &str) -> (r: bool)
    ensures
        r == exists|i: int| 0 <= i < list@.len() && list@[i]@ == pkg@,
{
    let n = list.len();
    let mut i: usize = 0;
    while i < n
        invariant
            i <= n == list@.len(),
            forall|k: int| 0 <= k < i ==> list@[k]@ != pkg@,
        decreases n - i,
    {
        if str_eq_chars(list[i].as_str(), pkg) {
            return true;
        }
        i = i + 1;
    }
    false
}

/// A character a package name may keep: ASCII letters and digits, dot,
/// underscore, dash.
pub open spec fn is_pkg_char(c: char) -> bool {
    let u = c as u32;
    (48 <= u <= 57) || (65 <= u <= 90) || (97 <= u <= 122) || u == 46 || u == 95 || u == 45
}

fn is_pkg_char_exec(c: char) -> (r: bool)
    ensures
        r == is_pkg_char(c),
{
    let u = c as u32;
    (48 <= u && u <= 57) || (65 <= u && u <= 90) || (97 <= u && u <= 122) || u == 46 || u == 95
        || u == 45
}

/// Leading and trailing characters a package name may not keep, removed.
pub open spec fn spec_sanitize_pkg(s: Seq<char>) -> Seq<char>
    decreases s.len(),
{
    if s.len() == 0 {
        s
    } else if !is_pkg_char(s[0]) {
        spec_sanitize_pkg(s.drop_first())
    } else if !is_pkg_char(s.last()) {
        spec_sanitize_pkg(s.drop_last())
    } else {
        s
    }
}

proof fn lemma_sanitize_all_bad(s: Seq<char>)
    requires
        forall|k: int| 0 <= k < s.len() ==> !is_pkg_char(s[k]),
    ensures
        spec_sanitize_pkg(s) == Seq::<char>::empty(),
    decreases s.len(),
{
    if s.len() > 0 {
        assert(forall|k: int|
            0 <= k < s.drop_first().len() ==> !is_pkg_char(#[trigger] s.drop_first()[k]));
        lemma_sanitize_all_bad(s.drop_first());
    } else {
        assert(s =~= Seq::<char>::empty());
    }
}

proof fn lemma_sanitize_subrange(s: Seq<char>, i: int, j: int)
    requires
        0 <= i < j <= s.len(),
        forall|k: int| 0 <= k < i ==> !is_pkg_char(s[k]),
        forall|k: int| j <= k < s.len() ==> !is_pkg_char(s[k]),
        is_pkg_char(s[i]),
        is_pkg_char(s[j - 1]),
    ensures
        spec_sanitize_pkg(s) == s.subrange(i, j),
    decreases s.len(),
{
    if i > 0 {
        let t = s.drop_first();
        assert(forall|k: int| 0 <= k < i - 1 ==> !is_pkg_char(#[trigger] t[k]));
        assert(forall|k: int| j - 1 <= k < t.len() ==> !is_pkg_char(#[trigger] t[k]));
        lemma_sanitize_subrange(t, i - 1, j - 1);
        assert(t.subrange(i - 1, j - 1) =~= s.subrange(i, j));
    } else if j < s.len() {
        let t = s.drop_last();
        assert(!is_pkg_char(s.last()));
        assert(forall|k: int| j <= k < t.len() ==> !is_pkg_char(#[trigger] t[k]));
        lemma_sanitize_subrange(t, i, j);
        assert(t.subrange(i, j) =~= s.subrange(i, j));
    } else {
        assert(s.subrange(0, s.len() as int) =~= s);
    }
}

/// Bounds of the sanitized middle of `s[from..to]`.
fn sanitize_bounds(s: &str, from: usize, to: usize) -> (r: (usize, usize))
    requires
        from <= to <= s@.len(),
    ensures
        from <= r.0 <= r.1 <= to,
        spec_sanitize_pkg(s@.subrange(from as int, to as int)) == s@.subrange(
            r.0 as int,
            r.1 as int,
        ),
{
    let ghost t = s@.subrange(from as int, to as int);
    let mut i: usize = from;
    while i < to && !is_pkg_char_exec(s.get_char(i))
        invariant
            from <= i <= to <= s@.len(),
            forall|k: int| from <= k < i ==> !is_pkg_char(s@[k]),
        decreases to - i,
    {
        i = i + 1;
    }
    if i == to {
        proof {
            assert(forall|k: int| 0 <= k < t.len() ==> !is_pkg_char(#[trigger] t[k]));
            lemma_sanitize_all_bad(t);
            assert(s@.subrange(to as int, to as int) =~= Seq::<char>::empty());
        }
        return (to, to);
    }
    let mut j: usize = to;
    while j > i + 1 && !is_pkg_char_exec(s.get_char(j - 1))
        invariant
            i < j <= to <= s@.len(),
            is_pkg_char(s@[i as int]),
            forall|k: int| j <= k < to ==> !is_pkg_char(s@[k]),
        decreases j,
    {
        j = j - 1;
    }
    proof {
        assert(forall|k: int| 0 <= k < i - from ==> !is_pkg_char(#[trigger] t[k]));
        assert(forall|k: int| j - from <= k < t.len() ==> !is_pkg_char(#[trigger] t[k]));
        assert(is_pkg_char(t[i - from]));
        assert(is_pkg_char(t[j - from - 1]));
        lemma_sanitize_subrange(t, i - from, j - from);
        assert(t.subrange(i - from, j - from) =~= s@.subrange(i as int, j as int));
    }
    (i, j)
}

/// Strip everything around the package-name characters.
pub fn sanitize_pkg(s: &str) -> (r: String)
    ensures
        r@ == spec_sanitize_pkg(s@),
{
    let n = s.unicode_len();
    let (a, b) = sanitize_bounds(s, 0, n);
    proof {
        assert(s@.subrange(0, n as int) =~= s@);
    }
    let sub = s.substring_char(a, b);
    sub.to_owned()
}

/// `p` starts with `com.`.
pub open spec fn starts_with_com(p: Seq<char>) -> bool {
    p.len() >= 4 && p[0] == 'c' && p[1] == 'o' && p[2] == 'm' && p[3] == '.'
}

/// The package a single token denotes: the part before its slash,
/// sanitized, when it holds a dot.
pub open spec fn spec_pkg_from_token(tok: Seq<char>) -> Option<Seq<char>> {
    let slash = spec_idx_of_char(tok, 0, '/');
    if slash < tok.len() {
        let pkg = tok.subrange(0, slash);
        if spec_idx_of_char(pkg, 0, '.') < pkg.len() {
            let p = spec_sanitize_pkg(pkg);
            if starts_with_com(p) || spec_idx_of_char(p, 0, '.') < p.len() {
                Some(p)
            } else {
                None
            }
        } else {
            None
        }
    } else {
        None
    }
}

pub open spec fn spec_first_pkg_token(toks: Seq<Seq<char>>, i: int) -> Option<Seq<char>>
    decreases toks.len() - i,
{
    if i < 0 || i >= toks.len() {
        None
    } else {
        match spec_pkg_from_token(toks[i]) {
            Some(p) => Some(p),
            None => spec_first_pkg_token(toks, i + 1),
        }
    }
}

/// First position at or after `i` where `com.` begins, or the length.
pub open spec fn spec_find_com(s: Seq<char>, i: int) -> int
    decreases s.len() - i,
{
    if i < 0 || i + 4 > s.len() {
        s.len() as int
    } else if s[i] == 'c' && s[i + 1] == 'o' && s[i + 2] == 'm' && s[i + 3] == '.' {
        i
    } else {
        spec_find_com(s, i + 1)
    }
}

proof fn lemma_find_com_props(s: Seq<char>, i: int)
    requires
        0 <= i <= s.len(),
    ensures
        i <= spec_find_com(s, i) <= s.len(),
        spec_find_com(s, i) + 4 <= s.len() ==> (s[spec_find_com(s, i)] == 'c' && s[spec_find_com(
            s,
            i,
        ) + 1] == 'o' && s[spec_find_com(s, i) + 2] == 'm' && s[spec_find_com(s, i) + 3] == '.'),
        spec_find_com(s, i) + 4 > s.len() ==> spec_find_com(s, i) == s.len(),
        forall|j: int|
            #![trigger s[j]]
            i <= j < spec_find_com(s, i) && j + 4 <= s.len() ==> !(s[j] == 'c' && s[j + 1] == 'o'
                && s[j + 2] == 'm' && s[j + 3] == '.'),
    decreases s.len() - i,
{
    if i + 4 <= s.len() && !(s[i] == 'c' && s[i + 1] == 'o' && s[i + 2] == 'm' && s[i + 3] == '.') {
        lemma_find_com_props(s, i + 1);
    }
}

/// The fallback package of a line: from the first `com.` up to the next
/// slash (or, failing that, the next space, or the end), sanitized.
pub open spec fn spec_fallback_pkg(s: Seq<char>) -> Option<Seq<char>> {
    let pos = spec_find_com(s, 0);
    if pos < s.len() {
        let e1 = spec_idx_of_char(s, pos, '/');
        let e: int = if e1 < s.len() {
            e1
        } else {
            let e2 = spec_idx_of_char(s, pos, ' ');
            if e2 < s.len() {
                e2
            } else {
                s.len() as int
            }
        };
        Some(spec_sanitize_pkg(s.subrange(pos, e)))
    } else {
        None
    }
}

/// The package name a line of activity-command output denotes: the first
/// token whose pre-slash part carries a dot, else the `com.`-prefixed run.
pub open spec fn spec_pkg_from_line(s: Seq<char>) -> Option<Seq<char>> {
    match spec_first_pkg_token(spec_tokens_chars(s), 0) {
        Some(p) => Some(p),
        None => spec_fallback_pkg(s),
    }
}

/// Extract a package name from one line of activity-command output.
pub fn parse_pkg_from_line(line: &str) -> (r: Option<String>)
    ensures
        match r {
            Some(p) => spec_pkg_from_line(line@) == Some(p@),
            None => spec_pkg_from_line(line@) is None,
        },
{
    let n = line.unicode_len();
    let ranges = char_token_ranges(line);
    let ghost gtoks = spec_tokens_chars(line@);
    let m = ranges.len();
    let mut k: usize = 0;
    while k < m
        invariant
            k <= m == ranges@.len(),
            ranges@.len() == gtoks.len(),
            gtoks == spec_tokens_chars(line@),
            n == line@.len(),
            forall|x: int|
                0 <= x < ranges@.len() ==> (#[trigger] ranges@[x]).0 <= ranges@[x].1 <= line@.len()
                    && line@.subrange(ranges@[x].0 as int, ranges@[x].1 as int) == gtoks[x],
            spec_first_pkg_token(gtoks, 0) == spec_first_pkg_token(gtoks, k as int),
        decreases m - k,
    {
        let (ta, tb) = ranges[k];
        let ghost tok = gtoks[k as int];
        let slash = find_char_in_range(line, ta, tb, '/');
        proof {
            lemma_idx_of_char_props(tok, 0, '/');
            let w = spec_idx_of_char(tok, 0, '/');
            assert(forall|j: int| 0 <= j < slash - ta ==> tok[j] != '/');
            if slash < tb {
                assert(tok[slash - ta] == '/');
            }
            assert(w == slash - ta);
        }
        if slash < tb {
            let dot = find_char_in_range(line, ta, slash, '.');
            let ghost pkg = tok.subrange(0, slash - ta);
            proof {
                assert(pkg =~= line@.subrange(ta as int, slash as int));
                lemma_idx_of_char_props(pkg, 0, '.');
                let w = spec_idx_of_char(pkg, 0, '.');
                assert(forall|j: int| 0 <= j < dot - ta ==> pkg[j] != '.');
                if dot < slash {
                    assert(pkg[dot - ta] == '.');
                }
                assert(w == dot - ta);
            }
            if dot < slash {
                let (sa, sb) = sanitize_bounds(line, ta, slash);
                let ghost p = spec_sanitize_pkg(pkg);
                proof {
                    assert(p == line@.subrange(sa as int, sb as int));
                }
                let has_com = sb - sa >= 4 && line.get_char(sa) == 'c' && line.get_char(sa + 1)
                    == 'o' && line.get_char(sa + 2) == 'm' && line.get_char(sa + 3) == '.';
                let d2 = find_char_in_range(line, sa, sb, '.');
                proof {
                    lemma_idx_of_char_props(p, 0, '.');
                    let w = spec_idx_of_char(p, 0, '.');
                    assert(forall|j: int| 0 <= j < d2 - sa ==> p[j] != '.');
                    if d2 < sb {
                        assert(p[d2 - sa] == '.');
                    }
                    assert(w == d2 - sa);
                    assert(has_com == starts_with_com(p));
                }
                if has_com || d2 < sb {
                    let out = line.substring_char(sa, sb).to_owned();
                    proof {
                        assert(spec_pkg_from_token(tok) == Some(p));
                        assert(spec_first_pkg_token(gtoks, k as int) == Some(p));
                    }
                    return Some(out);
                }
                proof {
                    assert(spec_pkg_from_token(tok) is None);
                }
            } else {
                proof {
                    assert(spec_pkg_from_token(tok) is None);
                }
            }
        } else {
            proof {
                assert(spec_pkg_from_token(tok) is None);
            }
        }
        k = k + 1;
    }
    proof {
        assert(spec_first_pkg_token(gtoks, m as int) is None);
    }

    // Fallback: a `com.`-prefixed run anywhere in the line.
    let mut pos: usize = 0;
    let mut found = false;
    while !found && n >= 4 && pos <= n - 4
        invariant
            pos <= n == line@.len(),
            !found ==> spec_find_com(line@, 0) == spec_find_com(line@, pos as int),
            found ==> pos + 4 <= n && spec_find_com(line@, 0) == pos,
        decreases n - pos + (if found {
            0int
        } else {
            1int
        }),
    {
        if line.get_char(pos) == 'c' && line.get_char(pos + 1) == 'o' && line.get_char(pos + 2)
            == 'm' && line.get_char(pos + 3) == '.' {
            found = true;
        } else {
            pos = pos + 1;
        }
    }
    if !found {
        proof {
            lemma_find_com_props(line@, pos as int);
            assert(spec_find_com(line@, 0) == line@.len());
        }
        return None;
    }
    let e1 = find_char_in_range(line, pos, n, '/');
    let e = if e1 < n {
        e1
    } else {
        let e2 = find_char_in_range(line, pos, n, ' ');
        if e2 < n {
            e2
        } else {
            n
        }
    };
    proof {
        lemma_idx_of_char_props(line@, pos as int, '/');
        assert(spec_idx_of_char(line@, pos as int, '/') == if e1 < n {
            e1 as int
        } else {
            n as int
        });
        lemma_idx_of_char_props(line@, pos as int, ' ');
    }
    let (ya, yb) = sanitize_bounds(line, pos, e);
    let out = line.substring_char(ya, yb).to_owned();
    proof {
        assert(spec_fallback_pkg(line@) == Some(spec_sanitize_pkg(
            line@.subrange(pos as int, e as int),
        )));
    }
    Some(out)
}

pub open spec fn spec_first_line_pkg(lines: Seq<Seq<char>>, i: int) -> Option<Seq<char>>
    decreases lines.len() - i,
{
    if i < 0 || i >= lines.len() {
        None
    } else {
        match spec_pkg_from_line(lines[i]) {
            Some(p) => Some(p),
            None => spec_first_line_pkg(lines, i + 1),
        }
    }
}

/// The package the whole command output denotes: the first line that
/// yields one.
pub open spec fn spec_foreground_pkg(s: Seq<char>) -> Option<Seq<char>> {
    spec_first_line_pkg(spec_lines_chars(s), 0)
}

/// Scan one activity-command output for a foreground package name.  The
/// outer layer runs the commands in preference order and stops at the
/// first output that yields a name.
pub fn get_foreground_package(output: &str) -> (r: Option<String>)
    ensures
        match r {
            Some(p) => spec_foreground_pkg(output@) == Some(p@),
            None => spec_foreground_pkg(output@) is None,
        },
{
    let ranges = char_line_ranges(output);
    let ghost glines = spec_lines_chars(output@);
    let m = ranges.len();
    let mut k: usize = 0;
    while k < m
        invariant
            k <= m == ranges@.len(),
            ranges@.len() == glines.len(),
            glines == spec_lines_chars(output@),
            forall|x: int|
                0 <= x < ranges@.len() ==> (#[trigger] ranges@[x]).0 <= ranges@[x].1
                    <= output@.len() && output@.subrange(ranges@[x].0 as int, ranges@[x].1 as int)
                    == glines[x],
            spec_first_line_pkg(glines, 0) == spec_first_line_pkg(glines, k as int),
        decreases m - k,
    {
        let (a, b) = ranges[k];
        let sub = output.substring_char(a, b);
        if let Some(p) = parse_pkg_from_line(sub) {
            proof {
                assert(spec_first_line_pkg(glines, k as int) == Some(p@));
            }
            return Some(p);
        }
        proof {
            assert(spec_first_line_pkg(glines, k as int) == spec_first_line_pkg(glines, k + 1));
        }
        k = k + 1;
    }
    proof {
        assert(spec_first_line_pkg(glines, m as int) is None);
    }
    None
}

} // verus!

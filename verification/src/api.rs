//! Status/config API decisions: token-based request authorization and the
//! profile upsert the save endpoint performs.  The HTTP plumbing and the
//! JSON work live outside the crate; these functions take the header
//! values and the decoded settings as plain values.

use vstd::prelude::*;
use vstd::string::{StrSliceExecFns, StringExecFns};
use crate::profiles::{find_profile_idx, spec_find_profile};
use crate::text::{range_eq_str, spec_trim_chars, trim_char_bounds};
use crate::user_config::{
    ExternalLedSetting, FanLedSetting, ProfileConfig, ProfileType, UserConfig,
};

verus! {

pub open spec fn spec_has_prefix(s: Seq<char>, p: Seq<char>) -> bool {
    p.len() <= s.len() && s.subrange(0, p.len() as int) == p
}

/// Whether one `Authorization` header value grants access: the trimmed
/// value equals the token, bare or behind a `Bearer` or `Token` scheme
/// (the rest trimmed again).
pub open spec fn spec_header_grants(v: Seq<char>, token: Seq<char>) -> bool {
    let t = spec_trim_chars(v);
    ||| t == token
    ||| (spec_has_prefix(t, "Bearer "@) && spec_trim_chars(t.skip(7)) == token)
    ||| (spec_has_prefix(t, "Token "@) && spec_trim_chars(t.skip(6)) == token)
}

/// Whether a request is authorized: the configured token is non-blank,
/// and either the `Authorization` header grants access or the api-key
/// header holds the token (trimmed).
pub open spec fn spec_authorized(
    auth: Option<Seq<char>>,
    api_key: Option<Seq<char>>,
    token: Seq<char>,
) -> bool {
    &&& spec_trim_chars(token).len() > 0
    &&& ((match auth {
        Some(v) => spec_header_grants(v, token),
        None => false,
    }) || (match api_key {
        Some(v) => spec_trim_chars(v) == token,
        None => false,
    }))
}

fn header_grants(v: &str, token: &str) -> (r: bool)
    ensures
        r == spec_header_grants(v@, token@),
{
    let n = v.unicode_len();
    let (a, b) = trim_char_bounds(v, 0, n);
    let ghost t = spec_trim_chars(v@);
    proof {
        assert(v@.subrange(0, n as int) =~= v@);
        reveal_strlit("Bearer ");
        reveal_strlit("Token ");
        assert(("Bearer ")@.len() == 7);
        assert(("Token ")@.len() == 6);
    }
    if range_eq_str(v, a, b, token) {
        return true;
    }
    if b - a >= 7 && range_eq_str(v, a, a + 7, "Bearer ") {
        proof {
            assert(t.subrange(0, 7) =~= v@.subrange(a as int, a + 7));
            assert(t.skip(7) =~= v@.subrange(a + 7, b as int));
        }
        let (c, d) = trim_char_bounds(v, a + 7, b);
        if range_eq_str(v, c, d, token) {
            return true;
        }
    }
    if b - a >= 6 && range_eq_str(v, a, a + 6, "Token ") {
        proof {
            assert(t.subrange(0, 6) =~= v@.subrange(a as int, a + 6));
            assert(t.skip(6) =~= v@.subrange(a + 6, b as int));
        }
        let (c, d) = trim_char_bounds(v, a + 6, b);
        if range_eq_str(v, c, d, token) {
            return true;
        }
    }
    proof {
        if spec_has_prefix(t, "Bearer "@) {
            assert(t.subrange(0, 7) =~= v@.subrange(a as int, a + 7));
            assert(t.skip(7) =~= v@.subrange(a + 7, b as int));
        }
        if spec_has_prefix(t, "Token "@) {
            assert(t.subrange(0, 6) =~= v@.subrange(a as int, a + 6));
            assert(t.skip(6) =~= v@.subrange(a + 6, b as int));
        }
    }
    false
}

/// Decide whether a request may use the API, from the two header values
/// and the configured token.  A blank token keeps the port dark.
pub fn is_authorized(auth: Option<&str>, api_key: Option<&str>, token: &str) -> (r: bool)
    ensures
        r == spec_authorized(
            match auth {
                Some(v) => Some(v@),
                None => None,
            },
            match api_key {
                Some(v) => Some(v@),
                None => None,
            },
            token@,
        ),
{
    let tn = token.unicode_len();
    let (ta, tb) = trim_char_bounds(token, 0, tn);
    proof {
        assert(token@.subrange(0, tn as int) =~= token@);
    }
    if ta == tb {
        return false;
    }
    if let Some(v) = auth {
        if header_grants(v, token) {
            return true;
        }
    }
    if let Some(v) = api_key {
        let n = v.unicode_len();
        let (a, b) = trim_char_bounds(v, 0, n);
        proof {
            assert(v@.subrange(0, n as int) =~= v@);
        }
        if range_eq_str(v, a, b, token) {
            return true;
        }
    }
    false
}

/// Priority the compiled-in default of a profile kind carries.
pub open spec fn spec_default_priority(kind: ProfileType) -> int {
    match kind {
        ProfileType::Gaming => 10,
        _ => 1,
    }
}

/// Bring the named profile up to date with the settings a save carries,
/// or append it when missing; an existing profile keeps its priority, a
/// new one takes the compiled-in default's.
pub fn upsert_named_profile(
    cfg: &mut UserConfig,
    name: &str,
    kind: ProfileType,
    enabled: bool,
    fan: Option<FanLedSetting>,
    ext: Option<ExternalLedSetting>,
)
    ensures
        final(cfg).api_token == old(cfg).api_token,
        final(cfg).charging == old(cfg).charging,
        final(cfg).notifications == old(cfg).notifications,
        final(cfg).fan_led == old(cfg).fan_led,
        match spec_find_profile(old(cfg).profiles@, kind, name@, 0) {
            Some(i) => {
                &&& final(cfg).profiles@.len() == old(cfg).profiles@.len()
                &&& (forall|j: int|
                    0 <= j < old(cfg).profiles@.len() && j != i ==> final(cfg).profiles@[j] == old(
                        cfg,
                    ).profiles@[j])
                &&& final(cfg).profiles@[i].name@ == name@
                &&& final(cfg).profiles@[i].profile_type == kind
                &&& final(cfg).profiles@[i].priority == old(cfg).profiles@[i].priority
                &&& final(cfg).profiles@[i].enabled == enabled
                &&& final(cfg).profiles@[i].fan_led == fan
                &&& final(cfg).profiles@[i].external_led == ext
            },
            None => {
                &&& final(cfg).profiles@.len() == old(cfg).profiles@.len() + 1
                &&& (forall|j: int|
                    0 <= j < old(cfg).profiles@.len() ==> final(cfg).profiles@[j] == old(
                        cfg,
                    ).profiles@[j])
                &&& final(cfg).profiles@.last().name@ == name@
                &&& final(cfg).profiles@.last().profile_type == kind
                &&& final(cfg).profiles@.last().priority == spec_default_priority(kind)
                &&& final(cfg).profiles@.last().enabled == enabled
                &&& final(cfg).profiles@.last().fan_led == fan
                &&& final(cfg).profiles@.last().external_led == ext
            },
        },
{
    match find_profile_idx(&cfg.profiles, kind, name) {
        Some(i) => {
            cfg.profiles[i].enabled = enabled;
            cfg.profiles[i].fan_led = fan;
            cfg.profiles[i].external_led = ext;
            cfg.profiles[i].name = String::from_str(name);
            cfg.profiles[i].profile_type = kind;
        },
        None => {
            let base = match kind {
                ProfileType::Normal => ProfileConfig::normal_default(),
                ProfileType::Gaming => ProfileConfig::gaming_default(),
                _ => ProfileConfig::normal_default(),
            };
            let p = ProfileConfig {
                name: String::from_str(name),
                profile_type: kind,
                priority: base.priority,
                enabled,
                fan_led: fan,
                external_led: ext,
            };
            cfg.profiles.push(p);
        },
    }
}

} // verus!

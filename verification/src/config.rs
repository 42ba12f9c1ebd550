//! Settings that come from the environment: where state lives, and how long
//! tabs may idle.

use crate::ip::number;
use crate::text::{chars_of, trim, trimmed};
use vstd::prelude::*;

verus! {

/// How often housekeeping runs, in seconds.
pub const HOUSEKEEPING_INTERVAL: u64 = 60;

/// How long an active tab may idle before its renderer is discarded, in
/// seconds.
pub const DISCARD_AFTER: u64 = 1800;

/// How long a hidden tab is kept, in seconds.
pub const HIDDEN_TTL: u64 = 2_592_000;

/// `part` below the directory `base`.
pub open spec fn path_join(base: Seq<char>, part: Seq<char>) -> Seq<char> {
    if base.len() > 0 && base.last() == '/' {
        base + part
    } else {
        base + seq!['/'] + part
    }
}

fn join_path(base: &str, part: &str) -> (r: String)
    ensures
        r@ == path_join(base@, part@),
{
    let v = chars_of(base);
    let mut out = base.to_owned();
    if !(v.len() > 0 && v[v.len() - 1] == '/') {
        out.push('/');
    }
    out.push_str(part);
    assert(out@ =~= path_join(base@, part@));
    out
}

/// The text of an optional string slice.
pub open spec fn opt_str(s: Option<&str>) -> Option<Seq<char>> {
    match s {
        Some(t) => Some(t@),
        None => None,
    }
}

/// The directory for state: under the XDG state directory, else under the home
/// directory, else under the current one. Empty values count as unset.
pub open spec fn state_path(xdg: Option<Seq<char>>, home: Option<Seq<char>>) -> Seq<char> {
    if xdg is Some && (xdg->0).len() > 0 {
        path_join(xdg->0, "mote"@)
    } else if home is Some && (home->0).len() > 0 {
        path_join(home->0, ".local/state/mote"@)
    } else {
        ".mote-state"@
    }
}

/// The directory for state, given the values of `XDG_STATE_HOME` and `HOME`.
pub fn state_dir(xdg: Option<&str>, home: Option<&str>) -> (r: String)
    ensures
        r@ == state_path(opt_str(xdg), opt_str(home)),
{
    if let Some(dir) = xdg {
        if !dir.is_empty() {
            return join_path(dir, "mote");
        }
    }
    if let Some(dir) = home {
        if !dir.is_empty() {
            return join_path(dir, ".local/state/mote");
        }
    }
    ".mote-state".to_owned()
}

/// The root of the engine's cache and profiles.
pub fn default_cache_path(xdg: Option<&str>, home: Option<&str>) -> (r: String)
    ensures
        r@ == path_join(state_path(opt_str(xdg), opt_str(home)), "cef-cache"@),
{
    let dir = state_dir(xdg, home);
    join_path(dir.as_str(), "cef-cache")
}

/// The file of the session store.
pub fn session_store_path(xdg: Option<&str>, home: Option<&str>) -> (r: String)
    ensures
        r@ == path_join(state_path(opt_str(xdg), opt_str(home)), "session.db"@),
{
    let dir = state_dir(xdg, home);
    join_path(dir.as_str(), "session.db")
}

/// The digits of a number: `t` without one leading plus sign.
pub open spec fn unsigned_digits(t: Seq<char>) -> Seq<char> {
    if t.len() > 0 && t[0] == '+' {
        t.drop_first()
    } else {
        t
    }
}

/// The number of 64 bits that `t` spells in decimal, with or without a plus
/// sign.
pub open spec fn spelled_u64(t: Seq<char>) -> Option<u64> {
    let digits = unsigned_digits(t);
    if digits.len() == 0 {
        None
    } else {
        match number(digits, 10) {
            Some(n) => if n <= u64::MAX {
                Some(n as u64)
            } else {
                None
            },
            None => None,
        }
    }
}

/// A number grows with its digits.
proof fn lemma_number_grows(t: Seq<char>, i: int)
    requires
        0 <= i <= t.len(),
    ensures
        match (number(t.subrange(0, i), 10), number(t, 10)) {
            (Some(a), Some(b)) => a <= b,
            (None, b) => b is None,
            _ => true,
        },
    decreases t.len(),
{
    if i < t.len() {
        assert(t.drop_last().subrange(0, i) =~= t.subrange(0, i));
        lemma_number_grows(t.drop_last(), i);
    } else {
        assert(t.subrange(0, i) =~= t);
    }
}

fn parse_u64(v: &[char]) -> (r: Option<u64>)
    ensures
        r == spelled_u64(v@),
{
    let start: usize = if v.len() > 0 && v[0] == '+' {
        1
    } else {
        0
    };
    let ghost digits = unsigned_digits(v@);
    assert(digits =~= v@.subrange(start as int, v@.len() as int));
    if start == v.len() {
        return None;
    }
    let mut n: u64 = 0;
    let mut i: usize = start;
    assert(digits.subrange(0, 0) =~= Seq::<char>::empty());
    while i < v.len()
        invariant
            start <= i <= v@.len(),
            digits == v@.subrange(start as int, v@.len() as int),
            digits.len() > 0,
            digits == unsigned_digits(v@),
            number(digits.subrange(0, i - start), 10) == Some(n as nat),
        decreases v@.len() - i,
    {
        let c = v[i];
        let ghost next = digits.subrange(0, i - start + 1);
        assert(next.drop_last() =~= digits.subrange(0, i - start));
        assert(next.last() == c);
        proof {
            lemma_number_grows(digits, i - start + 1);
        }
        if !('0' <= c && c <= '9') {
            assert(number(next, 10) is None);
            return None;
        }
        let d: u64 = (c as u32 - 48) as u64;
        match n.checked_mul(10) {
            Some(m) => match m.checked_add(d) {
                Some(s) => {
                    n = s;
                },
                None => {
                    return None;
                },
            },
            None => {
                return None;
            },
        }
        i = i + 1;
    }
    assert(digits.subrange(0, digits.len() as int) =~= digits);
    Some(n)
}

/// The seconds that a variable's value gives: a whole number, white space
/// aside.
pub open spec fn seconds(value: Option<Seq<char>>) -> Option<u64> {
    match value {
        Some(t) => spelled_u64(trimmed(t)),
        None => None,
    }
}

/// Reads a number of seconds from the value of an environment variable; `None`
/// where it is unset, empty, or no number of 64 bits.
pub fn env_secs(value: Option<&str>) -> (r: Option<u64>)
    ensures
        r == seconds(opt_str(value)),
{
    match value {
        Some(t) => {
            let v = trim(t);
            parse_u64(v.as_slice())
        },
        None => None,
    }
}

/// When the renderers of active tabs are discarded.
#[derive(Debug, Clone, Copy, PartialEq, Eq, Structural)]
pub struct DiscardConfig {
    /// The idle time, in seconds.
    pub discard_after: u64,
    pub keep_pinned_loaded: bool,
}

/// The discard settings, with another idle time where one is given.
pub fn discard_config_with(discard_after: Option<u64>) -> (r: DiscardConfig)
    ensures
        r.keep_pinned_loaded,
        r.discard_after == match discard_after {
            Some(secs) => secs,
            None => DISCARD_AFTER,
        },
{
    match discard_after {
        Some(secs) => DiscardConfig { discard_after: secs, keep_pinned_loaded: true },
        None => DiscardConfig { discard_after: DISCARD_AFTER, keep_pinned_loaded: true },
    }
}

/// How long hidden tabs are kept.
#[derive(Debug, Clone, Copy, PartialEq, Eq, Structural)]
pub struct HiddenTabConfig {
    /// The time to live, in seconds; `None` for ever.
    pub ttl: Option<u64>,
}

/// The hidden-tab settings, with another time to live where one is given.
pub fn hidden_tab_config_with(ttl: Option<u64>) -> (r: HiddenTabConfig)
    ensures
        r.ttl == Some(
            match ttl {
                Some(secs) => secs,
                None => HIDDEN_TTL,
            },
        ),
{
    match ttl {
        Some(secs) => HiddenTabConfig { ttl: Some(secs) },
        None => HiddenTabConfig { ttl: Some(HIDDEN_TTL) },
    }
}

/// How often housekeeping runs, in seconds, given the value of its variable.
pub fn housekeeping_interval(value: Option<&str>) -> (r: u64)
    ensures
        r == match seconds(opt_str(value)) {
            Some(secs) => secs,
            None => HOUSEKEEPING_INTERVAL,
        },
{
    match env_secs(value) {
        Some(secs) => secs,
        None => HOUSEKEEPING_INTERVAL,
    }
}

/// Whether housekeeping is due, `elapsed` seconds after it last ran.
pub fn housekeeping_due(elapsed: u64, interval: u64) -> (r: bool)
    ensures
        r == (elapsed >= interval),
{
    elapsed >= interval
}

/// A number in decimal is read back, with or without a plus sign.
pub proof fn decimal_seconds_read_back(n: u64)
    ensures
        spelled_u64(crate::text::decimal(n as nat)) == Some(n),
        spelled_u64(seq!['+'] + crate::text::decimal(n as nat)) == Some(n),
{
    let t = crate::text::decimal(n as nat);
    lemma_decimal_number(n as nat);
    assert((seq!['+'] + t).drop_first() =~= t);
}

/// The digits of a number spell it.
pub proof fn lemma_decimal_number(n: nat)
    ensures
        number(crate::text::decimal(n), 10) == Some(n),
        crate::text::decimal(n).len() > 0,
        crate::text::decimal(n)[0] != '+',
    decreases n,
{
    let t = crate::text::decimal(n);
    let d = n % 10;
    let c = crate::text::digit_char(d);
    assert(c as u32 == 48 + d);
    assert(crate::escape::hex_value(c) == Some(d));
    if n < 10 {
        assert(t.drop_last() =~= Seq::<char>::empty());
        assert(t.last() == c);
        assert(number(t.drop_last(), 10) == Some(0nat));
    } else {
        lemma_decimal_number(n / 10);
        assert(t.drop_last() =~= crate::text::decimal(n / 10));
        assert(t.last() == c);
        assert(t[0] == crate::text::decimal(n / 10)[0]);
    }
}

} // verus!

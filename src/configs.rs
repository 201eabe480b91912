//! Tunnel definitions as the caller sees them, and their names.
//!
//! A generated definition is named `<user>-<server>-<protocol>` and stored
//! as `<name>.ovpn`; the listing reads the server and protocol back from the
//! name.

use vstd::prelude::*;
use crate::clock::{representable, rfc3339_of, timestamp_text};
use crate::text::{chars_of, index_from, index_of_char, lemma_index_from_shift, matches_at, occurs_at, string_of};

verus! {

/// A stored tunnel definition.
pub struct VpnConfig {
    pub name: String,
    pub server: String,
    pub protocol: String,
    pub created_at: String,
}

/// `f` ends in `.ovpn`.
pub open spec fn ends_ovpn(f: Seq<char>) -> bool {
    f.len() >= 5 && occurs_at(f, ".ovpn"@, f.len() - 5)
}

/// `f` without every `.ovpn` at its end.
pub open spec fn strip_ovpn(f: Seq<char>) -> Seq<char>
    decreases f.len(),
{
    if ends_ovpn(f) {
        strip_ovpn(f.subrange(0, f.len() - 5))
    } else {
        f
    }
}

/// The name of a definition stored as `f`: where `f` ends in `.ovpn`, `f`
/// without that extension, repeated as often as it ends in it.
pub open spec fn ovpn_stem(f: Seq<char>) -> Option<Seq<char>> {
    if ends_ovpn(f) {
        Some(strip_ovpn(f))
    } else {
        None
    }
}

/// The `k`-th of the dash-separated fields of `s`, counting from zero.
pub open spec fn dash_field(s: Seq<char>, k: nat) -> Option<Seq<char>>
    decreases k,
{
    let e = index_from(s, '-', 0);
    if k == 0 {
        Some(s.subrange(0, e))
    } else if 0 <= e < s.len() {
        dash_field(s.subrange(e + 1, s.len() as int), (k - 1) as nat)
    } else {
        None
    }
}

pub open spec fn field_or(f: Option<Seq<char>>, default: Seq<char>) -> Seq<char> {
    match f {
        Some(v) => v,
        None => default,
    }
}

/// The name of a generated definition.
pub fn config_name(username: &str, server_code: &str, protocol: &str) -> (r: String)
    ensures
        r@ == username@ + "-"@ + server_code@ + "-"@ + protocol@,
{
    let mut r = username.to_string();
    r.append("-");
    r.append(server_code);
    r.append("-");
    r.append(protocol);
    r
}

/// The bounds of the `k`-th dash-separated field of `cs`.
fn dash_field_bounds(cs: &Vec<char>, k: usize) -> (r: Option<(usize, usize)>)
    ensures
        match r {
            Some((a, b)) => a <= b <= cs@.len() && dash_field(cs@, k as nat) == Some(
                cs@.subrange(a as int, b as int),
            ),
            None => dash_field(cs@, k as nat) is None,
        },
{
    let n = cs.len();
    let mut start: usize = 0;
    let mut step: usize = 0;
    assert(cs@.subrange(0, n as int) =~= cs@);
    while step < k
        invariant
            n == cs@.len(),
            start <= n,
            step <= k,
            dash_field(cs@, k as nat) == dash_field(
                cs@.subrange(start as int, n as int),
                (k - step) as nat,
            ),
        decreases k - step,
    {
        let e = index_of_char(cs, '-', start);
        proof {
            lemma_index_from_shift(cs@, '-', start as int, start as int);
        }
        if e == n {
            return None;
        }
        assert(cs@.subrange(start as int, n as int).subrange(e - start + 1, n - start)
            =~= cs@.subrange(e + 1, n as int));
        start = e + 1;
        step = step + 1;
    }
    let e = index_of_char(cs, '-', start);
    proof {
        lemma_index_from_shift(cs@, '-', start as int, start as int);
    }
    assert(cs@.subrange(start as int, n as int).subrange(0, e - start) =~= cs@.subrange(
        start as int,
        e as int,
    ));
    Some((start, e))
}

/// The `k`-th dash-separated field of `s`, or `default` where `s` has
/// fewer fields.
fn field_text(s: &str, k: usize, default: &str) -> (r: String)
    ensures
        r@ == field_or(dash_field(s@, k as nat), default@),
{
    let cs = chars_of(s);
    match dash_field_bounds(&cs, k) {
        Some((a, b)) => string_of(s, a, b),
        None => default.to_string(),
    }
}

/// The listing entry for a file named `file_name` in the definitions
/// directory: `None` unless it ends in `.ovpn`; else the definition named by
/// what is left without its `.ovpn` endings, with the server and protocol read from its second and third
/// dash-separated fields (`unknown` and `udp` where it has none).
pub fn config_from_file_name(file_name: &str, created_at: String) -> (r: Option<VpnConfig>)
    ensures
        match ovpn_stem(file_name@) {
            None => r is None,
            Some(stem) => match r {
                Some(c) => c.name@ == stem && c.server@ == field_or(dash_field(stem, 1), "unknown"@)
                    && c.protocol@ == field_or(dash_field(stem, 2), "udp"@) && c.created_at@
                    == created_at@,
                None => false,
            },
        },
{
    let cs = chars_of(file_name);
    let n = cs.len();
    let ext = chars_of(".ovpn");
    proof {
        reveal_strlit(".ovpn");
    }
    if n < 5 || !matches_at(&cs, &ext, n - 5) {
        return None;
    }
    let mut end: usize = n;
    assert(cs@.subrange(0, n as int) =~= cs@);
    while end >= 5 && matches_at(&cs, &ext, end - 5)
        invariant
            n == cs@.len(),
            end <= n,
            ext@ == ".ovpn"@,
            ext@.len() == 5,
            strip_ovpn(cs@) == strip_ovpn(cs@.subrange(0, end as int)),
        decreases end,
    {
        let ghost t = cs@.subrange(0, end as int);
        assert(t.subrange(end - 5, end as int) =~= cs@.subrange(end - 5, end as int));
        assert(t.subrange(0, end - 5) =~= cs@.subrange(0, end - 5));
        assert(ends_ovpn(t));
        end = end - 5;
    }
    proof {
        let t = cs@.subrange(0, end as int);
        if end >= 5 {
            assert(t.subrange(end - 5, end as int) =~= cs@.subrange(end - 5, end as int));
        }
    }
    let name = string_of(file_name, 0, end);
    let server = field_text(name.as_str(), 1, "unknown");
    let protocol = field_text(name.as_str(), 2, "udp");
    Some(VpnConfig { name, server, protocol, created_at })
}

/// The listing entry for a definition imported under `name`.
pub fn imported_config(name: String, created_at: String) -> (r: VpnConfig)
    ensures
        r.name@ == name@,
        r.server@ == "imported"@,
        r.protocol@ == "unknown"@,
        r.created_at@ == created_at@,
{
    VpnConfig { name, server: "imported".to_string(), protocol: "unknown".to_string(), created_at }
}

/// The listing entry for a definition generated for `username` on
/// `server_code` over `protocol`.
pub fn generated_config(username: &str, server_code: String, protocol: String, created_at: String) -> (r: VpnConfig)
    ensures
        r.name@ == username@ + "-"@ + server_code@ + "-"@ + protocol@,
        r.server@ == server_code@,
        r.protocol@ == protocol@,
        r.created_at@ == created_at@,
{
    let name = config_name(username, server_code.as_str(), protocol.as_str());
    VpnConfig { name, server: server_code, protocol, created_at }
}

/// `t` is the RFC 3339 text of the creation time `created`; empty where
/// that is unknown or cannot be represented.
pub open spec fn creation_text(t: Seq<char>, created: Option<(i64, u32)>) -> bool {
    match created {
        Some((secs, nanos)) => t == rfc3339_of(secs, nanos) || (t.len() == 0 && !representable(
            secs,
            nanos,
        )),
        None => t.len() == 0,
    }
}

/// The listing entry for a file named `file_name` created `created` (seconds
/// and nanoseconds after the Unix epoch) where that is known: as
/// `config_from_file_name`, with the creation time as RFC 3339 text, or
/// empty where it is unknown or cannot be represented.
pub fn listing_entry(file_name: &str, created: Option<(i64, u32)>) -> (r: Option<VpnConfig>)
    ensures
        match ovpn_stem(file_name@) {
            None => r is None,
            Some(stem) => match r {
                Some(c) => c.name@ == stem && c.server@ == field_or(dash_field(stem, 1), "unknown"@)
                    && c.protocol@ == field_or(dash_field(stem, 2), "udp"@) && creation_text(c.created_at@, created),
                None => false,
            },
        },
{
    let created_at = match created {
        Some((secs, nanos)) => timestamp_text(secs, nanos),
        None => String::new(),
    };
    config_from_file_name(file_name, created_at)
}

} // verus!

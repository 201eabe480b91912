//! Connection facts read from the tunnel process's diagnostic log.
//!
//! Each fact has a marker. The window of lines is scanned from the most
//! recent line back, and for each fact the most recent line from which it
//! can be read wins. A fact that no line gives keeps its default: an empty
//! string or zero.

use vstd::prelude::*;
use crate::text::{
    chars_of, contains, decimal_of, find, find_from, find_last, is_digit, last_index,
    parse_decimal, parse_unsigned, skip_spaces, skip_spaces_from, string_of, token_end, token_end_from, trim,
    trim_bounds, unsigned_of,
};

verus! {

/// Facts read from one window of the log.
pub struct TelemetrySnapshot {
    pub tunnel_ipv4: String,
    pub tunnel_ipv6: String,
    pub remote_ip: String,
    pub remote_port: u16,
    pub protocol: String,
    pub bytes_sent: u64,
    pub bytes_received: u64,
    /// When the window was read, in milliseconds since the Unix epoch.
    pub extracted_at: i64,
}

pub open spec fn read_marker() -> Seq<char> {
    "read bytes"@
}

pub open spec fn write_marker() -> Seq<char> {
    "write bytes"@
}

pub open spec fn ipv4_marker() -> Seq<char> {
    "ifconfig "@
}

pub open spec fn ipv6_marker() -> Seq<char> {
    "ifconfig-ipv6 "@
}

pub open spec fn peer_marker() -> Seq<char> {
    "Peer Connection Initiated with "@
}

/// A byte counter on a line that holds `marker`: the field after the first
/// comma, up to the next comma, without surrounding whitespace, read as a
/// `u64`.
pub open spec fn counter_in(l: Seq<char>, marker: Seq<char>) -> Option<u64> {
    if !contains(l, marker) {
        None
    } else {
        match find_from(l, seq![','], 0) {
            None => None,
            Some(c) => {
                let e = match find_from(l, seq![','], c + 1) {
                    Some(e) => e,
                    None => l.len() as int,
                };
                unsigned_of(trim(l.subrange(c + 1, e)))
            },
        }
    }
}

pub open spec fn is_ipv4_char(c: char) -> bool {
    is_digit(c) || c == '.'
}

pub open spec fn is_ipv6_char(c: char) -> bool {
    is_digit(c) || ('a' <= c && c <= 'f') || ('A' <= c && c <= 'F') || c == ':' || c == '.'
}

/// Digits and dots, with at least one dot.
pub open spec fn ipv4_shaped(t: Seq<char>) -> bool {
    &&& forall|i: int| 0 <= i < t.len() ==> is_ipv4_char(#[trigger] t[i])
    &&& last_index(t, '.') is Some
}

/// Hex digits, colons and dots, with at least one colon.
pub open spec fn ipv6_shaped(t: Seq<char>) -> bool {
    &&& forall|i: int| 0 <= i < t.len() ==> is_ipv6_char(#[trigger] t[i])
    &&& last_index(t, ':') is Some
}

/// The token that follows the first `marker` of the line.
pub open spec fn token_after(l: Seq<char>, marker: Seq<char>) -> Option<Seq<char>> {
    match find_from(l, marker, 0) {
        None => None,
        Some(k) => {
            let p = k + marker.len();
            Some(l.subrange(p, token_end_from(l, p)))
        },
    }
}

/// The tunnel's IPv4 address on a line that assigns one.
pub open spec fn ipv4_in(l: Seq<char>) -> Option<Seq<char>> {
    match token_after(l, ipv4_marker()) {
        Some(t) if ipv4_shaped(t) => Some(t),
        _ => None,
    }
}

/// The tunnel's IPv6 address (without its prefix length) on a line that
/// assigns one.
pub open spec fn ipv6_in(l: Seq<char>) -> Option<Seq<char>> {
    match token_after(l, ipv6_marker()) {
        Some(t) if ipv6_shaped(t) => Some(t),
        _ => None,
    }
}

/// The remote endpoint as read from one line.
pub struct Endpoint {
    pub ip: Seq<char>,
    pub port: u16,
    /// `udp`, `tcp`, or empty where the line names no transport.
    pub protocol: Seq<char>,
}

/// Where the endpoint token starts: after the marker, past an optional
/// bracketed address-family tag such as `[AF_INET]`.
pub open spec fn endpoint_start(l: Seq<char>, p: int) -> Option<int> {
    if 0 <= p < l.len() && l[p] == '[' {
        match find_from(l, seq![']'], p) {
            Some(q) => Some(q + 1),
            None => None,
        }
    } else {
        Some(p)
    }
}

/// The transport named by the word that follows index `e`, if it is one.
pub open spec fn protocol_after(l: Seq<char>, e: int) -> Seq<char> {
    let w = skip_spaces_from(l, e);
    let word = l.subrange(w, token_end_from(l, w));
    if word == "udp"@ || word == "tcp"@ {
        word
    } else {
        Seq::empty()
    }
}

/// The remote endpoint on a line that announces the peer connection:
/// `host:port`, split at the last colon, with a non-empty host and a port
/// that fits in 16 bits, optionally followed by the transport.
pub open spec fn endpoint_in(l: Seq<char>) -> Option<Endpoint> {
    match find_from(l, peer_marker(), 0) {
        None => None,
        Some(k) => match endpoint_start(l, k + peer_marker().len()) {
            None => None,
            Some(p) => {
                let e = token_end_from(l, p);
                let t = l.subrange(p, e);
                match last_index(t, ':') {
                    None => None,
                    Some(c) => match decimal_of(t.subrange(c + 1, t.len() as int)) {
                        Some(port) if c > 0 && port <= 65535 => Some(
                            Endpoint {
                                ip: t.subrange(0, c),
                                port: port as u16,
                                protocol: protocol_after(l, e),
                            },
                        ),
                        _ => None,
                    },
                }
            },
        },
    }
}

/// What `f` reads from the most recent line of `lines` (the last one) from
/// which it reads anything.
pub open spec fn latest<A>(lines: Seq<Seq<char>>, f: spec_fn(Seq<char>) -> Option<A>) -> Option<A>
    decreases lines.len(),
{
    if lines.len() == 0 {
        None
    } else {
        match latest(lines.drop_first(), f) {
            Some(v) => Some(v),
            None => f(lines[0]),
        }
    }
}

proof fn lemma_latest_push<A>(lines: Seq<Seq<char>>, x: Seq<char>, f: spec_fn(Seq<char>) -> Option<A>)
    ensures
        latest(lines.push(x), f) == match f(x) {
            Some(v) => Some(v),
            None => latest(lines, f),
        },
    decreases lines.len(),
{
    if lines.len() == 0 {
        assert(lines.push(x).drop_first() =~= lines);
    } else {
        assert(lines.push(x).drop_first() =~= lines.drop_first().push(x));
        lemma_latest_push(lines.drop_first(), x, f);
    }
}

pub open spec fn latest_sent(lines: Seq<Seq<char>>) -> Option<u64> {
    latest(lines, |l: Seq<char>| counter_in(l, write_marker()))
}

pub open spec fn latest_received(lines: Seq<Seq<char>>) -> Option<u64> {
    latest(lines, |l: Seq<char>| counter_in(l, read_marker()))
}

pub open spec fn latest_ipv4(lines: Seq<Seq<char>>) -> Option<Seq<char>> {
    latest(lines, |l: Seq<char>| ipv4_in(l))
}

pub open spec fn latest_ipv6(lines: Seq<Seq<char>>) -> Option<Seq<char>> {
    latest(lines, |l: Seq<char>| ipv6_in(l))
}

pub open spec fn latest_endpoint(lines: Seq<Seq<char>>) -> Option<Endpoint> {
    latest(lines, |l: Seq<char>| endpoint_in(l))
}

pub open spec fn lines_view(lines: Seq<String>) -> Seq<Seq<char>> {
    lines.map_values(|s: String| s@)
}

pub open spec fn count_or_zero(o: Option<u64>) -> u64 {
    match o {
        Some(v) => v,
        None => 0,
    }
}

pub open spec fn text_or_empty(o: Option<Seq<char>>) -> Seq<char> {
    match o {
        Some(v) => v,
        None => Seq::empty(),
    }
}

pub open spec fn text_view(o: Option<String>) -> Option<Seq<char>> {
    match o {
        Some(v) => Some(v@),
        None => None,
    }
}

/// A `TelemetrySnapshot` with its text as character sequences.
pub struct TelemetryView {
    pub tunnel_ipv4: Seq<char>,
    pub tunnel_ipv6: Seq<char>,
    pub remote_ip: Seq<char>,
    pub remote_port: u16,
    pub protocol: Seq<char>,
    pub bytes_sent: u64,
    pub bytes_received: u64,
    pub extracted_at: i64,
}

impl View for TelemetrySnapshot {
    type V = TelemetryView;

    open spec fn view(&self) -> TelemetryView {
        TelemetryView {
            tunnel_ipv4: self.tunnel_ipv4@,
            tunnel_ipv6: self.tunnel_ipv6@,
            remote_ip: self.remote_ip@,
            remote_port: self.remote_port,
            protocol: self.protocol@,
            bytes_sent: self.bytes_sent,
            bytes_received: self.bytes_received,
            extracted_at: self.extracted_at,
        }
    }
}

/// The facts that the window `lines`, read at time `at`, gives.
pub open spec fn window_facts(lines: Seq<Seq<char>>, at: i64) -> TelemetryView {
    let ep = latest_endpoint(lines);
    TelemetryView {
        tunnel_ipv4: text_or_empty(latest_ipv4(lines)),
        tunnel_ipv6: text_or_empty(latest_ipv6(lines)),
        remote_ip: match ep {
            Some(e) => e.ip,
            None => Seq::empty(),
        },
        remote_port: match ep {
            Some(e) => e.port,
            None => 0,
        },
        protocol: match ep {
            Some(e) => e.protocol,
            None => Seq::empty(),
        },
        bytes_sent: count_or_zero(latest_sent(lines)),
        bytes_received: count_or_zero(latest_received(lines)),
        extracted_at: at,
    }
}

pub open spec fn endpoint_view(o: Option<(String, u16, String)>) -> Option<Endpoint> {
    match o {
        Some((ip, port, protocol)) => Some(Endpoint { ip: ip@, port, protocol: protocol@ }),
        None => None,
    }
}

/// The markers and separators, as characters.
struct Markers {
    read: Vec<char>,
    write: Vec<char>,
    ipv4: Vec<char>,
    ipv6: Vec<char>,
    peer: Vec<char>,
    comma: Vec<char>,
    close: Vec<char>,
}

impl Markers {
    spec fn wf(&self) -> bool {
        &&& self.read@ == read_marker()
        &&& self.write@ == write_marker()
        &&& self.ipv4@ == ipv4_marker()
        &&& self.ipv6@ == ipv6_marker()
        &&& self.peer@ == peer_marker()
        &&& self.comma@ == seq![',']
        &&& self.close@ == seq![']']
    }

    fn new() -> (r: Markers)
        ensures
            r.wf(),
    {
        let comma = chars_of(",");
        let close = chars_of("]");
        proof {
            reveal_strlit(",");
            reveal_strlit("]");
        }
        assert(comma@ =~= seq![',']);
        assert(close@ =~= seq![']']);
        Markers {
            read: chars_of("read bytes"),
            write: chars_of("write bytes"),
            ipv4: chars_of("ifconfig "),
            ipv6: chars_of("ifconfig-ipv6 "),
            peer: chars_of("Peer Connection Initiated with "),
            comma,
            close,
        }
    }
}

/// The byte counter on line `cs` that holds `marker`.
fn counter_value(cs: &Vec<char>, marker: &Vec<char>, comma: &Vec<char>) -> (r: Option<u64>)
    requires
        comma@ == seq![','],
    ensures
        r == counter_in(cs@, marker@),
{
    let len = cs.len();
    if find(cs, marker, 0).is_none() {
        return None;
    }
    match find(cs, comma, 0) {
        None => None,
        Some(c) => {
            let e = match find(cs, comma, c + 1) {
                Some(e) => e,
                None => len,
            };
            let (a, b) = trim_bounds(cs, c + 1, e);
            parse_unsigned(cs, a, b)
        },
    }
}

/// The bounds of the token that follows the first `marker` of line `cs`.
fn token_after_bounds(cs: &Vec<char>, marker: &Vec<char>) -> (r: Option<(usize, usize)>)
    ensures
        match r {
            Some((a, b)) => a <= b <= cs@.len() && token_after(cs@, marker@) == Some(
                cs@.subrange(a as int, b as int),
            ),
            None => token_after(cs@, marker@) is None,
        },
{
    let len = cs.len();
    match find(cs, marker, 0) {
        None => None,
        Some(k) => {
            assert(k + marker@.len() <= len);
            let p = k + marker.len();
            let e = token_end(cs, p);
            Some((p, e))
        },
    }
}

/// Whether `cs[a..b]` is address-shaped: IPv6-shaped where `v6`, else
/// IPv4-shaped.
fn address_shaped(cs: &Vec<char>, a: usize, b: usize, v6: bool) -> (r: bool)
    requires
        a <= b <= cs@.len(),
    ensures
        r == if v6 {
            ipv6_shaped(cs@.subrange(a as int, b as int))
        } else {
            ipv4_shaped(cs@.subrange(a as int, b as int))
        },
{
    let ghost t = cs@.subrange(a as int, b as int);
    let mut i: usize = a;
    while i < b
        invariant
            a <= i <= b <= cs@.len(),
            t == cs@.subrange(a as int, b as int),
            forall|j: int|
                0 <= j < i - a ==> if v6 {
                    is_ipv6_char(#[trigger] t[j])
                } else {
                    is_ipv4_char(t[j])
                },
        decreases b - i,
    {
        let c = cs[i];
        let digit = c >= '0' && c <= '9';
        let ok = if v6 {
            digit || (c >= 'a' && c <= 'f') || (c >= 'A' && c <= 'F') || c == ':' || c == '.'
        } else {
            digit || c == '.'
        };
        if !ok {
            assert(t[i - a] == c);
            return false;
        }
        i = i + 1;
    }
    let sep = if v6 {
        ':'
    } else {
        '.'
    };
    find_last(cs, sep, a, b).is_some()
}

/// The tunnel address on line `s` (with characters `cs`) after `marker`.
fn address_value(s: &str, cs: &Vec<char>, marker: &Vec<char>, v6: bool) -> (r: Option<String>)
    requires
        cs@ == s@,
    ensures
        text_view(r) == match token_after(cs@, marker@) {
            Some(t) if (if v6 {
                ipv6_shaped(t)
            } else {
                ipv4_shaped(t)
            }) => Some(t),
            _ => None,
        },
{
    match token_after_bounds(cs, marker) {
        None => None,
        Some((a, b)) => {
            if address_shaped(cs, a, b, v6) {
                Some(string_of(s, a, b))
            } else {
                None
            }
        },
    }
}

/// The transport named by the word that follows index `e` of line `s`.
fn protocol_value(s: &str, cs: &Vec<char>, e: usize) -> (r: String)
    requires
        cs@ == s@,
        e <= cs@.len(),
    ensures
        r@ == protocol_after(cs@, e as int),
{
    let w = skip_spaces(cs, e);
    let we = token_end(cs, w);
    let ghost word = cs@.subrange(w as int, we as int);
    proof {
        reveal_strlit("udp");
        reveal_strlit("tcp");
    }
    if we - w == 3 && cs[w + 2] == 'p' && ((cs[w] == 'u' && cs[w + 1] == 'd') || (cs[w] == 't'
        && cs[w + 1] == 'c')) {
        assert(word =~= "udp"@ || word =~= "tcp"@);
        string_of(s, w, we)
    } else {
        assert(word != "udp"@ && word != "tcp"@) by {
            if word == "udp"@ || word == "tcp"@ {
                assert(word.len() == 3);
                assert(word[0] == cs@[w as int]);
                assert(word[1] == cs@[w + 1]);
                assert(word[2] == cs@[w + 2]);
            }
        }
        String::new()
    }
}

/// The remote endpoint on line `s` (with characters `cs`).
fn endpoint_value(s: &str, cs: &Vec<char>, m: &Markers) -> (r: Option<(String, u16, String)>)
    requires
        cs@ == s@,
        m.wf(),
    ensures
        endpoint_view(r) == endpoint_in(cs@),
{
    let len = cs.len();
    let k = match find(cs, &m.peer, 0) {
        None => return None,
        Some(k) => k,
    };
    let after_marker = k + m.peer.len();
    let p = if after_marker < len && cs[after_marker] == '[' {
        match find(cs, &m.close, after_marker) {
            Some(q) => q + 1,
            None => return None,
        }
    } else {
        after_marker
    };
    assert(endpoint_start(cs@, after_marker as int) == Some(p as int));
    let e = token_end(cs, p);
    let ghost t = cs@.subrange(p as int, e as int);
    let c = match find_last(cs, ':', p, e) {
        None => return None,
        Some(c) => c,
    };
    assert(t.subrange(c - p + 1, t.len() as int) =~= cs@.subrange(c + 1, e as int));
    assert(t.subrange(0, c - p) =~= cs@.subrange(p as int, c as int));
    match parse_decimal(cs, c + 1, e) {
        Some(port) => {
            if c > p && port <= 65535 {
                let ip = string_of(s, p, c);
                let protocol = protocol_value(s, cs, e);
                Some((ip, port as u16, protocol))
            } else {
                None
            }
        },
        None => None,
    }
}

/// Reads the connection facts from a window of log lines, oldest first.
/// For each fact the most recent line that gives it wins, each fact on its
/// own; facts that no line gives are empty or zero.
pub fn extract(lines: &Vec<String>, extracted_at: i64) -> (r: TelemetrySnapshot)
    ensures
        r@ == window_facts(lines_view(lines@), extracted_at),
{
    let ghost all = lines_view(lines@);
    let m = Markers::new();
    let n = lines.len();
    let mut sent: Option<u64> = None;
    let mut received: Option<u64> = None;
    let mut ipv4: Option<String> = None;
    let mut ipv6: Option<String> = None;
    let mut endpoint: Option<(String, u16, String)> = None;
    let mut i: usize = n;
    while i > 0
        invariant
            m.wf(),
            n == lines@.len(),
            all == lines_view(lines@),
            i <= n,
            sent == latest_sent(all.subrange(i as int, n as int)),
            received == latest_received(all.subrange(i as int, n as int)),
            text_view(ipv4) == latest_ipv4(all.subrange(i as int, n as int)),
            text_view(ipv6) == latest_ipv6(all.subrange(i as int, n as int)),
            endpoint_view(endpoint) == latest_endpoint(all.subrange(i as int, n as int)),
        decreases i,
    {
        let ghost window = all.subrange(i - 1, n as int);
        assert(window.drop_first() =~= all.subrange(i as int, n as int));
        assert(window[0] == lines@[i - 1]@);
        let s = lines[i - 1].as_str();
        if sent.is_none() || received.is_none() || ipv4.is_none() || ipv6.is_none()
            || endpoint.is_none() {
            let cs = chars_of(s);
            if sent.is_none() {
                sent = counter_value(&cs, &m.write, &m.comma);
            }
            if received.is_none() {
                received = counter_value(&cs, &m.read, &m.comma);
            }
            if ipv4.is_none() {
                ipv4 = address_value(s, &cs, &m.ipv4, false);
            }
            if ipv6.is_none() {
                ipv6 = address_value(s, &cs, &m.ipv6, true);
            }
            if endpoint.is_none() {
                endpoint = endpoint_value(s, &cs, &m);
            }
        }
        i = i - 1;
    }
    assert(all.subrange(0, n as int) =~= all);
    let (remote_ip, remote_port, protocol) = match endpoint {
        Some(ep) => ep,
        None => (String::new(), 0, String::new()),
    };
    let r = TelemetrySnapshot {
        tunnel_ipv4: match ipv4 {
            Some(v) => v,
            None => String::new(),
        },
        tunnel_ipv6: match ipv6 {
            Some(v) => v,
            None => String::new(),
        },
        remote_ip,
        remote_port,
        protocol,
        bytes_sent: match sent {
            Some(v) => v,
            None => 0,
        },
        bytes_received: match received {
            Some(v) => v,
            None => 0,
        },
        extracted_at,
    };
    assert(r@.tunnel_ipv4 =~= window_facts(all, extracted_at).tunnel_ipv4);
    assert(r@.tunnel_ipv6 =~= window_facts(all, extracted_at).tunnel_ipv6);
    assert(r@.remote_ip =~= window_facts(all, extracted_at).remote_ip);
    assert(r@.protocol =~= window_facts(all, extracted_at).protocol);
    r
}

/// A newer line that gives a byte counter sets that counter; a counter that
/// the newer line does not give keeps the value the older lines gave it. The
/// two counters are read independently of each other.
pub proof fn lemma_newer_counter_line(lines: Seq<Seq<char>>, l: Seq<char>, at: i64)
    ensures
        counter_in(l, write_marker()) matches Some(n) ==> window_facts(lines.push(l), at).bytes_sent
            == n,
        counter_in(l, write_marker()) is None ==> window_facts(lines.push(l), at).bytes_sent
            == window_facts(lines, at).bytes_sent,
        counter_in(l, read_marker()) matches Some(n) ==> window_facts(
            lines.push(l),
            at,
        ).bytes_received == n,
        counter_in(l, read_marker()) is None ==> window_facts(lines.push(l), at).bytes_received
            == window_facts(lines, at).bytes_received,
{
    lemma_latest_push(lines, l, |x: Seq<char>| counter_in(x, write_marker()));
    lemma_latest_push(lines, l, |x: Seq<char>| counter_in(x, read_marker()));
}

} // verus!

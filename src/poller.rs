//! Reconciliation: combines the supervisor's liveness with fresh telemetry
//! into the shared connection record.
//!
//! The operating-system side (spawning, probing and signalling the process,
//! reading the log file, reading the clock) is done by the caller, which hands
//! the outcome in.

use vstd::prelude::*;
use crate::state::{connection_view, AppState, ConnectionView, VpnConnection};
use crate::supervisor::{
    after_probe, alive, step, stop_outcome, OpenVpnManager, Probe, ProcessHandle, Request, VpnError,
};
use crate::telemetry::{extract, lines_view, window_facts, TelemetrySnapshot, TelemetryView};

verus! {

/// Milliseconds from `from` to `to`; zero where the clock did not move
/// forward.
pub open spec fn elapsed_between(from: i64, to: i64) -> u64 {
    if to > from {
        (to - from) as u64
    } else {
        0
    }
}

/// Bytes per second over `elapsed_ms` milliseconds for a cumulative counter
/// that went from `prev` to `new`: never negative, zero where the counter did
/// not grow or no time passed, and capped at `u64::MAX`.
pub open spec fn rate(prev: u64, new: u64, elapsed_ms: u64) -> u64 {
    if new <= prev || elapsed_ms == 0 {
        0
    } else {
        let r = (new - prev) * 1000 / (elapsed_ms as int);
        if r > u64::MAX {
            u64::MAX
        } else {
            r as u64
        }
    }
}

/// `fresh` where the snapshot has it, else what was known before.
pub open spec fn sticky(fresh: Seq<char>, known: Seq<char>) -> Seq<char> {
    if fresh.len() > 0 {
        fresh
    } else {
        known
    }
}

/// A counter where the snapshot has it, else what was known before.
pub open spec fn sticky_count(fresh: u64, known: u64) -> u64 {
    if fresh > 0 {
        fresh
    } else {
        known
    }
}

/// The record that a fresh snapshot turns `prev` into: facts present in the
/// snapshot replace the old ones, absent ones are kept, and the throughput
/// is the growth of each counter over the time between the two samples.
pub open spec fn merged(prev: ConnectionView, snap: TelemetryView) -> ConnectionView {
    let sent = sticky_count(snap.bytes_sent, prev.bytes_sent);
    let received = sticky_count(snap.bytes_received, prev.bytes_received);
    let elapsed = elapsed_between(prev.sampled_at, snap.extracted_at);
    let remote = snap.remote_ip.len() > 0;
    ConnectionView {
        config_name: prev.config_name,
        server: prev.server,
        server_ip: if remote {
            snap.remote_ip
        } else {
            prev.server_ip
        },
        server_port: if remote {
            snap.remote_port
        } else {
            prev.server_port
        },
        protocol: sticky(snap.protocol, prev.protocol),
        private_ipv4: sticky(snap.tunnel_ipv4, prev.private_ipv4),
        private_ipv6: sticky(snap.tunnel_ipv6, prev.private_ipv6),
        connected_at: prev.connected_at,
        bytes_sent: sent,
        bytes_received: received,
        speed_up: rate(prev.bytes_sent, sent, elapsed),
        speed_down: rate(prev.bytes_received, received, elapsed),
        sampled_at: snap.extracted_at,
    }
}

/// The first record of a connection: the snapshot's facts, with no
/// throughput since there is only one sample.
pub open spec fn first(config_name: Seq<char>, connected_at: Seq<char>, snap: TelemetryView) -> ConnectionView {
    ConnectionView {
        config_name,
        server: "unknown"@,
        server_ip: snap.remote_ip,
        server_port: snap.remote_port,
        protocol: snap.protocol,
        private_ipv4: snap.tunnel_ipv4,
        private_ipv6: snap.tunnel_ipv6,
        connected_at,
        bytes_sent: snap.bytes_sent,
        bytes_received: snap.bytes_received,
        speed_up: 0,
        speed_down: 0,
        sampled_at: snap.extracted_at,
    }
}

/// The record after a reconciliation at time `now` over the window `lines`,
/// for the tunnel launched for `config_name` at `since`: none where the
/// process is not alive; else the fresh snapshot merged into the previous
/// record, or, where there is none, the tunnel's first record.
pub open spec fn reconciled(
    prev: Option<ConnectionView>,
    is_alive: bool,
    config_name: Seq<char>,
    since: Seq<char>,
    lines: Seq<Seq<char>>,
    now: i64,
) -> Option<ConnectionView> {
    if !is_alive {
        None
    } else {
        match prev {
            None => Some(first(config_name, since, window_facts(lines, now))),
            Some(p) => Some(merged(p, window_facts(lines, now))),
        }
    }
}

/// The record after a connect whose process was or was not alive once the
/// grace period had passed: a connection starts a fresh record.
pub open spec fn connected(
    is_alive: bool,
    config_name: Seq<char>,
    since: Seq<char>,
    lines: Seq<Seq<char>>,
    now: i64,
) -> Option<ConnectionView> {
    if !is_alive {
        None
    } else {
        Some(first(config_name, since, window_facts(lines, now)))
    }
}

/// Bytes per second for a counter that went from `prev_total` to
/// `new_total` in `elapsed_ms` milliseconds.
pub fn throughput(prev_total: u64, new_total: u64, elapsed_ms: u64) -> (r: u64)
    ensures
        r == rate(prev_total, new_total, elapsed_ms),
{
    if new_total <= prev_total || elapsed_ms == 0 {
        return 0;
    }
    let delta = (new_total - prev_total) as u128;
    assert(delta * 1000 <= u64::MAX as u128 * 1000) by (nonlinear_arith)
        requires
            delta <= u64::MAX,
    ;
    let r = delta * 1000 / (elapsed_ms as u128);
    if r > u64::MAX as u128 {
        u64::MAX
    } else {
        r as u64
    }
}

fn sticky_text(fresh: &String, known: &String) -> (r: String)
    ensures
        r@ == sticky(fresh@, known@),
{
    if !fresh.as_str().is_empty() {
        fresh.clone()
    } else {
        known.clone()
    }
}

/// Merges a fresh snapshot into the previous record.
pub fn merge_snapshot(prev: &VpnConnection, snap: &TelemetrySnapshot) -> (r: VpnConnection)
    ensures
        r@ == merged(prev@, snap@),
{
    let sent = if snap.bytes_sent > 0 {
        snap.bytes_sent
    } else {
        prev.bytes_sent
    };
    let received = if snap.bytes_received > 0 {
        snap.bytes_received
    } else {
        prev.bytes_received
    };
    let elapsed: u64 = if snap.extracted_at > prev.sampled_at {
        (snap.extracted_at as i128 - prev.sampled_at as i128) as u64
    } else {
        0
    };
    let remote = sticky_text(&snap.remote_ip, &prev.server_ip);
    let has_remote = !snap.remote_ip.as_str().is_empty();
    VpnConnection {
        config_name: prev.config_name.clone(),
        server: prev.server.clone(),
        server_ip: remote,
        server_port: if has_remote {
            snap.remote_port
        } else {
            prev.server_port
        },
        protocol: sticky_text(&snap.protocol, &prev.protocol),
        private_ipv4: sticky_text(&snap.tunnel_ipv4, &prev.private_ipv4),
        private_ipv6: sticky_text(&snap.tunnel_ipv6, &prev.private_ipv6),
        connected_at: prev.connected_at.clone(),
        bytes_sent: sent,
        bytes_received: received,
        speed_up: throughput(prev.bytes_sent, sent, elapsed),
        speed_down: throughput(prev.bytes_received, received, elapsed),
        sampled_at: snap.extracted_at,
    }
}

/// The first record of a connection named `config_name`.
pub fn first_sample(config_name: String, connected_at: String, snap: &TelemetrySnapshot) -> (r: VpnConnection)
    ensures
        r@ == first(config_name@, connected_at@, snap@),
{
    VpnConnection {
        config_name,
        server: "unknown".to_string(),
        server_ip: snap.remote_ip.clone(),
        server_port: snap.remote_port,
        protocol: snap.protocol.clone(),
        private_ipv4: snap.tunnel_ipv4.clone(),
        private_ipv6: snap.tunnel_ipv6.clone(),
        connected_at,
        bytes_sent: snap.bytes_sent,
        bytes_received: snap.bytes_received,
        speed_up: 0,
        speed_down: 0,
        sampled_at: snap.extracted_at,
    }
}

/// Reconciles the shared record at time `now_ms` (milliseconds since the
/// Unix epoch), given a zero-wait probe of the tunnel process and the recent
/// log window `lines` (oldest first). Where the process is not alive the
/// record is cleared and `None` comes back; else a fresh snapshot is merged
/// into the previous record (or, with none, starts the tunnel's first
/// record), which is written back and returned.
pub fn reconcile_at(
    manager: &mut OpenVpnManager,
    state: &mut AppState,
    probe: Probe,
    lines: &Vec<String>,
    now_ms: i64,
) -> (r: Option<VpnConnection>)
    ensures
        final(manager).held() == after_probe(old(manager).held(), probe),
        final(manager).dir() == old(manager).dir(),
        final(manager).tunnel() == old(manager).tunnel(),
        final(manager).since() == old(manager).since(),
        final(state).current() == reconciled(
            old(state).current(),
            alive(old(manager).held(), probe),
            old(manager).tunnel(),
            old(manager).since(),
            lines_view(lines@),
            now_ms,
        ),
        final(state).key() == old(state).key(),
        connection_view(r) == final(state).current(),
{
    if !manager.is_connected(probe) {
        state.set_connection(None);
        return None;
    }
    let snap = extract(lines, now_ms);
    let next = match state.get_connection() {
        None => first_sample(manager.config_name().clone(), manager.started_at().clone(), &snap),
        Some(prev) => merge_snapshot(&prev, &snap),
    };
    state.set_connection(Some(next.duplicate()));
    Some(next)
}

/// Completes a connect once the grace period has passed: given a zero-wait
/// probe of the launched process, the log window `lines` and the time, it
/// writes the connection's first record, or clears the record and fails
/// with `ProcessNotRunning` where the process is not alive.
pub fn connect_at(
    manager: &mut OpenVpnManager,
    state: &mut AppState,
    probe: Probe,
    lines: &Vec<String>,
    now_ms: i64,
) -> (r: Result<(), VpnError>)
    ensures
        r is Ok <==> alive(old(manager).held(), probe),
        r is Err ==> r == Err::<(), VpnError>(VpnError::ProcessNotRunning),
        final(manager).held() == after_probe(old(manager).held(), probe),
        final(manager).dir() == old(manager).dir(),
        final(manager).tunnel() == old(manager).tunnel(),
        final(manager).since() == old(manager).since(),
        final(state).current() == connected(
            alive(old(manager).held(), probe),
            old(manager).tunnel(),
            old(manager).since(),
            lines_view(lines@),
            now_ms,
        ),
        final(state).key() == old(state).key(),
{
    if !manager.is_connected(probe) {
        state.set_connection(None);
        return Err(VpnError::ProcessNotRunning);
    }
    let snap = extract(lines, now_ms);
    let first = first_sample(manager.config_name().clone(), manager.started_at().clone(), &snap);
    state.set_connection(Some(first));
    Ok(())
}

/// Stops supervising: releases the process handle for the caller to
/// terminate and clears the record. Nothing is held afterwards, whether or
/// not a process was running.
pub fn disconnect_vpn(manager: &mut OpenVpnManager, state: &mut AppState) -> (r: Option<
    ProcessHandle,
>)
    ensures
        r == old(manager).held(),
        final(manager).held() is None,
        final(manager).dir() == old(manager).dir(),
        final(state).current() is None,
        final(state).key() == old(state).key(),
{
    let taken = manager.disconnect();
    state.set_connection(None);
    taken
}

/// A stop when no process is held succeeds, whether or not a signal could be
/// delivered, and releases nothing. Every stop leaves no handle (and
/// `disconnect_vpn` no record), so a second stop in a row is such a stop.
pub proof fn lemma_stop_when_idle(held: Option<ProcessHandle>, delivered: bool)
    ensures
        stop_outcome(None, delivered) == Ok::<(), VpnError>(()),
        step(None, Request::Stop) == (None::<ProcessHandle>, 0int, 0int),
        step(held, Request::Stop).0 is None,
        step(step(held, Request::Stop).0, Request::Stop) == (None::<ProcessHandle>, 0int, 0int),
{
}

/// Where the probe finds the process not alive, reconciling (and connecting)
/// leaves no record, so the next read of the record finds none.
pub proof fn lemma_not_alive_clears(
    prev: Option<ConnectionView>,
    held: Option<ProcessHandle>,
    probe: Probe,
    config_name: Seq<char>,
    since: Seq<char>,
    lines: Seq<Seq<char>>,
    now: i64,
)
    requires
        !alive(held, probe),
    ensures
        reconciled(prev, alive(held, probe), config_name, since, lines, now) is None,
        connected(alive(held, probe), config_name, since, lines, now) is None,
{
}

/// Facts that a fresh snapshot lacks keep the values known before; the
/// connection's name and start time never change.
pub proof fn lemma_sticky_merge(prev: ConnectionView, snap: TelemetryView)
    ensures
        snap.remote_ip.len() == 0 ==> merged(prev, snap).server_ip == prev.server_ip
            && merged(prev, snap).server_port == prev.server_port,
        snap.protocol.len() == 0 ==> merged(prev, snap).protocol == prev.protocol,
        snap.tunnel_ipv4.len() == 0 ==> merged(prev, snap).private_ipv4 == prev.private_ipv4,
        snap.tunnel_ipv6.len() == 0 ==> merged(prev, snap).private_ipv6 == prev.private_ipv6,
        snap.bytes_sent == 0 ==> merged(prev, snap).bytes_sent == prev.bytes_sent,
        snap.bytes_received == 0 ==> merged(prev, snap).bytes_received == prev.bytes_received,
        merged(prev, snap).config_name == prev.config_name,
        merged(prev, snap).connected_at == prev.connected_at,
{
}

/// Throughput is never negative and is zero for a connection's first sample,
/// whether it is taken by a connect or by a reconciliation that finds no
/// record. After that it is the growth of each counter per second since the
/// previous sample: zero where the counter did not grow (a counter that went
/// back, as after a restarted log, included), and never more than the
/// growth per second.
pub proof fn lemma_throughput(
    prev: Option<ConnectionView>,
    config_name: Seq<char>,
    since: Seq<char>,
    lines: Seq<Seq<char>>,
    now: i64,
)
    ensures
        reconciled(prev, true, config_name, since, lines, now) matches Some(c) && 0 <= c.speed_up
            && 0 <= c.speed_down,
        connected(true, config_name, since, lines, now) matches Some(c) && c.speed_up == 0
            && c.speed_down == 0,
        prev is None ==> (reconciled(prev, true, config_name, since, lines, now) matches Some(c)
            && c.speed_up == 0 && c.speed_down == 0),
        prev matches Some(p) ==> ({
            let c = merged(p, window_facts(lines, now));
            let elapsed = elapsed_between(p.sampled_at, now);
            &&& reconciled(prev, true, config_name, since, lines, now) == Some(c)
            &&& c.speed_up == rate(p.bytes_sent, c.bytes_sent, elapsed)
            &&& c.speed_down == rate(p.bytes_received, c.bytes_received, elapsed)
            &&& c.bytes_sent <= p.bytes_sent ==> c.speed_up == 0
            &&& c.bytes_received <= p.bytes_received ==> c.speed_down == 0
            &&& c.bytes_sent > p.bytes_sent && elapsed > 0 ==> c.speed_up <= (c.bytes_sent
                - p.bytes_sent) * 1000 / (elapsed as int)
            &&& c.bytes_received > p.bytes_received && elapsed > 0 ==> c.speed_down <= (
            c.bytes_received - p.bytes_received) * 1000 / (elapsed as int)
        }),
{
}

} // verus!

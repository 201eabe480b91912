//! The shared connection-state record and the API key, as one holder that
//! is overwritten wholesale.

use vstd::prelude::*;
use crate::telemetry::text_view;

verus! {

/// What callers see of the live tunnel.
pub struct VpnConnection {
    pub config_name: String,
    pub server: String,
    pub server_ip: String,
    pub server_port: u16,
    pub protocol: String,
    pub private_ipv4: String,
    pub private_ipv6: String,
    pub connected_at: String,
    pub bytes_sent: u64,
    pub bytes_received: u64,
    /// Bytes per second sent, over the last two samples.
    pub speed_up: u64,
    /// Bytes per second received, over the last two samples.
    pub speed_down: u64,
    /// When the counters were last read, in milliseconds since the Unix epoch.
    pub sampled_at: i64,
}

/// A `VpnConnection` with its text as character sequences.
pub struct ConnectionView {
    pub config_name: Seq<char>,
    pub server: Seq<char>,
    pub server_ip: Seq<char>,
    pub server_port: u16,
    pub protocol: Seq<char>,
    pub private_ipv4: Seq<char>,
    pub private_ipv6: Seq<char>,
    pub connected_at: Seq<char>,
    pub bytes_sent: u64,
    pub bytes_received: u64,
    pub speed_up: u64,
    pub speed_down: u64,
    pub sampled_at: i64,
}

impl View for VpnConnection {
    type V = ConnectionView;

    open spec fn view(&self) -> ConnectionView {
        ConnectionView {
            config_name: self.config_name@,
            server: self.server@,
            server_ip: self.server_ip@,
            server_port: self.server_port,
            protocol: self.protocol@,
            private_ipv4: self.private_ipv4@,
            private_ipv6: self.private_ipv6@,
            connected_at: self.connected_at@,
            bytes_sent: self.bytes_sent,
            bytes_received: self.bytes_received,
            speed_up: self.speed_up,
            speed_down: self.speed_down,
            sampled_at: self.sampled_at,
        }
    }
}

pub open spec fn connection_view(c: Option<VpnConnection>) -> Option<ConnectionView> {
    match c {
        Some(c) => Some(c@),
        None => None,
    }
}

impl VpnConnection {
    /// A copy of this record.
    pub fn duplicate(&self) -> (r: VpnConnection)
        ensures
            r@ == self@,
    {
        VpnConnection {
            config_name: self.config_name.clone(),
            server: self.server.clone(),
            server_ip: self.server_ip.clone(),
            server_port: self.server_port,
            protocol: self.protocol.clone(),
            private_ipv4: self.private_ipv4.clone(),
            private_ipv6: self.private_ipv6.clone(),
            connected_at: self.connected_at.clone(),
            bytes_sent: self.bytes_sent,
            bytes_received: self.bytes_received,
            speed_up: self.speed_up,
            speed_down: self.speed_down,
            sampled_at: self.sampled_at,
        }
    }
}

/// The application's shared state: the API key and the connection record.
pub struct AppState {
    api_key: Option<String>,
    connection: Option<VpnConnection>,
}

impl AppState {
    /// The API key held, if any.
    pub closed spec fn key(&self) -> Option<Seq<char>> {
        text_view(self.api_key)
    }

    /// The connection record held, if any.
    pub closed spec fn current(&self) -> Option<ConnectionView> {
        connection_view(self.connection)
    }

    /// State with no key and no connection.
    pub fn new() -> (r: AppState)
        ensures
            r.key() is None,
            r.current() is None,
    {
        AppState { api_key: None, connection: None }
    }

    /// Replaces the API key.
    pub fn set_api_key(&mut self, key: String)
        ensures
            final(self).key() == Some(key@),
            final(self).current() == old(self).current(),
    {
        self.api_key = Some(key);
    }

    /// A copy of the API key.
    pub fn get_api_key(&self) -> (r: Option<String>)
        ensures
            text_view(r) == self.key(),
    {
        match &self.api_key {
            Some(k) => Some(k.clone()),
            None => None,
        }
    }

    /// Replaces the connection record as a whole.
    pub fn set_connection(&mut self, conn: Option<VpnConnection>)
        ensures
            final(self).current() == connection_view(conn),
            final(self).key() == old(self).key(),
    {
        self.connection = conn;
    }

    /// A copy of the connection record.
    pub fn get_connection(&self) -> (r: Option<VpnConnection>)
        ensures
            connection_view(r) == self.current(),
    {
        match &self.connection {
            Some(c) => Some(c.duplicate()),
            None => None,
        }
    }
}

} // verus!

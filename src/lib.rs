//! Supervision and observation of a single local VPN tunnel: the tunnel
//! process's lifecycle, telemetry read from its diagnostic log, and the shared
//! connection-state record that combines the two.
//!
//! The operations take the supervisor and the state record by `&mut`, so each
//! runs with exclusive access to both; a host that serves several threads keeps
//! them behind one lock held for the whole operation. The operating-system side
//! (launching, probing and signalling the tunnel process, reading the log file
//! and the clock, sleeping through the grace period) belongs to the host, which
//! hands its outcome to the library as plain values.

pub mod text;
pub mod clock;
pub mod telemetry;
pub mod logtail;
pub mod supervisor;
pub mod state;
pub mod poller;
pub mod configs;
pub mod api;
pub mod storage;

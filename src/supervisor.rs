//! The process supervisor: owns the handle of the one tunnel process.
//!
//! Spawning, signalling and probing the operating-system process happen
//! outside the library; the supervisor decides when they may happen and
//! records their outcome, so that at most one tunnel process is ever held.

use vstd::prelude::*;
use crate::telemetry::lines_view;

verus! {

/// The handle of a running tunnel process.
#[derive(Clone, Copy, PartialEq, Eq, Structural, Debug)]
pub struct ProcessHandle {
    pub pid: u32,
}

/// What a zero-wait liveness probe of the process observed.
#[derive(Clone, Copy, PartialEq, Eq, Structural, Debug)]
pub enum Probe {
    /// The process is still running.
    Running,
    /// The process has exited.
    Exited,
    /// The probe itself failed; nothing is known of the process.
    Failed,
}

/// The errors of the tunnel's lifecycle.
#[derive(Clone, Copy, PartialEq, Eq, Structural, Debug)]
pub enum VpnError {
    /// The tunnel definition does not exist.
    ConfigMissing,
    /// A tunnel process is already held.
    AlreadyRunning,
    /// The tunnel binary could not be launched.
    SpawnFailed,
    /// The process was not running once the grace period had passed.
    ProcessNotRunning,
    /// The termination signal could not be delivered.
    KillFailed,
}

/// The message for the user that goes with `e`.
pub open spec fn error_text(e: VpnError) -> Seq<char> {
    match e {
        VpnError::ConfigMissing => "Config file not found"@,
        VpnError::AlreadyRunning => "A tunnel is already running"@,
        VpnError::SpawnFailed => "Failed to start OpenVPN. Make sure OpenVPN is installed."@,
        VpnError::ProcessNotRunning => "Failed to connect - OpenVPN process not running"@,
        VpnError::KillFailed => "Failed to kill OpenVPN process"@,
    }
}

impl VpnError {
    /// A message for the user.
    pub fn message(&self) -> (r: String)
        ensures
            r@ == error_text(*self),
    {
        match self {
            VpnError::ConfigMissing => "Config file not found".to_string(),
            VpnError::AlreadyRunning => "A tunnel is already running".to_string(),
            VpnError::SpawnFailed => "Failed to start OpenVPN. Make sure OpenVPN is installed.".to_string(),
            VpnError::ProcessNotRunning => "Failed to connect - OpenVPN process not running".to_string(),
            VpnError::KillFailed => "Failed to kill OpenVPN process".to_string(),
        }
    }
}

/// Whether a start may go ahead, given the held handle.
pub open spec fn start_check(held: Option<ProcessHandle>, config_exists: bool) -> Result<(), VpnError> {
    if !config_exists {
        Err(VpnError::ConfigMissing)
    } else if held is Some {
        Err(VpnError::AlreadyRunning)
    } else {
        Ok(())
    }
}

/// The outcome of a stop that released `taken` and whose signal was or was
/// not delivered.
pub open spec fn stop_outcome(taken: Option<ProcessHandle>, delivered: bool) -> Result<(), VpnError> {
    if taken is Some && !delivered {
        Err(VpnError::KillFailed)
    } else {
        Ok(())
    }
}

/// Whether the process held as `held` is alive, given what the probe saw.
pub open spec fn alive(held: Option<ProcessHandle>, probe: Probe) -> bool {
    held is Some && probe == Probe::Running
}

/// The handle that remains after a probe: an exited process is released.
pub open spec fn after_probe(held: Option<ProcessHandle>, probe: Probe) -> Option<ProcessHandle> {
    if probe == Probe::Exited {
        None
    } else {
        held
    }
}

/// Owner of the tunnel process handle.
pub struct OpenVpnManager {
    config_dir: String,
    process: Option<ProcessHandle>,
    tunnel: String,
    started_at: String,
}

impl OpenVpnManager {
    /// The handle held, if any.
    pub closed spec fn held(&self) -> Option<ProcessHandle> {
        self.process
    }

    /// Where the tunnel definitions and the log live.
    pub closed spec fn dir(&self) -> Seq<char> {
        self.config_dir@
    }

    /// The definition that the last launch was for.
    pub closed spec fn tunnel(&self) -> Seq<char> {
        self.tunnel@
    }

    /// When the last launch was made, as text.
    pub closed spec fn since(&self) -> Seq<char> {
        self.started_at@
    }

    /// A supervisor that holds no process.
    pub fn new(config_dir: String) -> (r: OpenVpnManager)
        ensures
            r.held() is None,
            r.dir() == config_dir@,
    {
        OpenVpnManager { config_dir, process: None, tunnel: String::new(), started_at: String::new() }
    }

    /// Where the tunnel definitions and the log live.
    pub fn config_dir(&self) -> (r: &String)
        ensures
            r@ == self.dir(),
    {
        &self.config_dir
    }

    /// The definition that the last launch was for.
    pub fn config_name(&self) -> (r: &String)
        ensures
            r@ == self.tunnel(),
    {
        &self.tunnel
    }

    /// When the last launch was made, as text.
    pub fn started_at(&self) -> (r: &String)
        ensures
            r@ == self.since(),
    {
        &self.started_at
    }

    /// The handle held, if any.
    pub fn process(&self) -> (r: Option<ProcessHandle>)
        ensures
            r == self.held(),
    {
        self.process
    }

    /// Whether a start may go ahead: the definition must exist and no
    /// process may be held.
    pub fn check_start(&self, config_exists: bool) -> (r: Result<(), VpnError>)
        ensures
            r == start_check(self.held(), config_exists),
    {
        if !config_exists {
            Err(VpnError::ConfigMissing)
        } else if self.process.is_some() {
            Err(VpnError::AlreadyRunning)
        } else {
            Ok(())
        }
    }

    /// Records the outcome of a launch that `check_start` allowed, for the
    /// definition `config_name` at the time `started_at`: the new handle, or
    /// `SpawnFailed` where there is none.
    pub fn record_start(
        &mut self,
        spawned: Option<ProcessHandle>,
        config_name: String,
        started_at: String,
    ) -> (r: Result<(), VpnError>)
        requires
            old(self).held() is None,
        ensures
            final(self).held() == spawned,
            final(self).dir() == old(self).dir(),
            final(self).tunnel() == config_name@,
            final(self).since() == started_at@,
            r == (if spawned is Some {
                Ok(())
            } else {
                Err(VpnError::SpawnFailed)
            }),
    {
        self.process = spawned;
        self.tunnel = config_name;
        self.started_at = started_at;
        match spawned {
            Some(_) => Ok(()),
            None => Err(VpnError::SpawnFailed),
        }
    }

    /// Releases the handle held, for the caller to terminate; none is held
    /// afterwards, whatever becomes of the signal.
    pub fn disconnect(&mut self) -> (r: Option<ProcessHandle>)
        ensures
            r == old(self).held(),
            final(self).held() is None,
            final(self).dir() == old(self).dir(),
            final(self).tunnel() == old(self).tunnel(),
            final(self).since() == old(self).since(),
    {
        self.process.take()
    }

    /// Whether the tunnel process is alive, given a zero-wait probe of it.
    /// A probe that saw the process exit releases the handle.
    pub fn is_connected(&mut self, probe: Probe) -> (r: bool)
        ensures
            r == alive(old(self).held(), probe),
            final(self).held() == after_probe(old(self).held(), probe),
            final(self).dir() == old(self).dir(),
            final(self).tunnel() == old(self).tunnel(),
            final(self).since() == old(self).since(),
    {
        match self.process {
            None => false,
            Some(_) => match probe {
                Probe::Running => true,
                Probe::Exited => {
                    self.process = None;
                    false
                },
                Probe::Failed => false,
            },
        }
    }
}

/// The arguments that launch the tunnel binary for the definition at
/// `config_path`, with the credentials at `creds_path` where there are any.
pub open spec fn launch_args_of(config_path: Seq<char>, creds_path: Option<Seq<char>>) -> Seq<
    Seq<char>,
> {
    seq!["--config"@, config_path] + match creds_path {
        Some(c) => seq!["--auth-user-pass"@, c],
        None => Seq::empty(),
    }
}

/// The arguments that launch the tunnel binary.
pub fn launch_args(config_path: &str, creds_path: Option<&str>) -> (r: Vec<String>)
    ensures
        lines_view(r@) == launch_args_of(
            config_path@,
            match creds_path {
                Some(c) => Some(c@),
                None => None,
            },
        ),
{
    let mut r: Vec<String> = Vec::new();
    r.push("--config".to_string());
    r.push(config_path.to_string());
    if let Some(c) = creds_path {
        r.push("--auth-user-pass".to_string());
        r.push(c.to_string());
    }
    assert(lines_view(r@) =~= launch_args_of(
        config_path@,
        match creds_path {
            Some(c) => Some(c@),
            None => None,
        },
    ));
    r
}

/// The outcome of a stop, from the handle that `disconnect` released and
/// whether the termination signal was delivered to it.
pub fn stop_result(taken: Option<ProcessHandle>, delivered: bool) -> (r: Result<(), VpnError>)
    ensures
        r == stop_outcome(taken, delivered),
{
    if taken.is_some() && !delivered {
        Err(VpnError::KillFailed)
    } else {
        Ok(())
    }
}

/// One call on the supervisor, with the outcome of the outside work that it
/// leads to.
pub enum Request {
    /// `check_start`, then, where it allows it, a launch whose outcome
    /// `record_start` records.
    Start { config_exists: bool, spawned: Option<ProcessHandle> },
    /// `disconnect`, then a termination signal to the released process.
    Stop,
    /// `is_connected` with the probe's outcome.
    Poll(Probe),
}

/// The handle held after `req`, the processes it launched and the processes
/// it released (stopped, or seen to have exited).
pub open spec fn step(held: Option<ProcessHandle>, req: Request) -> (Option<ProcessHandle>, int, int) {
    match req {
        Request::Start { config_exists, spawned } => match start_check(held, config_exists) {
            Ok(()) => (spawned, if spawned is Some { 1 } else { 0 }, 0),
            Err(_) => (held, 0, 0),
        },
        Request::Stop => (None, 0, if held is Some { 1 } else { 0 }),
        Request::Poll(probe) => (
            after_probe(held, probe),
            0,
            if held is Some && probe == Probe::Exited { 1 } else { 0 },
        ),
    }
}

/// The handle held after the calls `reqs`, made from a new supervisor, and
/// the number of processes launched and not released.
pub open spec fn run(reqs: Seq<Request>) -> (Option<ProcessHandle>, int)
    decreases reqs.len(),
{
    if reqs.len() == 0 {
        (None, 0)
    } else {
        let (held, live) = run(reqs.drop_last());
        let (next, launched, released) = step(held, reqs.last());
        (next, live + launched - released)
    }
}

/// Whatever calls are made, in whatever order, at most one launched process
/// is unreleased at any time, and it is the one whose handle is held: a start
/// never launches while a process is held.
pub proof fn lemma_at_most_one_process(reqs: Seq<Request>)
    ensures
        run(reqs).1 == (if run(reqs).0 is Some { 1int } else { 0int }),
        0 <= run(reqs).1 <= 1,
    decreases reqs.len(),
{
    if reqs.len() > 0 {
        lemma_at_most_one_process(reqs.drop_last());
    }
}

} // verus!

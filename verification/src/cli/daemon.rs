//! Decisions of the daemon lifecycle commands (`kim start`, `kim stop`,
//! `kim status`) and the numbers they show.

use vstd::prelude::*;

use crate::cli::{push_decimal, CommandOutput};

verus! {

/// `n` with at least two digits (Rust's `{:02}`).
pub open spec fn two_digits(n: nat) -> Seq<char> {
    if n < 10 { seq!['0'] + crate::cli::decimal(n) } else { crate::cli::decimal(n) }
}

/// An uptime as `HH:MM:SS` (hours may take more than two digits).
pub open spec fn uptime_text(secs: nat) -> Seq<char> {
    two_digits(secs / 3600) + seq![':'] + two_digits((secs % 3600) / 60) + seq![':'] + two_digits(secs % 60)
}

fn push_two_digits(s: &mut String, n: u64)
    ensures
        final(s)@ == old(s)@ + two_digits(n as nat),
{
    if n < 10 {
        crate::text::push_char(s, '0');
    }
    push_decimal(s, n);
    assert(final(s)@ =~= old(s)@ + two_digits(n as nat));
}

/// Format an uptime in seconds as `HH:MM:SS`.
pub fn format_uptime(secs: u64) -> (r: String)
    ensures
        r@ == uptime_text(secs as nat),
{
    let mut r = String::new();
    push_two_digits(&mut r, secs / 3600);
    crate::text::push_char(&mut r, ':');
    push_two_digits(&mut r, (secs % 3600) / 60);
    crate::text::push_char(&mut r, ':');
    push_two_digits(&mut r, secs % 60);
    assert(r@ =~= uptime_text(secs as nat));
    r
}

/// 100-ns intervals between 1601-01-01 and the Unix epoch.
pub const EPOCH_DIFF: u64 = 116_444_736_000_000_000;

/// The Unix second of a Windows FILETIME given as its two 32-bit halves,
/// or `None` before 1970.
pub open spec fn filetime_unix_secs(high: u32, low: u32) -> Option<nat> {
    let ft = high as nat * 0x1_0000_0000 + low as nat;
    if ft < EPOCH_DIFF { None } else { Some(((ft - EPOCH_DIFF) / 10_000_000) as nat) }
}

/// Convert a FILETIME (100-ns intervals since 1601-01-01) to Unix seconds.
pub fn filetime_to_unix_secs(high: u32, low: u32) -> (r: Option<u64>)
    ensures
        r == match filetime_unix_secs(high, low) {
            None => None::<u64>,
            Some(s) => Some(s as u64),
        },
{
    let ft: u64 = ((high as u64) << 32u64) | (low as u64);
    assert(ft == high as nat * 0x1_0000_0000 + low as nat) by (bit_vector)
        requires ft == ((high as u64) << 32u64) | (low as u64);
    if ft < EPOCH_DIFF {
        None
    } else {
        Some((ft - EPOCH_DIFF) / 10_000_000)
    }
}

/// Windows' `STILL_ACTIVE` exit code: the process has not exited.
pub const STILL_ACTIVE: u32 = 259;

/// Whether an exit code reported for a process means it is still running.
pub fn exit_code_means_alive(code: u32) -> (r: bool)
    ensures
        r == (code == STILL_ACTIVE),
{
    code == STILL_ACTIVE
}

/// The uptime field of `kim status`.
pub open spec fn status_uptime_text(now: Option<u64>, creation: Option<u64>) -> Seq<char> {
    match (now, creation) {
        (Some(n), Some(c)) => uptime_text(if n >= c { (n - c) as nat } else { 0 }),
        _ => "unknown"@,
    }
}

/// What `kim status` prints: `stopped` (exit code 1) unless a recorded
/// daemon process is alive, else its PID and uptime.
pub fn status_report(pid: Option<u32>, alive: bool, now: Option<u64>, creation: Option<u64>) -> (out:
    CommandOutput)
    ensures
        out.stderr@ == Seq::<char>::empty(),
        out.code == (if pid is Some && alive { 0i32 } else { 1i32 }),
        out.stdout@ == (match pid {
            Some(p) if alive => "running  PID: "@ + crate::cli::decimal(p as nat) + "  uptime: "@
                + status_uptime_text(now, creation) + "\n"@,
            _ => "stopped\n"@,
        }),
{
    let mut t = String::new();
    match pid {
        Some(p) if alive => {
            t.append("running  PID: ");
            push_decimal(&mut t, p as u64);
            t.append("  uptime: ");
            match (now, creation) {
                (Some(n), Some(c)) => {
                    t.append(format_uptime(n.saturating_sub(c)).as_str());
                },
                _ => {
                    t.append("unknown");
                },
            }
            t.append("\n");
            crate::cli::stdout_output(t, 0)
        },
        _ => {
            t.append("stopped\n");
            crate::cli::stdout_output(t, 1)
        },
    }
}

/// What `kim start` does after reading the PID file.
pub enum StartPlan {
    /// The recorded daemon is alive: report it and stop here.
    AlreadyRunning(CommandOutput),
    /// Launch the daemon, removing a stale PID file first when `remove_stale`.
    Launch { remove_stale: bool },
}

/// Decide what `kim start` does given the PID recorded in the PID file (if
/// it could be read) and whether that process is alive.
pub fn start_plan(recorded: Option<u32>, alive: bool) -> (plan: StartPlan)
    ensures
        match plan {
            StartPlan::AlreadyRunning(out) => recorded is Some && alive && out.code == 1 && out.stderr@
                == Seq::<char>::empty() && out.stdout@ == "kim is already running (PID: "@ + crate::cli::decimal(
                recorded->0 as nat,
            ) + ")\n"@,
            StartPlan::Launch { remove_stale } => !(recorded is Some && alive) && remove_stale
                == recorded is Some,
        },
{
    match recorded {
        Some(p) => {
            if alive {
                let mut t = String::new();
                t.append("kim is already running (PID: ");
                push_decimal(&mut t, p as u64);
                t.append(")\n");
                StartPlan::AlreadyRunning(crate::cli::stdout_output(t, 1))
            } else {
                StartPlan::Launch { remove_stale: true }
            }
        },
        None => StartPlan::Launch { remove_stale: false },
    }
}

/// Why `kim start` could not launch the daemon.
pub enum StartFailure {
    /// The CLI's own path is unknown (the OS error message).
    NoOwnPath(String),
    /// The daemon executable does not exist (its path).
    DaemonMissing(String),
    /// Spawning failed (the OS error message).
    SpawnFailed(String),
}

/// The message and exit code for a launch failure.
pub fn start_failure_report(f: &StartFailure) -> (out: CommandOutput)
    ensures
        out.code == 2,
        out.stdout@ == Seq::<char>::empty(),
        out.stderr@ == match f {
            StartFailure::NoOwnPath(e) => "Cannot determine kimd.exe path: "@ + e@ + "\n"@,
            StartFailure::DaemonMissing(p) => "kimd.exe not found at: "@ + p@ + "\n"@,
            StartFailure::SpawnFailed(e) => "Failed to start kimd.exe: "@ + e@ + "\n"@,
        },
{
    let mut m = String::new();
    match f {
        StartFailure::NoOwnPath(e) => {
            m.append("Cannot determine kimd.exe path: ");
            m.append(e.as_str());
        },
        StartFailure::DaemonMissing(p) => {
            m.append("kimd.exe not found at: ");
            m.append(p.as_str());
        },
        StartFailure::SpawnFailed(e) => {
            m.append("Failed to start kimd.exe: ");
            m.append(e.as_str());
        },
    }
    m.append("\n");
    CommandOutput { stdout: String::new(), stderr: m, code: 2 }
}

/// What `kim start` reports once the daemon was launched: the PID found in
/// the PID file, or an error when none appeared in time.
pub fn start_report(pid: Option<u32>) -> (out: CommandOutput)
    ensures
        pid matches Some(p) ==> out.code == 0 && out.stderr@ == Seq::<char>::empty() && out.stdout@
            == "kim started (PID: "@ + crate::cli::decimal(p as nat) + ")\n"@,
        pid is None ==> out.code == 2 && out.stdout@ == Seq::<char>::empty() && out.stderr@
            == "kimd started but PID file not created within 2 seconds.\n"@,
{
    match pid {
        Some(p) => {
            let mut t = String::new();
            t.append("kim started (PID: ");
            push_decimal(&mut t, p as u64);
            t.append(")\n");
            crate::cli::stdout_output(t, 0)
        },
        None => {
            let mut m = String::new();
            m.append("kimd started but PID file not created within 2 seconds.\n");
            CommandOutput { stdout: String::new(), stderr: m, code: 2 }
        },
    }
}

/// What `kim stop` does after reading the PID file.
pub enum StopPlan {
    /// Nothing to stop: print this; when `remove_pid_file`, the recorded
    /// process is dead and its PID file is removed first.
    NotRunning { out: CommandOutput, remove_pid_file: bool },
    /// Signal the daemon with this PID and wait for it.
    Signal(u32),
}

/// Decide what `kim stop` does given the PID file read (PID if any, or the
/// error message) and whether the recorded process is alive.
pub fn stop_plan(read: &Result<Option<u32>, String>, alive: bool) -> (plan: StopPlan)
    ensures
        match plan {
            StopPlan::Signal(p) => read == Ok::<Option<u32>, String>(Some(p)) && alive,
            StopPlan::NotRunning { out, remove_pid_file } => out.code == 1 && match read {
                Ok(Some(p)) => !alive && remove_pid_file && out.stdout@ == "kim is not running\n"@
                    && out.stderr@ == Seq::<char>::empty(),
                Ok(None) => !remove_pid_file && out.stdout@ == "kim is not running\n"@ && out.stderr@
                    == Seq::<char>::empty(),
                Err(e) => !remove_pid_file && out.stdout@ == Seq::<char>::empty() && out.stderr@
                    == "Cannot read PID file: "@ + e@ + "\n"@,
            },
        },
{
    match read {
        Ok(Some(p)) => {
            if alive {
                StopPlan::Signal(*p)
            } else {
                let mut t = String::new();
                t.append("kim is not running\n");
                StopPlan::NotRunning { out: crate::cli::stdout_output(t, 1), remove_pid_file: true }
            }
        },
        Ok(None) => {
            let mut t = String::new();
            t.append("kim is not running\n");
            StopPlan::NotRunning { out: crate::cli::stdout_output(t, 1), remove_pid_file: false }
        },
        Err(e) => {
            let mut m = String::new();
            m.append("Cannot read PID file: ");
            m.append(e.as_str());
            m.append("\n");
            StopPlan::NotRunning {
                out: CommandOutput { stdout: String::new(), stderr: m, code: 1 },
                remove_pid_file: false,
            }
        },
    }
}

/// One step of waiting for the signalled daemon to exit.
pub enum StopStep {
    /// The process has exited.
    Exited,
    /// The grace period is over: terminate it.
    ForceTerminate,
    /// Poll again later.
    Wait,
}

/// Decide the next step of `kim stop`'s wait: done once the process is gone,
/// forced once the deadline has passed, else wait.
pub fn stop_step(alive: bool, deadline_passed: bool) -> (s: StopStep)
    ensures
        s == (if !alive { StopStep::Exited } else if deadline_passed { StopStep::ForceTerminate } else {
            StopStep::Wait
        }),
{
    if !alive {
        StopStep::Exited
    } else if deadline_passed {
        StopStep::ForceTerminate
    } else {
        StopStep::Wait
    }
}

/// What `kim stop` prints once the daemon is gone.
pub fn stop_report(force_stopped: bool) -> (out: CommandOutput)
    ensures
        out.code == 0,
        out.stderr@ == Seq::<char>::empty(),
        out.stdout@ == (if force_stopped { "kim force-stopped\n"@ } else { "kim stopped\n"@ }),
{
    let mut t = String::new();
    if force_stopped {
        t.append("kim force-stopped\n");
    } else {
        t.append("kim stopped\n");
    }
    crate::cli::stdout_output(t, 0)
}

} // verus!

//! The daemon's lifecycle decisions over the PID-file contract. Reading the
//! PID file, asking the OS whether a process exists, spawning and signalling
//! are the caller's; what to conclude and what to do next is decided here.
use vstd::prelude::*;
use crate::db::{EventStore, StoreError, StoreModel, set_daemon_status};
use crate::text::{trim, trim_spec, chars_of};

verus! {

/// Why the daemon's state could not be established.
#[derive(Clone, Copy, PartialEq, Eq, Structural, Debug)]
pub enum DaemonError {
    /// The PID file holds something other than a decimal process id.
    CorruptPidFile,
}

pub open spec fn is_digit(c: char) -> bool {
    '0' <= c && c <= '9'
}

pub open spec fn all_digits(s: Seq<char>) -> bool {
    forall|i: int| 0 <= i < s.len() ==> is_digit(#[trigger] s[i])
}

/// The number that a string of decimal digits writes.
pub open spec fn decimal_value(s: Seq<char>) -> int
    decreases s.len(),
{
    if s.len() == 0 {
        0
    } else {
        decimal_value(s.drop_last()) * 10 + (s.last() as int - '0' as int)
    }
}

/// What PID-file contents say: the process id that the trimmed text writes
/// in decimal digits, when it fits in 32 bits; anything else is corrupt.
pub open spec fn pid_spec(contents: Seq<char>) -> Option<u32> {
    let t = trim_spec(contents);
    if t.len() > 0 && all_digits(t) && decimal_value(t) <= u32::MAX {
        Some(decimal_value(t) as u32)
    } else {
        None
    }
}

proof fn lemma_decimal_grows(s: Seq<char>, k: int)
    requires
        0 <= k <= s.len(),
        all_digits(s),
    ensures
        0 <= decimal_value(s.subrange(0, k)) <= decimal_value(s),
    decreases s.len() - k,
{
    if k < s.len() {
        lemma_decimal_grows(s, k + 1);
        let p = s.subrange(0, k + 1);
        assert(p.drop_last() =~= s.subrange(0, k));
        assert(is_digit(s[k]));
    } else {
        assert(s.subrange(0, k) =~= s);
    }
    lemma_decimal_nonneg(s.subrange(0, k));
}

proof fn lemma_decimal_nonneg(s: Seq<char>)
    requires
        all_digits(s),
    ensures
        0 <= decimal_value(s),
    decreases s.len(),
{
    if s.len() > 0 {
        assert(all_digits(s.drop_last()));
        assert(is_digit(s[s.len() - 1]));
        lemma_decimal_nonneg(s.drop_last());
    }
}

/// Reads a process id written in decimal digits, nothing else.
pub fn parse_pid(t: &str) -> (r: Option<u32>)
    ensures
        r == (if t@.len() > 0 && all_digits(t@) && decimal_value(t@) <= u32::MAX {
            Some(decimal_value(t@) as u32)
        } else {
            None
        }),
{
    let c = chars_of(t);
    let n = c.len();
    if n == 0 {
        return None;
    }
    let mut v: u64 = 0;
    let mut i: usize = 0;
    while i < n
        invariant
            n == c@.len(),
            c@ == t@,
            i <= n,
            all_digits(c@.subrange(0, i as int)),
            v == decimal_value(c@.subrange(0, i as int)),
            v <= u32::MAX,
        decreases n - i,
    {
        let d = c[i];
        if !('0' <= d && d <= '9') {
            assert(!all_digits(t@));
            return None;
        }
        let ghost p = c@.subrange(0, i + 1);
        assert(p.drop_last() =~= c@.subrange(0, i as int));
        v = v * 10 + (d as u64 - '0' as u64);
        assert(all_digits(p));
        if v > u32::MAX as u64 {
            proof {
                if all_digits(t@) {
                    lemma_decimal_grows(t@, i + 1);
                }
            }
            return None;
        }
        i = i + 1;
    }
    assert(c@.subrange(0, n as int) =~= t@);
    Some(v as u32)
}

/// What the PID file says: `None` when there is none, the recorded id, or
/// an error when its content is not a decimal process id.
pub fn get_daemon_pid(contents: Option<&str>) -> (r: Result<Option<u32>, DaemonError>)
    ensures
        contents is None ==> r == Ok::<Option<u32>, DaemonError>(None),
        contents matches Some(s) ==> r == (match pid_spec(s@) {
            Some(p) => Ok::<Option<u32>, DaemonError>(Some(p)),
            None => Err(DaemonError::CorruptPidFile),
        }),
{
    match contents {
        None => Ok(None),
        Some(s) => match parse_pid(trim(s)) {
            Some(p) => Ok(Some(p)),
            None => Err(DaemonError::CorruptPidFile),
        },
    }
}

/// The daemon as the PID file and the OS show it.
#[derive(Clone, Copy, PartialEq, Eq, Structural, Debug)]
pub enum DaemonState {
    /// No PID file.
    Stopped,
    /// The recorded process exists.
    Running(u32),
    /// A PID file names a process that does not exist.
    Stale(u32),
}

pub open spec fn assess_spec(pid: Option<u32>, alive: bool) -> DaemonState {
    match pid {
        None => DaemonState::Stopped,
        Some(p) => if alive {
            DaemonState::Running(p)
        } else {
            DaemonState::Stale(p)
        },
    }
}

/// Combines the recorded id with the OS's answer on whether that process
/// exists (`alive` is not consulted without an id).
pub fn assess(pid: Option<u32>, alive: bool) -> (r: DaemonState)
    ensures
        r == assess_spec(pid, alive),
{
    match pid {
        None => DaemonState::Stopped,
        Some(p) => if alive {
            DaemonState::Running(p)
        } else {
            DaemonState::Stale(p)
        },
    }
}

/// Only a recorded process that exists counts as running.
pub fn is_daemon_running(state: DaemonState) -> (r: bool)
    ensures
        r == (state is Running),
{
    match state {
        DaemonState::Running(_) => true,
        _ => false,
    }
}

/// What `start` does.
#[derive(Clone, Copy, PartialEq, Eq, Structural, Debug)]
pub enum StartAction {
    /// Nothing: a daemon runs already.
    AlreadyRunning,
    /// Spawn a detached daemon, first removing a stale PID file if
    /// `clear_stale`, then record its id and set the liveness flag.
    Spawn { clear_stale: bool },
}

/// What `stop` does.
#[derive(Clone, Copy, PartialEq, Eq, Structural, Debug)]
pub enum StopAction {
    /// Nothing but, if `clear_stale`, removing a stale PID file and clearing
    /// the liveness flag: no daemon runs.
    NotRunning { clear_stale: bool },
    /// Ask the process to terminate, remove the PID file, clear the flag.
    Terminate(u32),
}

pub fn start_daemon(state: DaemonState) -> (r: StartAction)
    ensures
        state is Running ==> r == StartAction::AlreadyRunning,
        state is Stopped ==> r == (StartAction::Spawn { clear_stale: false }),
        state is Stale ==> r == (StartAction::Spawn { clear_stale: true }),
{
    match state {
        DaemonState::Running(_) => StartAction::AlreadyRunning,
        DaemonState::Stopped => StartAction::Spawn { clear_stale: false },
        DaemonState::Stale(_) => StartAction::Spawn { clear_stale: true },
    }
}

pub fn stop_daemon(state: DaemonState) -> (r: StopAction)
    ensures
        state matches DaemonState::Running(p) ==> r == StopAction::Terminate(p),
        state is Stopped ==> r == (StopAction::NotRunning { clear_stale: false }),
        state is Stale ==> r == (StopAction::NotRunning { clear_stale: true }),
{
    match state {
        DaemonState::Running(p) => StopAction::Terminate(p),
        DaemonState::Stopped => StopAction::NotRunning { clear_stale: false },
        DaemonState::Stale(_) => StopAction::NotRunning { clear_stale: true },
    }
}

/// Brings the stored liveness flag in line with the OS: cleared unless the
/// daemon runs; a running daemon leaves it as it is. Returns whether the
/// daemon runs.
pub fn reconcile(store: &mut EventStore, state: DaemonState) -> (r: Result<bool, StoreError>)
    requires
        old(store).wf(),
    ensures
        final(store).wf(),
        old(store)@.schema.status_row ==> r == Ok::<bool, StoreError>(state is Running),
        !old(store)@.schema.status_row ==> r == Err::<bool, StoreError>(
            StoreError::MissingStatusRow,
        ),
        final(store)@ == (if state is Running || !old(store)@.schema.status_row {
            old(store)@
        } else {
            StoreModel { active: false, ..old(store)@ }
        }),
{
    let running = is_daemon_running(state);
    if running {
        match crate::db::get_daemon_status(store) {
            Ok(_) => Ok(true),
            Err(e) => Err(e),
        }
    } else {
        match set_daemon_status(store, false) {
            Ok(()) => Ok(false),
            Err(e) => Err(e),
        }
    }
}

} // verus!

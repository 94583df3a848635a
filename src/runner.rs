use vstd::prelude::*;
use vstd::string::*;
use crate::text::{concat2, concat3, decimal, decimal_string, owned};
use vstd::utf8::encode_utf8;

verus! {

/// Largest amount of diagnostic output kept from a child process, in bytes.
pub const MAX_STDERR_BYTES: usize = 1048576;

/// Timeout of the quick, non-cancellable marketplace listing, in seconds.
pub const QUICK_COMMAND_TIMEOUT_SECS: u64 = 15;

/// Timeout of a cleanup command, in seconds.
pub const CLEANUP_TIMEOUT_SECS: u64 = 10;

/// How long to wait for a killed child to go, in milliseconds.
pub const KILL_WAIT_MS: u64 = 500;

/// Interval between two polls of a running child, in milliseconds.
pub const POLL_INTERVAL_MS: u64 = 100;

/// How a supervised external command ended.
#[derive(Clone, Debug)]
pub enum RunOutcome {
    Success,
    Failure(String),
    TimedOut { timeout_secs: u64, cleanup_attempted: bool },
    Cancelled { cleanup_attempted: bool },
    SystemError(String),
}

/// What one non-blocking wait on the child observed.
#[derive(Clone, Debug)]
pub enum WaitResult {
    Exited { success: bool },
    Running,
    Failed(String),
}

/// What the runner does after one poll.
#[derive(Clone, Debug)]
pub enum RunnerStep {
    /// Keep polling.
    Continue,
    /// The child exited: join the readers and report by exit status.
    Finished { success: bool },
    /// Kill the child, run the cleanup if any, and report a timeout.
    KillTimedOut,
    /// Kill the child, run the cleanup if any, and report a cancellation.
    KillCancelled,
    /// Kill the child and report the failed wait.
    KillWaitFailed(String),
}

pub open spec fn runner_step_spec(expired: bool, wait: WaitResult, cancel_received: bool) -> RunnerStep {
    if expired {
        RunnerStep::KillTimedOut
    } else {
        match wait {
            WaitResult::Exited { success } => RunnerStep::Finished { success },
            WaitResult::Failed(e) => RunnerStep::KillWaitFailed(e),
            WaitResult::Running => if cancel_received {
                RunnerStep::KillCancelled
            } else {
                RunnerStep::Continue
            },
        }
    }
}

/// One turn of the supervision loop. The deadline is checked first; then the
/// child's exit, and only when it is still running the cancellation signal,
/// so that an exit seen in the same turn as a cancel is never reported as a
/// cancellation.
pub fn runner_step(expired: bool, wait: WaitResult, cancel_received: bool) -> (r: RunnerStep)
    ensures
        r == runner_step_spec(expired, wait, cancel_received),
{
    if expired {
        RunnerStep::KillTimedOut
    } else {
        match wait {
            WaitResult::Exited { success } => RunnerStep::Finished { success },
            WaitResult::Failed(e) => RunnerStep::KillWaitFailed(e),
            WaitResult::Running => if cancel_received {
                RunnerStep::KillCancelled
            } else {
                RunnerStep::Continue
            },
        }
    }
}

/// A child seen to exit successfully before the deadline is reported as a
/// success whether or not a cancellation signal is waiting: the signal cannot
/// override the exit.
pub proof fn lemma_exit_wins_over_cancel(cancel_received: bool)
    ensures
        runner_step_spec(false, (WaitResult::Exited { success: true }), cancel_received)
            == (RunnerStep::Finished { success: true }),
        runner_step_spec(false, (WaitResult::Exited { success: true }), cancel_received)
            == runner_step_spec(false, (WaitResult::Exited { success: true }), false),
{
}

/// A child still running at the deadline is killed and reported as timed
/// out, whatever else was observed.
pub proof fn lemma_deadline_kills(wait: WaitResult, cancel_received: bool)
    ensures
        runner_step_spec(true, wait, cancel_received) == RunnerStep::KillTimedOut,
{
}

/// Keeps a line of diagnostic output unless the byte budget would be
/// exceeded; then appends the truncation marker instead. Returns whether
/// capture goes on.
pub fn append_capped(output: &mut String, line: &str) -> (r: bool)
    requires
        encode_utf8(old(output)@).len() <= usize::MAX,
        encode_utf8(line@).len() <= usize::MAX,
    ensures
        encode_utf8(old(output)@).len() + encode_utf8(line@).len() + 1 > MAX_STDERR_BYTES ==> !r
            && final(output)@ == old(output)@ + "\n[... output truncated]"@,
        encode_utf8(old(output)@).len() + encode_utf8(line@).len() + 1 <= MAX_STDERR_BYTES ==> r
            && final(output)@ == old(output)@ + line@ + "\n"@,
{
    let n = output.as_str().len();
    let m = line.len();
    if m >= MAX_STDERR_BYTES || n >= MAX_STDERR_BYTES - m {
        output.append("\n[... output truncated]");
        return false;
    }
    output.append(line);
    output.append("\n");
    true
}

/// `s` without its leading white space.
pub open spec fn trim_start(s: Seq<char>) -> Seq<char>
    decreases s.len(),
{
    if s.len() > 0 && crate::installed::whitespace(s[0]) {
        trim_start(s.drop_first())
    } else {
        s
    }
}

/// `s` without its trailing white space.
pub open spec fn trim_end(s: Seq<char>) -> Seq<char>
    decreases s.len(),
{
    if s.len() > 0 && crate::installed::whitespace(s.last()) {
        trim_end(s.drop_last())
    } else {
        s
    }
}

/// `s` without leading and trailing white space.
pub open spec fn trimmed_of(s: Seq<char>) -> Seq<char> {
    trim_end(trim_start(s))
}

/// Relies on `str::trim`: the text without leading and trailing characters
/// of Unicode's White_Space property.
#[verifier::external_body]
pub(crate) fn trim_text(s: &str) -> (r: String)
    ensures
        r@ == trimmed_of(s@),
{
    s.trim().to_string()
}

pub open spec fn process_error_spec(action: Seq<char>, item: Seq<char>, trimmed: Seq<char>) -> Seq<char> {
    if trimmed.len() == 0 {
        "Failed to "@ + action + " "@ + item
    } else {
        "Failed to "@ + action + " "@ + item + ": "@ + trimmed
    }
}

/// The failure message of a command that exited with an error, given its
/// trimmed diagnostic output.
pub fn process_error_from_trimmed(action: &str, item_name: &str, trimmed: &str) -> (r: String)
    ensures
        r@ == process_error_spec(action@, item_name@, trimmed@),
{
    let head = concat3("Failed to ", action, " ");
    let base = concat2(head.as_str(), item_name);
    if trimmed.unicode_len() == 0 {
        base
    } else {
        concat3(base.as_str(), ": ", trimmed)
    }
}

/// The failure message of a command that exited with an error.
pub fn format_process_error(action: &str, item_name: &str, stderr_output: &str) -> (r: String)
    ensures
        r@ == process_error_spec(action@, item_name@, trimmed_of(stderr_output@)),
{
    let t = trim_text(stderr_output);
    process_error_from_trimmed(action, item_name, t.as_str())
}

pub open spec fn outcome_message(o: RunOutcome) -> Seq<char> {
    match o {
        RunOutcome::Success => Seq::empty(),
        RunOutcome::Failure(m) => m@,
        RunOutcome::TimedOut { timeout_secs, cleanup_attempted } => if cleanup_attempted {
            "Installation timed out after "@ + decimal(timeout_secs as nat) + "s (cleanup may be incomplete)"@
        } else {
            "Removal timed out after "@ + decimal(timeout_secs as nat) + "s"@
        },
        RunOutcome::Cancelled { cleanup_attempted } => if cleanup_attempted {
            "Cancelled by user (cleanup may be incomplete)"@
        } else {
            "Cancelled by user"@
        },
        RunOutcome::SystemError(e) => "System error during wait: "@ + e@,
    }
}

impl RunOutcome {
    /// The text that describes this outcome in the operation log.
    pub fn message(&self) -> (r: String)
        ensures
            r@ == outcome_message(*self),
    {
        match self {
            RunOutcome::Success => String::new(),
            RunOutcome::Failure(m) => owned(m.as_str()),
            RunOutcome::TimedOut { timeout_secs, cleanup_attempted } => {
                let n = decimal_string(*timeout_secs);
                if *cleanup_attempted {
                    concat3("Installation timed out after ", n.as_str(), "s (cleanup may be incomplete)")
                } else {
                    concat3("Removal timed out after ", n.as_str(), "s")
                }
            },
            RunOutcome::Cancelled { cleanup_attempted } => if *cleanup_attempted {
                owned("Cancelled by user (cleanup may be incomplete)")
            } else {
                owned("Cancelled by user")
            },
            RunOutcome::SystemError(e) => concat2("System error during wait: ", e.as_str()),
        }
    }
}

/// The outcome of an aborted or finished run, from the step that ended it.
pub fn finish_outcome(
    step: &RunnerStep,
    diagnostic_error: Option<String>,
    timeout_secs: u64,
    has_cleanup: bool,
) -> (r: Option<RunOutcome>)
    ensures
        match *step {
            RunnerStep::Continue => r is None,
            RunnerStep::Finished { success } => if success {
                r == Some(RunOutcome::Success)
            } else {
                (r matches Some(RunOutcome::Failure(m)) && (diagnostic_error matches Some(d) ==> m@ == d@))
            },
            RunnerStep::KillTimedOut => r == Some(
                (RunOutcome::TimedOut { timeout_secs, cleanup_attempted: has_cleanup }),
            ),
            RunnerStep::KillCancelled => r == Some((RunOutcome::Cancelled { cleanup_attempted: has_cleanup })),
            RunnerStep::KillWaitFailed(e) => (r matches Some(RunOutcome::SystemError(m)) && m@ == e@),
        },
{
    match step {
        RunnerStep::Continue => None,
        RunnerStep::Finished { success } => if *success {
            Some(RunOutcome::Success)
        } else {
            match diagnostic_error {
                Some(d) => Some(RunOutcome::Failure(d)),
                None => Some(RunOutcome::Failure(String::new())),
            }
        },
        RunnerStep::KillTimedOut => Some(RunOutcome::TimedOut { timeout_secs, cleanup_attempted: has_cleanup }),
        RunnerStep::KillCancelled => Some(RunOutcome::Cancelled { cleanup_attempted: has_cleanup }),
        RunnerStep::KillWaitFailed(e) => Some(RunOutcome::SystemError(owned(e.as_str()))),
    }
}

} // verus!

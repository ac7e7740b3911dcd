//! How a process ended, and the exit code that passes it on.

use vstd::prelude::*;

verus! {

/// What waiting for a process reported. Signals are given by their numbers.
#[derive(Clone, Copy, PartialEq, Eq, Structural, Debug)]
pub enum WaitStatus {
    Exited { pid: i32, code: i32 },
    Signaled { pid: i32, signal: i32, core_dumped: bool },
    Stopped { pid: i32, signal: i32 },
    PtraceEvent { pid: i32, signal: i32, event: i32 },
    PtraceSyscall { pid: i32 },
    Continued { pid: i32 },
    StillAlive,
}

/// A status that does not say how the process ended.
#[derive(Clone, Copy, PartialEq, Eq, Structural, Debug)]
pub struct UnexpectedStatus {
    pub status: WaitStatus,
}

impl WaitStatus {
    /// A signal that ended a process has a number that leaves room for the exit code.
    pub open spec fn valid(self) -> bool {
        self matches WaitStatus::Signaled { signal, .. } ==> 0 <= signal < 128
    }

    /// Tells whether the number of the signal leaves room for the exit code.
    pub fn is_valid(&self) -> (res: bool)
        ensures
            res == self.valid(),
    {
        match self {
            WaitStatus::Signaled { signal, .. } => 0 <= *signal && *signal < 128,
            _ => true,
        }
    }
}

/// The exit code of a process that ended: the low byte of its own code, or 128 and the number
/// of the signal that ended it.
pub open spec fn exit_code(status: WaitStatus) -> Option<int> {
    match status {
        WaitStatus::Exited { code, .. } => Some(code as int % 256),
        WaitStatus::Signaled { signal, .. } => Some(128 + signal as int),
        _ => None,
    }
}

/// The exit code that passes on how a process ended.
pub fn exit_status(status: WaitStatus) -> (res: Result<u8, UnexpectedStatus>)
    requires
        status.valid(),
    ensures
        match res {
            Ok(code) => exit_code(status) == Some(code as int),
            Err(error) => exit_code(status) is None && error.status == status,
        },
{
    match status {
        WaitStatus::Exited { code, .. } => {
            let low: u8 = #[verifier::truncate]
            (code as u8);
            assert(low as int == code as int % 256) by (bit_vector)
                requires
                    low == code as u8,
            ;
            Ok(low)
        },
        WaitStatus::Signaled { signal, .. } => Ok(128 + signal as u8),
        _ => Err(UnexpectedStatus { status }),
    }
}

/// A process that exits with the code that another process ended with ends, to whoever waits
/// for it, with the same code.
pub proof fn exit_codes_pass_through(status: WaitStatus, pid: i32, code: u8)
    requires
        status.valid(),
        exit_code(status) == Some(code as int),
    ensures
        exit_code(WaitStatus::Exited { pid, code: code as i32 }) == Some(code as int),
{
}

/// An ended process passes on a code that fits in a byte, and only a process that ended does.
pub proof fn ended_processes_have_codes(status: WaitStatus)
    requires
        status.valid(),
    ensures
        exit_code(status) matches Some(code) ==> 0 <= code < 256,
        exit_code(status) is Some <==> status is Exited || status is Signaled,
{
}

/// A process that exits passes on its own code, as far as it fits: what is passed on differs
/// from it by a multiple of 256. A process that a signal ends passes on the number of the
/// signal and 128. Nothing else passes on a code.
pub proof fn codes_tell_how_processes_ended(pid: i32, code: i32, signal: i32, core_dumped: bool)
    ensures
        exit_code(WaitStatus::Exited { pid, code }) matches Some(passed) && 0 <= passed < 256 && (
        code - passed) % 256 == 0,
        0 <= code < 256 ==> exit_code(WaitStatus::Exited { pid, code }) == Some(code as int),
        exit_code(WaitStatus::Signaled { pid, signal, core_dumped }) matches Some(passed)
            && passed - 128 == signal,
        exit_code(WaitStatus::Stopped { pid, signal }) is None,
        exit_code(WaitStatus::PtraceEvent { pid, signal, event: code }) is None,
        exit_code(WaitStatus::PtraceSyscall { pid }) is None,
        exit_code(WaitStatus::Continued { pid }) is None,
        exit_code(WaitStatus::StillAlive) is None,
{
}

} // verus!

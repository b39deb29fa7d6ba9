//! The result of a completed run and its serialized report.
//!
//! A [`RunnerStatus`] is decoded from a raw wait status word and the
//! resource usage the kernel reports for the reaped process.  The decoding
//! follows the POSIX wait macros: a status word whose low seven bits are
//! zero is a normal exit carrying the exit code in the next byte; a low
//! seven-bit value other than `0x7f` is a terminating signal; a low byte
//! of `0x7f` is a stop, carrying the stopping signal in the next byte.

use vstd::prelude::*;

use crate::text::{i64_to_dec, spec_dec_i64, str_bytes, str_to_bytes};

verus! {

/// The process of the status word exited normally.
pub open spec fn spec_exited(status: i32) -> bool {
    status & 0x7f == 0
}

/// The exit code of a normally exited process.
pub open spec fn spec_exit_code(status: i32) -> i32 {
    (status >> 8) & 0xff
}

/// The process of the status word was terminated by a signal.
pub open spec fn spec_signaled(status: i32) -> bool {
    status & 0x7f != 0 && status & 0x7f != 0x7f
}

/// The signal that terminated the process.
pub open spec fn spec_term_signal(status: i32) -> i32 {
    status & 0x7f
}

/// The process of the status word was stopped.
pub open spec fn spec_stopped(status: i32) -> bool {
    status & 0xff == 0x7f
}

/// The signal that stopped the process.
pub open spec fn spec_stop_signal(status: i32) -> i32 {
    (status >> 8) & 0xff
}

/// Result of a completed run.
#[derive(Clone, Copy, Debug, PartialEq, Eq, Structural)]
pub struct RunnerStatus {
    /// User plus system CPU time of the target, in milliseconds.
    pub time_used: i64,
    /// Peak resident set size of the target, in kibibytes.
    pub memory_used: i64,
    /// Exit code on a normal termination, 0 otherwise.
    pub exit_code: i32,
    /// Raw wait status word, kept for debugging.
    pub status: i32,
    /// Terminating or stopping signal number, 0 otherwise.
    pub signal: i32,
}

/// The report written for a run: five `key = value` lines in fixed order.
pub open spec fn spec_report(st: RunnerStatus) -> Seq<u8> {
    str_bytes("time_used = "@) + spec_dec_i64(st.time_used as int) + seq![10u8] + str_bytes(
        "memory_used = "@,
    ) + spec_dec_i64(st.memory_used as int) + seq![10u8] + str_bytes("exit_code = "@)
        + spec_dec_i64(st.exit_code as int) + seq![10u8] + str_bytes("status = "@) + spec_dec_i64(
        st.status as int,
    ) + seq![10u8] + str_bytes("signal = "@) + spec_dec_i64(st.signal as int) + seq![10u8]
}

impl RunnerStatus {
    /// Decodes the wait status word and resource usage of a reaped process
    /// into a run result.
    ///
    /// The CPU time is the sum of the user and system times, each taken as
    /// whole milliseconds.  The second bounds keep the millisecond sums
    /// within the result type; the kernel never reports times anywhere
    /// near them.
    ///
    /// Every status word decodes: whatever way the target ended —
    /// including failing to start, which surfaces as an immediate exit
    /// with a non-zero code or a signal — the result is well formed, with
    /// the exit code and signal each within a byte.
    pub fn from_wait(
        status: i32,
        utime_sec: i64,
        utime_usec: i64,
        stime_sec: i64,
        stime_usec: i64,
        max_rss: i64,
    ) -> (r: RunnerStatus)
        requires
            0 <= utime_sec <= 0x10_0000_0000_0000,
            0 <= stime_sec <= 0x10_0000_0000_0000,
            0 <= utime_usec < 1_000_000,
            0 <= stime_usec < 1_000_000,
        ensures
            r.time_used == utime_sec * 1000 + utime_usec / 1000 + stime_sec * 1000 + stime_usec
                / 1000,
            r.memory_used == max_rss,
            r.status == status,
            r.exit_code == if spec_exited(status) {
                spec_exit_code(status)
            } else {
                0
            },
            r.signal == if spec_signaled(status) {
                spec_term_signal(status)
            } else if spec_stopped(status) {
                spec_stop_signal(status)
            } else {
                0
            },
            0 <= r.exit_code <= 255,
            0 <= r.signal <= 255,
    {
        proof {
            assert(0 <= (status >> 8) & 0xff <= 255) by (bit_vector);
            assert(0 <= status & 0x7f <= 127) by (bit_vector);
        }
        let time_used = utime_sec * 1000 + utime_usec / 1000 + stime_sec * 1000 + stime_usec
            / 1000;
        let low = status & 0x7f;
        let exit_code: i32 = if low == 0 {
            (status >> 8) & 0xff
        } else {
            0
        };
        let signal: i32 = if low != 0 && low != 0x7f {
            low
        } else if status & 0xff == 0x7f {
            (status >> 8) & 0xff
        } else {
            0
        };
        RunnerStatus { time_used, memory_used: max_rss, exit_code, status, signal }
    }

    /// Renders the report written to the result descriptor: the five
    /// `key = value` lines, each terminated by a newline.
    pub fn result_bytes(&self) -> (r: Vec<u8>)
        ensures
            r@ == spec_report(*self),
    {
        let mut r = str_to_bytes("time_used = ");
        let mut part = i64_to_dec(self.time_used);
        r.append(&mut part);
        r.push(10);
        let mut label = str_to_bytes("memory_used = ");
        r.append(&mut label);
        let mut part = i64_to_dec(self.memory_used);
        r.append(&mut part);
        r.push(10);
        let mut label = str_to_bytes("exit_code = ");
        r.append(&mut label);
        let mut part = i64_to_dec(self.exit_code as i64);
        r.append(&mut part);
        r.push(10);
        let mut label = str_to_bytes("status = ");
        r.append(&mut label);
        let mut part = i64_to_dec(self.status as i64);
        r.append(&mut part);
        r.push(10);
        let mut label = str_to_bytes("signal = ");
        r.append(&mut label);
        let mut part = i64_to_dec(self.signal as i64);
        r.append(&mut part);
        r.push(10);
        assert(r@ =~= spec_report(*self));
        r
    }
}

/// The report is a function of the run result alone: equal results render
/// to byte-identical reports.
pub proof fn lemma_report_deterministic(a: RunnerStatus, b: RunnerStatus)
    requires
        a == b,
    ensures
        spec_report(a) == spec_report(b),
{
}

} // verus!

//! Sink-side plumbing: what becomes of a frame that arrived at the sink, and the
//! pipeline statistics with their periodic throughput report.

use std::sync::atomic::AtomicU64;
use std::sync::atomic::Ordering;
use vstd::prelude::*;

use crate::sink::SinkError;
use crate::sink::SinkErrorKind;

verus! {

/// Counters that the capture thread and the sink thread share. What they hold is
/// changed by other threads at any time, so nothing is said here of the values
/// that a read gives.
pub struct Stats {
    pub captured: AtomicU64,
    pub written: AtomicU64,
    pub dropped: AtomicU64,
}

impl Default for Stats {
    /// All counters at zero.
    fn default() -> (r: Self) {
        Stats {
            captured: AtomicU64::new(0),
            written: AtomicU64::new(0),
            dropped: AtomicU64::new(0),
        }
    }
}

impl Stats {
    /// Counts a captured frame.
    pub fn count_captured(&self) {
        let _ = self.captured.fetch_add(1, Ordering::Relaxed);
    }

    /// Counts a written frame.
    pub fn count_written(&self) {
        let _ = self.written.fetch_add(1, Ordering::Relaxed);
    }

    /// Counts a dropped frame.
    pub fn count_dropped(&self) {
        let _ = self.dropped.fetch_add(1, Ordering::Relaxed);
    }

    /// The captured, written and dropped frames.
    pub fn read(&self) -> (r: (u64, u64, u64)) {
        (
            self.captured.load(Ordering::Relaxed),
            self.written.load(Ordering::Relaxed),
            self.dropped.load(Ordering::Relaxed),
        )
    }
}

// ---------------------------------------------------------------------------
// The sink loop
// ---------------------------------------------------------------------------

/// What the sink loop received.
#[derive(Clone, Copy, Debug, PartialEq, Eq, Structural)]
pub enum Received {
    /// A frame.
    Frame,
    /// Nothing within the timeout.
    Timeout,
    /// The capture side is gone.
    Disconnected,
}

/// What the sink loop does next.
#[derive(Clone, Copy, Debug, PartialEq, Eq, Structural)]
pub enum SinkStep {
    /// Write the frame, then return it to the pool and report.
    Write,
    /// Return the frame to the pool without writing it, then report.
    Recycle,
    /// Only report.
    Report,
    /// Leave the loop.
    Stop,
}

/// Whether the sink loop ends before it waits for the next frame: shutdown was
/// requested and nothing is queued any more.
pub fn sink_is_done(shutdown: bool, queue_empty: bool) -> (r: bool)
    ensures
        r == (shutdown && queue_empty),
        r == is_drained(shutdown, queue_empty),
{
    shutdown && queue_empty
}

/// Decides what to do with what was received. While the virtual camera is toggled
/// off, frames are recycled without being written.
pub fn on_received(received: Received, switch_on: bool) -> (r: SinkStep)
    ensures
        r == (match received {
            Received::Frame => if switch_on {
                SinkStep::Write
            } else {
                SinkStep::Recycle
            },
            Received::Timeout => SinkStep::Report,
            Received::Disconnected => SinkStep::Stop,
        }),
        r == received_step(received, switch_on),
{
    match received {
        Received::Frame => if switch_on {
            SinkStep::Write
        } else {
            SinkStep::Recycle
        },
        Received::Timeout => SinkStep::Report,
        Received::Disconnected => SinkStep::Stop,
    }
}

/// What a write counts as.
#[derive(Clone, Copy, Debug, PartialEq, Eq, Structural)]
pub enum WriteTally {
    Written,
    /// Dropped; `log` says whether the failure is logged, with this count.
    Dropped { log: Option<u64> },
}

/// The count of write errors after a write, and what the write counts as. Back-
/// pressure is a graceful drop. Errors are logged the first time and then every
/// 120th, to throttle the log while a missing or busy device keeps failing.
pub open spec fn tally(write_errors: u64, outcome: Result<(), SinkError>) -> (int, WriteTally) {
    match outcome {
        Ok(()) => (0, WriteTally::Written),
        Err(e) => if e.kind == SinkErrorKind::WouldBlock {
            (write_errors as int, WriteTally::Dropped { log: None })
        } else {
            let n = write_errors + 1;
            (
                n,
                WriteTally::Dropped {
                    log: if n == 1 || n % 120 == 0 {
                        Some(n as u64)
                    } else {
                        None
                    },
                },
            )
        },
    }
}

/// Counts a write: it was written, or dropped with or without a log line.
pub fn on_written(write_errors: &mut u64, outcome: &Result<(), SinkError>) -> (r: WriteTally)
    requires
        *old(write_errors) < u64::MAX,
    ensures
        *final(write_errors) == tally(*old(write_errors), *outcome).0,
        r == tally(*old(write_errors), *outcome).1,
{
    match outcome {
        Ok(()) => {
            *write_errors = 0;
            WriteTally::Written
        },
        // No consumer draining the virtual device right now: drop
        // gracefully, this is the designed back-pressure escape hatch.
        Err(e) => if e.kind == SinkErrorKind::WouldBlock {
            WriteTally::Dropped { log: None }
        } else {
            *write_errors = *write_errors + 1;
            let n: u64 = *write_errors;
            if n == 1 || n % 120 == 0 {
                WriteTally::Dropped { log: Some(n) }
            } else {
                WriteTally::Dropped { log: None }
            }
        },
    }
}

/// The number of log lines that a run of errors gives.
pub open spec fn log_lines(errors: nat) -> nat
    decreases errors,
{
    if errors == 0 {
        0
    } else {
        log_lines((errors - 1) as nat) + if errors == 1 || errors % 120 == 0 {
            1nat
        } else {
            0nat
        }
    }
}

/// A run of errors is logged once at its start and then once for every 120
/// errors.
pub proof fn law_error_log_is_throttled(errors: nat)
    ensures
        log_lines(errors) == if errors == 0 {
            0nat
        } else {
            1 + errors / 120
        },
    decreases errors,
{
    if errors > 0 {
        law_error_log_is_throttled((errors - 1) as nat);
    }
}

// ---------------------------------------------------------------------------
// The throughput report
// ---------------------------------------------------------------------------

/// What the last report said.
#[derive(Clone, Copy, Debug, PartialEq, Eq, Structural)]
pub struct ReportMark {
    pub written: u64,
    pub dropped: u64,
}

/// A throughput report.
#[derive(Clone, Copy, Debug, PartialEq, Eq, Structural)]
pub struct Report {
    /// Frames written since the last report.
    pub written_delta: u64,
    /// Frames captured in all.
    pub captured: u64,
    /// Frames written in all.
    pub written: u64,
    /// Frames dropped in all.
    pub dropped_total: u64,
    /// Frames dropped since the last report.
    pub dropped_delta: u64,
}

/// Makes a report every five seconds, and marks what it said. Counters only go
/// up, so they are never below their mark.
pub fn report(
    elapsed_ms: u64,
    captured: u64,
    written: u64,
    dropped: u64,
    mark: &mut ReportMark,
) -> (r: Option<Report>)
    requires
        old(mark).written <= written,
        old(mark).dropped <= dropped,
    ensures
        if elapsed_ms < 5000 {
            r is None && *final(mark) == *old(mark)
        } else {
            &&& r == Some(
                Report {
                    written_delta: (written - old(mark).written) as u64,
                    captured,
                    written,
                    dropped_total: dropped,
                    dropped_delta: (dropped - old(mark).dropped) as u64,
                },
            )
            &&& final(mark).written == written
            &&& final(mark).dropped == dropped
        },
        (r, *final(mark)) == report_after(elapsed_ms, captured, written, dropped, *old(mark)),
{
    if elapsed_ms < 5000 {
        return None;
    }
    let r = Report {
        written_delta: written - mark.written,
        captured,
        written,
        dropped_total: dropped,
        dropped_delta: dropped - mark.dropped,
    };
    mark.written = written;
    mark.dropped = dropped;
    Some(r)
}

/// A write counts for itself: a good one ends the run of errors, back-pressure leaves it
/// as it is and is never logged, and any other error adds one to it. It is logged with
/// the length of the run, as the first of it or as every 120th, and so the log has as
/// many lines as `log_lines` says.
pub proof fn law_write_tally(errors: u64, e: SinkError)
    ensures
        tally(errors, Ok(())) == (0int, WriteTally::Written),
        e.kind == SinkErrorKind::WouldBlock ==> tally(errors, Err(e)) == (
            errors as int,
            WriteTally::Dropped { log: None },
        ),
        e.kind != SinkErrorKind::WouldBlock ==> {
            let (after, counted) = tally(errors, Err(e));
            &&& after == errors + 1
            &&& counted is Dropped
            &&& errors < u64::MAX ==> (counted == (WriteTally::Dropped {
                log: Some((errors + 1) as u64),
            }) <==> errors == 0 || (errors + 1) % 120 == 0)
            &&& counted == (WriteTally::Dropped { log: None }) || errors == 0 || (errors + 1) % 120
                == 0
            &&& log_lines((errors + 1) as nat) - log_lines(errors as nat) == if counted == (
            WriteTally::Dropped { log: None }) {
                0int
            } else {
                1int
            }
        },
{
}

/// What is made of what the sink loop received.
pub open spec fn received_step(received: Received, switch_on: bool) -> SinkStep {
    match (received, switch_on) {
        (Received::Frame, true) => SinkStep::Write,
        (Received::Frame, false) => SinkStep::Recycle,
        (Received::Timeout, _) => SinkStep::Report,
        (Received::Disconnected, _) => SinkStep::Stop,
    }
}

/// Only a frame is ever written, and only while the camera is on; the switch changes
/// nothing but that. The loop ends only when the other side is gone.
pub proof fn law_only_frames_are_written(received: Received, switch_on: bool)
    ensures
        received_step(received, switch_on) is Write <==> received == Received::Frame && switch_on,
        received_step(received, switch_on) is Recycle <==> received == Received::Frame
            && !switch_on,
        received_step(received, switch_on) is Stop <==> received == Received::Disconnected,
        received != Received::Frame ==> received_step(received, true) == received_step(
            received,
            false,
        ),
{
}

/// The report that is made after this time, and the mark after it.
pub open spec fn report_after(
    elapsed_ms: u64,
    captured: u64,
    written: u64,
    dropped: u64,
    mark: ReportMark,
) -> (Option<Report>, ReportMark) {
    if elapsed_ms >= 5000 {
        (
            Some(
                Report {
                    written_delta: (written - mark.written) as u64,
                    captured,
                    written,
                    dropped_total: dropped,
                    dropped_delta: (dropped - mark.dropped) as u64,
                },
            ),
            ReportMark { written, dropped },
        )
    } else {
        (None, mark)
    }
}

/// Reports come every five seconds and leave no frame out and count none twice: the
/// frames of two reports in a row add up to the frames since the mark before them.
pub proof fn law_reports_add_up(
    mark: ReportMark,
    t1: u64,
    c1: u64,
    w1: u64,
    d1: u64,
    t2: u64,
    c2: u64,
    w2: u64,
    d2: u64,
)
    requires
        mark.written <= w1 <= w2,
        mark.dropped <= d1 <= d2,
    ensures
        t1 < 5000 ==> report_after(t1, c1, w1, d1, mark) == (None::<Report>, mark),
        t1 >= 5000 && t2 >= 5000 ==> {
            let (r1, m1) = report_after(t1, c1, w1, d1, mark);
            let (r2, m2) = report_after(t2, c2, w2, d2, m1);
            &&& r1 matches Some(a)
            &&& r2 matches Some(b)
            &&& a.written_delta + b.written_delta == w2 - mark.written
            &&& a.dropped_delta + b.dropped_delta == d2 - mark.dropped
            &&& a.captured == c1 && a.written == w1 && a.dropped_total == d1
            &&& b.captured == c2 && b.written == w2 && b.dropped_total == d2
            &&& m2.written == w2 && m2.dropped == d2
        },
{
}

/// Whether the sink loop is through.
pub open spec fn is_drained(shutdown: bool, queue_empty: bool) -> bool {
    shutdown && queue_empty
}

/// Shutdown drains the queue: no queued frame is left behind, and without a request the
/// loop never ends by itself.
pub proof fn law_shutdown_drains(shutdown: bool, queue_empty: bool)
    ensures
        !is_drained(shutdown, false),
        !is_drained(false, queue_empty),
        is_drained(true, true),
{
}

} // verus!
